//! What the commands report, as JSON values.

use vstd::prelude::*;
use crate::datasources::SessionInfo;
use crate::models::{HistoryEntry, PromptCluster, TodoEntry, TodoFile};
use crate::text::owned;
use crate::value::{
    clone_json, json_items_view, json_members_view, lemma_json_array_view,
    lemma_json_object_view, JsonNumber, JsonValue, JsonView,
};

verus! {

/// An object with the given members.
pub open spec fn object_of(members: Seq<(Seq<char>, JsonView)>) -> JsonView {
    JsonView::Object(members)
}

/// The JSON value of an optional text: the text, or null.
pub open spec fn optional_text(text: Option<String>) -> JsonView {
    match text {
        Some(t) => JsonView::Str(t@),
        None => JsonView::Null,
    }
}

/// The JSON value of a count.
pub open spec fn count_value(n: int) -> JsonView {
    JsonView::Number(JsonNumber::of_int(n))
}

fn text_value(text: &String) -> (r: JsonValue)
    ensures
        r@ == JsonView::Str(text@),
{
    JsonValue::Str(text.clone())
}

fn unsigned_value(n: u64) -> (r: JsonValue)
    ensures
        r@ == count_value(n as int),
{
    JsonValue::Number(JsonNumber::PosInt(n))
}

fn member(name: &str, value: JsonValue) -> (r: (String, JsonValue))
    ensures
        r.0@ == name@,
        r.1@ == value@,
{
    (owned(name), value)
}

fn object(members: Vec<(String, JsonValue)>) -> (r: JsonValue)
    ensures
        r@ == object_of(json_members_view(members@)),
{
    proof {
        lemma_json_object_view(members);
    }
    JsonValue::Object(members)
}

/// What is reported of a prompt in which a search found its pattern.
pub open spec fn history_match_of(entry: HistoryEntry) -> JsonView {
    object_of(
        seq![
            ("content"@, JsonView::Str(entry.display@)),
            ("project"@, optional_text(entry.project)),
            ("source"@, JsonView::Str("history"@)),
            ("timestamp"@, count_value(entry.timestamp as int)),
        ],
    )
}

/// What is reported of a prompt in which a search found its pattern.
pub fn history_match(entry: &HistoryEntry) -> (r: JsonValue)
    ensures
        r@ == history_match_of(*entry),
{
    let project = match &entry.project {
        Some(p) => text_value(p),
        None => JsonValue::Null,
    };
    let mut members: Vec<(String, JsonValue)> = Vec::new();
    members.push(member("content", text_value(&entry.display)));
    members.push(member("project", project));
    members.push(member("source", JsonValue::Str(owned("history"))));
    members.push(member("timestamp", JsonValue::Number(JsonNumber::from_i64(entry.timestamp))));
    assert(json_members_view(members@) =~= seq![
        ("content"@, JsonView::Str(entry.display@)),
        ("project"@, optional_text(entry.project)),
        ("source"@, JsonView::Str("history"@)),
        ("timestamp"@, count_value(entry.timestamp as int)),
    ]);
    object(members)
}

/// What is reported of an entry of a session in which a search found its
/// pattern.
pub open spec fn transcript_match_of(session_id: Seq<char>, index: usize, entry: JsonView)
    -> JsonView {
    object_of(
        seq![
            ("content"@, entry),
            ("entry_index"@, count_value(index as int)),
            ("session_id"@, JsonView::Str(session_id)),
            ("source"@, JsonView::Str("transcript"@)),
        ],
    )
}

/// What is reported of an entry of a session in which a search found its
/// pattern.
pub fn transcript_match(session_id: &str, index: usize, entry: &JsonValue) -> (r: JsonValue)
    ensures
        r@ == transcript_match_of(session_id@, index, entry@),
{
    let mut members: Vec<(String, JsonValue)> = Vec::new();
    members.push(member("content", clone_json(entry)));
    members.push(member("entry_index", unsigned_value(index as u64)));
    members.push(member("session_id", JsonValue::Str(owned(session_id))));
    members.push(member("source", JsonValue::Str(owned("transcript"))));
    assert(json_members_view(members@) =~= seq![
        ("content"@, entry@),
        ("entry_index"@, count_value(index as int)),
        ("session_id"@, JsonView::Str(session_id@)),
        ("source"@, JsonView::Str("transcript"@)),
    ]);
    object(members)
}

/// What is reported of a session, with the text of the time at which it
/// was changed last.
pub open spec fn session_report_of(session: SessionInfo, modified: Seq<char>) -> JsonView {
    object_of(
        seq![
            ("modified"@, JsonView::Str(modified)),
            ("session_id"@, JsonView::Str(session.session_id@)),
            ("size"@, count_value(session.size_bytes as int)),
        ],
    )
}

/// What is reported of a session.
pub fn session_report(session: &SessionInfo, modified: &str) -> (r: JsonValue)
    ensures
        r@ == session_report_of(*session, modified@),
{
    let mut members: Vec<(String, JsonValue)> = Vec::new();
    members.push(member("modified", JsonValue::Str(owned(modified))));
    members.push(member("session_id", text_value(&session.session_id)));
    members.push(member("size", unsigned_value(session.size_bytes)));
    assert(json_members_view(members@) =~= seq![
        ("modified"@, JsonView::Str(modified@)),
        ("session_id"@, JsonView::Str(session.session_id@)),
        ("size"@, count_value(session.size_bytes as int)),
    ]);
    object(members)
}

/// What is reported of a task.
pub open spec fn todo_report_of(entry: TodoEntry) -> JsonView {
    object_of(
        seq![
            ("activeForm"@, JsonView::Str(entry.active_form@)),
            ("content"@, JsonView::Str(entry.content@)),
            ("status"@, JsonView::Str(entry.status.text_of())),
        ],
    )
}

/// What is reported of a task.
pub fn todo_report(entry: &TodoEntry) -> (r: JsonValue)
    ensures
        r@ == todo_report_of(*entry),
{
    let mut members: Vec<(String, JsonValue)> = Vec::new();
    members.push(member("activeForm", text_value(&entry.active_form)));
    members.push(member("content", text_value(&entry.content)));
    members.push(member("status", JsonValue::Str(entry.status.as_text())));
    assert(json_members_view(members@) =~= seq![
        ("activeForm"@, JsonView::Str(entry.active_form@)),
        ("content"@, JsonView::Str(entry.content@)),
        ("status"@, JsonView::Str(entry.status.text_of())),
    ]);
    object(members)
}

/// What is reported of the tasks of a file.
pub open spec fn todo_file_report_of(file: TodoFile) -> JsonView {
    object_of(
        seq![
            ("agent_id"@, JsonView::Str(file.agent_id@)),
            ("todos"@, JsonView::Array(Seq::new(file.todos@.len(), |i: int| todo_report_of(file.todos@[i])))),
            ("workspace_id"@, JsonView::Str(file.workspace_id@)),
        ],
    )
}

/// What is reported of the tasks of a file.
pub fn todo_file_report(file: &TodoFile) -> (r: JsonValue)
    ensures
        r@ == todo_file_report_of(*file),
{
    let mut todos: Vec<JsonValue> = Vec::new();
    let mut i: usize = 0;
    while i < file.todos.len()
        invariant
            i <= file.todos.len(),
            todos@.len() == i,
            forall|k: int| 0 <= k < i ==> (#[trigger] todos@[k])@ == todo_report_of(file.todos@[k]),
        decreases file.todos.len() - i,
    {
        todos.push(todo_report(&file.todos[i]));
        i += 1;
    }
    proof {
        lemma_json_array_view(todos);
        assert(json_items_view(todos@) =~= Seq::new(
            file.todos@.len(),
            |i: int| todo_report_of(file.todos@[i]),
        ));
    }
    let mut members: Vec<(String, JsonValue)> = Vec::new();
    members.push(member("agent_id", text_value(&file.agent_id)));
    members.push(member("todos", JsonValue::Array(todos)));
    members.push(member("workspace_id", text_value(&file.workspace_id)));
    assert(json_members_view(members@) =~= seq![
        ("agent_id"@, JsonView::Str(file.agent_id@)),
        (
            "todos"@,
            JsonView::Array(Seq::new(file.todos@.len(), |i: int| todo_report_of(file.todos@[i]))),
        ),
        ("workspace_id"@, JsonView::Str(file.workspace_id@)),
    ]);
    object(members)
}

/// What is reported of a cluster of prompts.
pub open spec fn cluster_report_of(cluster: PromptCluster) -> JsonView {
    object_of(
        seq![
            ("count"@, count_value(cluster.count as int)),
            ("latest"@, count_value(cluster.latest_timestamp as int)),
            ("prompt"@, JsonView::Str(cluster.canonical@)),
            (
                "variants"@,
                JsonView::Array(
                    Seq::new(
                        cluster.variants@.len(),
                        |i: int| JsonView::Str(cluster.variants@[i]@),
                    ),
                ),
            ),
        ],
    )
}

/// What is reported of a cluster of prompts.
pub fn cluster_report(cluster: &PromptCluster) -> (r: JsonValue)
    ensures
        r@ == cluster_report_of(*cluster),
{
    let mut variants: Vec<JsonValue> = Vec::new();
    let mut i: usize = 0;
    while i < cluster.variants.len()
        invariant
            i <= cluster.variants.len(),
            variants@.len() == i,
            forall|k: int|
                0 <= k < i ==> (#[trigger] variants@[k])@ == JsonView::Str(cluster.variants@[k]@),
        decreases cluster.variants.len() - i,
    {
        variants.push(text_value(&cluster.variants[i]));
        i += 1;
    }
    proof {
        lemma_json_array_view(variants);
        assert(json_items_view(variants@) =~= Seq::new(
            cluster.variants@.len(),
            |i: int| JsonView::Str(cluster.variants@[i]@),
        ));
    }
    let mut members: Vec<(String, JsonValue)> = Vec::new();
    members.push(member("count", unsigned_value(cluster.count as u64)));
    members.push(
        member("latest", JsonValue::Number(JsonNumber::from_i64(cluster.latest_timestamp))),
    );
    members.push(member("prompt", text_value(&cluster.canonical)));
    members.push(member("variants", JsonValue::Array(variants)));
    assert(json_members_view(members@) =~= seq![
        ("count"@, count_value(cluster.count as int)),
        ("latest"@, count_value(cluster.latest_timestamp as int)),
        ("prompt"@, JsonView::Str(cluster.canonical@)),
        (
            "variants"@,
            JsonView::Array(
                Seq::new(cluster.variants@.len(), |i: int| JsonView::Str(cluster.variants@[i]@)),
            ),
        ),
    ]);
    object(members)
}

} // verus!
