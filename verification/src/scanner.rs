//! The scanners of the virtual tables: from the files of a table, as they
//! were read, to the rows of the table.
//!
//! A scan keeps nothing between calls: the rows are a function of the files
//! handed in. Files are taken in the order given, the rows of a file in the
//! order of its lines or items, and a row's key is its position in the
//! whole result. A line or a file that is no JSON is left out.

use vstd::prelude::*;
use crate::error::{Error, ErrorKind};
use crate::merge::{lemma_merged_permutation, merged};
use crate::parse::{json_text_value, parse_json};
use crate::paths::{has_extension, path_has_extension};
use crate::record::{
    json_to_record, record_with_meta, rows_hold, text_column, RecordView, Row,
};
use crate::text::{
    chars_of, concat, find, first_occurrence, owned, slice_chars, string_of, strip_prefix,
    strip_prefix_of, strip_suffix, strip_suffix_of,
};
use crate::value::{
    engine_fields_view, find_member, json_items_view, json_members_view, lemma_json_array_view,
    lemma_json_object_view, member_from, EngineValue, EngineView, JsonValue,
    JsonView,
};

verus! {

// ---------------------------------------------------------------------------
// What is handed in
// ---------------------------------------------------------------------------

/// A file that is read line by line: its name, and its lines, or none where
/// the file could not be opened.
#[derive(Clone, Debug, PartialEq, Eq)]
pub struct LineFile {
    pub name: String,
    pub lines: Option<Vec<String>>,
}

/// A file that is read whole: its name, and its content, or none where the
/// file could not be read.
#[derive(Clone, Debug, PartialEq, Eq)]
pub struct TextFile {
    pub name: String,
    pub content: Option<String>,
}

/// What came of the attempt to list a directory or to read a file.
#[derive(Clone, Debug, PartialEq, Eq)]
pub enum Listing<F> {
    /// There is no such directory or file.
    Missing,
    /// It is there and could not be read at all; the text says why.
    Failed(String),
    /// What was found, in the order in which it was found.
    Entries(Vec<F>),
}

/// The texts as models.
pub open spec fn texts_view(texts: Seq<String>) -> Seq<Seq<char>> {
    Seq::new(texts.len(), |i: int| texts[i]@)
}

impl LineFile {
    /// The lines of the file as models.
    pub open spec fn lines_view(&self) -> Option<Seq<Seq<char>>> {
        match self.lines {
            Some(lines) => Some(texts_view(lines@)),
            None => None,
        }
    }
}

impl TextFile {
    /// The content of the file as a model.
    pub open spec fn content_view(&self) -> Option<Seq<char>> {
        match self.content {
            Some(content) => Some(content@),
            None => None,
        }
    }
}

/// The failure of a scan whose directory or file could not be read.
pub fn unreadable(what: &str, cause: &str) -> (e: Error)
    ensures
        e.kind() == ErrorKind::Io,
        e.detail() == "Failed to read "@ + what@ + ": "@ + cause@,
{
    let a = concat("Failed to read ", what);
    let b = concat(a.as_str(), ": ");
    Error::Io(concat(b.as_str(), cause))
}

// ---------------------------------------------------------------------------
// Records from lines
// ---------------------------------------------------------------------------

/// The records of the first `n` lines: one for each line that is JSON, with
/// the columns `meta`.
pub open spec fn line_records_upto(lines: Seq<Seq<char>>, meta: RecordView, n: nat) -> Seq<
    RecordView,
>
    decreases n,
{
    if n == 0 || n > lines.len() {
        Seq::empty()
    } else {
        let before = line_records_upto(lines, meta, (n - 1) as nat);
        match json_text_value(lines[n - 1]) {
            Some(json) => before.push(record_with_meta(json, meta)),
            None => before,
        }
    }
}

/// The records of the first `n` items of an array, with the columns `meta`.
pub open spec fn item_records_upto(items: Seq<JsonView>, meta: RecordView, n: nat) -> Seq<
    RecordView,
>
    decreases n,
{
    if n == 0 || n > items.len() {
        Seq::empty()
    } else {
        item_records_upto(items, meta, (n - 1) as nat).push(record_with_meta(items[n - 1], meta))
    }
}

fn push_row(rows: &mut Vec<Row>, record: Vec<(String, EngineValue)>, Ghost(done): Ghost<
    Seq<RecordView>,
>)
    requires
        rows_hold(old(rows)@, done),
    ensures
        rows_hold(final(rows)@, done.push(engine_fields_view(record@))),
{
    let key = rows.len();
    rows.push(Row { key, record });
}

// ---------------------------------------------------------------------------
// Conversation logs: a directory of files of lines
// ---------------------------------------------------------------------------

/// Whether a file of the directory of conversation logs is one: its
/// extension is `jsonl`.
pub open spec fn is_transcript_file(name: Seq<char>) -> bool {
    has_extension(name, "jsonl"@)
}

/// The session of a conversation log, told by the file's name: what stands
/// between `ses_` and `.jsonl`, or the whole name where it has not both.
pub open spec fn session_id_of(name: Seq<char>) -> Seq<char> {
    match strip_prefix_of(name, "ses_"@) {
        Some(rest) => match strip_suffix_of(rest, ".jsonl"@) {
            Some(id) => id,
            None => name,
        },
        None => name,
    }
}

/// The columns that the name of a conversation log tells.
pub open spec fn transcript_meta_of(source_file: Seq<char>, session_id: Seq<char>) -> RecordView {
    seq![
        ("_source_file"@, EngineView::Str(source_file)),
        ("_session_id"@, EngineView::Str(session_id)),
    ]
}

/// The records of one conversation log: none where the file is no log or
/// could not be opened.
pub open spec fn transcript_file_records(file: LineFile) -> Seq<RecordView> {
    match file.lines_view() {
        Some(lines) => if is_transcript_file(file.name@) {
            line_records_upto(
                lines,
                transcript_meta_of(file.name@, session_id_of(file.name@)),
                lines.len(),
            )
        } else {
            Seq::empty()
        },
        None => Seq::empty(),
    }
}

/// The records of the first `n` files of the directory.
pub open spec fn transcript_records_upto(files: Seq<LineFile>, n: nat) -> Seq<RecordView>
    decreases n,
{
    if n == 0 || n > files.len() {
        Seq::empty()
    } else {
        transcript_records_upto(files, (n - 1) as nat) + transcript_file_records(files[n - 1])
    }
}

/// The records of the files of the directory, file after file.
pub open spec fn transcript_records(files: Seq<LineFile>) -> Seq<RecordView> {
    transcript_records_upto(files, files.len())
}

/// Whether a file of the directory of conversation logs is one.
pub fn is_transcript_name(name: &str) -> (r: bool)
    ensures
        r == is_transcript_file(name@),
{
    path_has_extension(name, "jsonl")
}

/// The session of a conversation log, told by the file's name.
pub fn session_id_from(name: &str) -> (r: String)
    ensures
        r@ == session_id_of(name@),
{
    let chars = chars_of(name);
    match strip_prefix(&chars, &chars_of("ses_")) {
        Some(rest) => match strip_suffix(&rest, &chars_of(".jsonl")) {
            Some(id) => string_of(&id),
            None => owned(name),
        },
        None => owned(name),
    }
}

/// The record of one entry of a conversation log.
pub fn json_to_data_row_with_meta(json: &JsonValue, source_file: &str, session_id: &str) -> (r:
    Vec<(String, EngineValue)>)
    ensures
        engine_fields_view(r@) == record_with_meta(
            json@,
            transcript_meta_of(source_file@, session_id@),
        ),
{
    let mut meta: Vec<(String, EngineValue)> = Vec::new();
    meta.push(text_column("_source_file", source_file));
    meta.push(text_column("_session_id", session_id));
    assert(engine_fields_view(meta@) =~= transcript_meta_of(source_file@, session_id@));
    json_to_record(json, meta)
}

fn append_transcript_file(rows: &mut Vec<Row>, file: &LineFile, Ghost(done): Ghost<
    Seq<RecordView>,
>)
    requires
        rows_hold(old(rows)@, done),
    ensures
        rows_hold(final(rows)@, done + transcript_file_records(*file)),
{
    assert(done + Seq::<RecordView>::empty() == done);
    if !is_transcript_name(file.name.as_str()) {
        return ;
    }
    let lines = match &file.lines {
        Some(lines) => lines,
        None => {
            return ;
        },
    };
    let session_id = session_id_from(file.name.as_str());
    let ghost meta = transcript_meta_of(file.name@, session_id@);
    let ghost texts = texts_view(lines@);
    let mut j: usize = 0;
    while j < lines.len()
        invariant
            j <= lines.len(),
            texts == texts_view(lines@),
            meta == transcript_meta_of(file.name@, session_id@),
            rows_hold(rows@, done + line_records_upto(texts, meta, j as nat)),
        decreases lines.len() - j,
    {
        let ghost before = done + line_records_upto(texts, meta, j as nat);
        match parse_json(lines[j].as_str()) {
            Some(json) => {
                let record = json_to_data_row_with_meta(
                    &json,
                    file.name.as_str(),
                    session_id.as_str(),
                );
                push_row(rows, record, Ghost(before));
                assert(before.push(record_with_meta(json@, meta)) == done + line_records_upto(
                    texts,
                    meta,
                    (j + 1) as nat,
                ));
            },
            None => {},
        }
        j += 1;
    }
}

/// The rows of the conversation logs: for each file with the extension
/// `jsonl` that could be opened, in the order given, one row for each line
/// that is JSON.
pub fn transcript_rows(files: &Vec<LineFile>) -> (rows: Vec<Row>)
    ensures
        rows_hold(rows@, transcript_records(files@)),
{
    let mut rows: Vec<Row> = Vec::new();
    let mut f: usize = 0;
    while f < files.len()
        invariant
            f <= files.len(),
            rows_hold(rows@, transcript_records_upto(files@, f as nat)),
        decreases files.len() - f,
    {
        append_transcript_file(
            &mut rows,
            &files[f],
            Ghost(transcript_records_upto(files@, f as nat)),
        );
        f += 1;
    }
    rows
}

/// The scan of the table of conversation logs. A directory that is not
/// there has no rows; one that cannot be listed fails the scan.
pub fn scan_transcripts(listing: &Listing<LineFile>) -> (r: Result<Vec<Row>, Error>)
    ensures
        match *listing {
            Listing::Missing => r is Ok && r->Ok_0@.len() == 0,
            Listing::Failed(cause) => r is Err && r->Err_0.kind() == ErrorKind::Io
                && r->Err_0.detail() == "Failed to read "@ + "transcripts dir"@ + ": "@ + cause@,
            Listing::Entries(files) => r is Ok && rows_hold(
                r->Ok_0@,
                transcript_records(files@),
            ),
        },
{
    match listing {
        Listing::Missing => Ok(Vec::new()),
        Listing::Failed(cause) => Err(unreadable("transcripts dir", cause.as_str())),
        Listing::Entries(files) => Ok(transcript_rows(files)),
    }
}

// ---------------------------------------------------------------------------
// Task lists: a directory of files that hold an array or an object
// ---------------------------------------------------------------------------

/// Whether a file of the directory of task lists is one: its extension is
/// `json`.
pub open spec fn is_todo_file(name: Seq<char>) -> bool {
    has_extension(name, "json"@)
}

/// The name of a task list without `.json` at its end.
pub open spec fn todo_stem_of(filename: Seq<char>) -> Seq<char> {
    match strip_suffix_of(filename, ".json"@) {
        Some(stem) => stem,
        None => filename,
    }
}

/// The workspace and the agent of a task list, told by the file's name:
/// what stands before and after the first `-agent-` in the name without
/// `.json`; where there is no `-agent-`, that whole name and `unknown`.
pub open spec fn todo_ids_of(filename: Seq<char>) -> (Seq<char>, Seq<char>) {
    let stem = todo_stem_of(filename);
    match first_occurrence(stem, "-agent-"@) {
        Some(at) => (stem.take(at), stem.skip(at + "-agent-"@.len())),
        None => (stem, "unknown"@),
    }
}

/// The columns that the name of a task list tells.
pub open spec fn todo_meta_of(
    source_file: Seq<char>,
    workspace_id: Seq<char>,
    agent_id: Seq<char>,
) -> RecordView {
    seq![
        ("_source_file"@, EngineView::Str(source_file)),
        ("_workspace_id"@, EngineView::Str(workspace_id)),
        ("_agent_id"@, EngineView::Str(agent_id)),
    ]
}

/// The records of a task list with the given content: one for each item of
/// an array, one for an object, none for anything else.
pub open spec fn todo_content_records(content: JsonView, meta: RecordView) -> Seq<RecordView> {
    match content {
        JsonView::Array(items) => item_records_upto(items, meta, items.len()),
        JsonView::Object(_) => seq![record_with_meta(content, meta)],
        _ => Seq::empty(),
    }
}

/// The records of one task list: none where the file is no task list, could
/// not be read or is no JSON.
pub open spec fn todo_file_records(file: TextFile) -> Seq<RecordView> {
    match file.content_view() {
        Some(content) => if is_todo_file(file.name@) {
            match json_text_value(content) {
                Some(json) => todo_content_records(
                    json,
                    todo_meta_of(file.name@, todo_ids_of(file.name@).0, todo_ids_of(file.name@).1),
                ),
                None => Seq::empty(),
            }
        } else {
            Seq::empty()
        },
        None => Seq::empty(),
    }
}

/// The records of the first `n` files of the directory.
pub open spec fn todo_records_upto(files: Seq<TextFile>, n: nat) -> Seq<RecordView>
    decreases n,
{
    if n == 0 || n > files.len() {
        Seq::empty()
    } else {
        todo_records_upto(files, (n - 1) as nat) + todo_file_records(files[n - 1])
    }
}

/// The records of the files of the directory, file after file.
pub open spec fn todo_records(files: Seq<TextFile>) -> Seq<RecordView> {
    todo_records_upto(files, files.len())
}

/// Whether a file of the directory of task lists is one.
pub fn is_todo_name(name: &str) -> (r: bool)
    ensures
        r == is_todo_file(name@),
{
    path_has_extension(name, "json")
}

/// The workspace and the agent of a task list, told by the file's name.
pub fn parse_todo_filename(filename: &str) -> (r: (String, String))
    ensures
        (r.0@, r.1@) == todo_ids_of(filename@),
{
    let chars = chars_of(filename);
    let stem = match strip_suffix(&chars, &chars_of(".json")) {
        Some(stem) => stem,
        None => chars,
    };
    let marker = chars_of("-agent-");
    match find(&stem, &marker) {
        Some(at) => {
            assert(crate::text::occurs_at(stem@, marker@, at as int));
            let width = marker.len();
            assert(at + width <= stem.len());
            let workspace = slice_chars(&stem, 0, at);
            let agent = slice_chars(&stem, at + width, stem.len());
            assert(stem@.subrange(0, at as int) == stem@.take(at as int));
            assert(stem@.subrange(at + marker.len(), stem.len() as int) == stem@.skip(
                at + "-agent-"@.len(),
            ));
            (string_of(&workspace), string_of(&agent))
        },
        None => (string_of(&stem), owned("unknown")),
    }
}

/// The record of one task.
pub fn todo_json_to_data_row(
    json: &JsonValue,
    source_file: &str,
    workspace_id: &str,
    agent_id: &str,
) -> (r: Vec<(String, EngineValue)>)
    ensures
        engine_fields_view(r@) == record_with_meta(
            json@,
            todo_meta_of(source_file@, workspace_id@, agent_id@),
        ),
{
    let mut meta: Vec<(String, EngineValue)> = Vec::new();
    meta.push(text_column("_source_file", source_file));
    meta.push(text_column("_workspace_id", workspace_id));
    meta.push(text_column("_agent_id", agent_id));
    assert(engine_fields_view(meta@) =~= todo_meta_of(source_file@, workspace_id@, agent_id@));
    json_to_record(json, meta)
}

fn append_todo_file(rows: &mut Vec<Row>, file: &TextFile, Ghost(done): Ghost<Seq<RecordView>>)
    requires
        rows_hold(old(rows)@, done),
    ensures
        rows_hold(final(rows)@, done + todo_file_records(*file)),
{
    assert(done + Seq::<RecordView>::empty() == done);
    if !is_todo_name(file.name.as_str()) {
        return ;
    }
    let content = match &file.content {
        Some(content) => content,
        None => {
            return ;
        },
    };
    let ids = parse_todo_filename(file.name.as_str());
    let ghost meta = todo_meta_of(file.name@, ids.0@, ids.1@);
    let json = match parse_json(content.as_str()) {
        Some(json) => json,
        None => {
            return ;
        },
    };
    match &json {
        JsonValue::Array(items) => {
            let ghost views = json_items_view(items@);
            proof {
                lemma_json_array_view(*items);
            }
            let mut i: usize = 0;
            while i < items.len()
                invariant
                    i <= items.len(),
                    views == json_items_view(items@),
                    meta == todo_meta_of(file.name@, ids.0@, ids.1@),
                    rows_hold(rows@, done + item_records_upto(views, meta, i as nat)),
                decreases items.len() - i,
            {
                let ghost before = done + item_records_upto(views, meta, i as nat);
                let record = todo_json_to_data_row(
                    &items[i],
                    file.name.as_str(),
                    ids.0.as_str(),
                    ids.1.as_str(),
                );
                push_row(rows, record, Ghost(before));
                assert(before.push(record_with_meta(views[i as int], meta)) == done
                    + item_records_upto(views, meta, (i + 1) as nat));
                i += 1;
            }
        },
        JsonValue::Object(_) => {
            let record = todo_json_to_data_row(
                &json,
                file.name.as_str(),
                ids.0.as_str(),
                ids.1.as_str(),
            );
            push_row(rows, record, Ghost(done));
            assert(done.push(record_with_meta(json@, meta)) == done + seq![
                record_with_meta(json@, meta),
            ]);
        },
        _ => {},
    }
}

/// The rows of the task lists: for each file with the extension `json` that
/// could be read and is JSON, in the order given, one row for each item of
/// its array, or one row for its object.
pub fn todo_rows(files: &Vec<TextFile>) -> (rows: Vec<Row>)
    ensures
        rows_hold(rows@, todo_records(files@)),
{
    let mut rows: Vec<Row> = Vec::new();
    let mut f: usize = 0;
    while f < files.len()
        invariant
            f <= files.len(),
            rows_hold(rows@, todo_records_upto(files@, f as nat)),
        decreases files.len() - f,
    {
        append_todo_file(&mut rows, &files[f], Ghost(todo_records_upto(files@, f as nat)));
        f += 1;
    }
    rows
}

/// The scan of the table of task lists. A directory that is not there has
/// no rows; one that cannot be listed fails the scan.
pub fn scan_todos(listing: &Listing<TextFile>) -> (r: Result<Vec<Row>, Error>)
    ensures
        match *listing {
            Listing::Missing => r is Ok && r->Ok_0@.len() == 0,
            Listing::Failed(cause) => r is Err && r->Err_0.kind() == ErrorKind::Io
                && r->Err_0.detail() == "Failed to read "@ + "todos dir"@ + ": "@ + cause@,
            Listing::Entries(files) => r is Ok && rows_hold(r->Ok_0@, todo_records(files@)),
        },
{
    match listing {
        Listing::Missing => Ok(Vec::new()),
        Listing::Failed(cause) => Err(unreadable("todos dir", cause.as_str())),
        Listing::Entries(files) => Ok(todo_rows(files)),
    }
}

// ---------------------------------------------------------------------------
// The second prompt history: one file of lines, normalized
// ---------------------------------------------------------------------------

/// The text of the first member named `name`, where it holds a text.
pub open spec fn text_member(members: Seq<(Seq<char>, JsonView)>, name: Seq<char>) -> Option<
    Seq<char>,
> {
    match member_from(members, name, 0) {
        Some(JsonView::Str(s)) => Some(s),
        _ => None,
    }
}

/// The integer of the first member named `name`, where it holds an integer
/// that fits in a signed 64-bit integer.
pub open spec fn integer_member(members: Seq<(Seq<char>, JsonView)>, name: Seq<char>) -> Option<
    i64,
> {
    match member_from(members, name, 0) {
        Some(JsonView::Number(n)) => n.to_i64(),
        _ => None,
    }
}

/// The text of an entry: that of its member `display`, else of its member
/// `text`.
pub open spec fn entry_text(members: Seq<(Seq<char>, JsonView)>) -> Option<Seq<char>> {
    match text_member(members, "display"@) {
        Some(s) => Some(s),
        None => text_member(members, "text"@),
    }
}

/// The session of an entry: the text of its member `session_id`, else of
/// its member `sessionId`.
pub open spec fn entry_session(members: Seq<(Seq<char>, JsonView)>) -> Option<Seq<char>> {
    match text_member(members, "session_id"@) {
        Some(s) => Some(s),
        None => text_member(members, "sessionId"@),
    }
}

/// The time of an entry as it was written: the integer of its member `ts`,
/// else of its member `timestamp`.
pub open spec fn entry_time(members: Seq<(Seq<char>, JsonView)>) -> Option<i64> {
    match integer_member(members, "ts"@) {
        Some(t) => Some(t),
        None => integer_member(members, "timestamp"@),
    }
}

/// The time in seconds: a time above 10,000,000,000 is taken as one in
/// milliseconds and divided by 1000; any other is taken as it is.
pub open spec fn canonical_seconds(raw: i64) -> int {
    if raw > 10_000_000_000 {
        raw / 1000
    } else {
        raw as int
    }
}

/// Whether the time, in milliseconds, fits in a signed 64-bit integer.
pub open spec fn time_in_range(raw: i64) -> bool {
    canonical_seconds(raw) * 1000 >= i64::MIN
}

/// The columns of the text of an entry: `display` and `text`.
pub open spec fn text_columns(text: Option<Seq<char>>) -> RecordView {
    match text {
        Some(t) => seq![("display"@, EngineView::Str(t)), ("text"@, EngineView::Str(t))],
        None => Seq::empty(),
    }
}

/// The column of the session of an entry: `session_id`.
pub open spec fn session_columns(session: Option<Seq<char>>) -> RecordView {
    match session {
        Some(s) => seq![("session_id"@, EngineView::Str(s))],
        None => Seq::empty(),
    }
}

/// The columns of the time of an entry: `ts`, in seconds, and `timestamp`,
/// in milliseconds. There are none where the time in milliseconds does not
/// fit in a signed 64-bit integer.
pub open spec fn time_columns(time: Option<i64>) -> RecordView {
    match time {
        Some(raw) => if time_in_range(raw) {
            seq![
                ("ts"@, EngineView::I64(canonical_seconds(raw) as i64)),
                ("timestamp"@, EngineView::I64((canonical_seconds(raw) * 1000) as i64)),
            ]
        } else {
            Seq::empty()
        },
        None => Seq::empty(),
    }
}

/// The columns that normalizing gives an entry.
pub open spec fn canonical_columns(members: Seq<(Seq<char>, JsonView)>) -> RecordView {
    text_columns(entry_text(members)) + session_columns(entry_session(members)) + time_columns(
        entry_time(members),
    )
}

/// The record of an entry of the second prompt history: the columns that
/// normalizing gives, then the other members of the entry as they are.
/// There is none where the entry is no object.
pub open spec fn normalized_record(json: JsonView) -> Option<RecordView> {
    match json {
        JsonView::Object(members) => Some(record_with_meta(json, canonical_columns(members))),
        _ => None,
    }
}

/// The records of the first `n` lines of the second prompt history.
pub open spec fn history_records_upto(lines: Seq<Seq<char>>, n: nat) -> Seq<RecordView>
    decreases n,
{
    if n == 0 || n > lines.len() {
        Seq::empty()
    } else {
        let before = history_records_upto(lines, (n - 1) as nat);
        match json_text_value(lines[n - 1]) {
            Some(json) => match normalized_record(json) {
                Some(record) => before.push(record),
                None => before,
            },
            None => before,
        }
    }
}

/// The records of the lines of the second prompt history.
pub open spec fn history_records(lines: Seq<Seq<char>>) -> Seq<RecordView> {
    history_records_upto(lines, lines.len())
}

fn find_text(members: &Vec<(String, JsonValue)>, name: &str) -> (r: Option<String>)
    ensures
        match r {
            Some(s) => text_member(json_members_view(members@), name@) == Some(s@),
            None => text_member(json_members_view(members@), name@) is None,
        },
{
    match find_member(members, name) {
        Some(JsonValue::Str(s)) => Some(s.clone()),
        _ => None,
    }
}

fn find_integer(members: &Vec<(String, JsonValue)>, name: &str) -> (r: Option<i64>)
    ensures
        r == integer_member(json_members_view(members@), name@),
{
    match find_member(members, name) {
        Some(JsonValue::Number(n)) => n.as_i64(),
        _ => None,
    }
}

/// The columns that normalizing gives an entry with the given members.
pub fn canonical_fields(members: &Vec<(String, JsonValue)>) -> (r: Vec<(String, EngineValue)>)
    ensures
        engine_fields_view(r@) == canonical_columns(json_members_view(members@)),
{
    let ghost views = json_members_view(members@);
    let mut fields: Vec<(String, EngineValue)> = Vec::new();
    let text = match find_text(members, "display") {
        Some(s) => Some(s),
        None => find_text(members, "text"),
    };
    match &text {
        Some(t) => {
            fields.push(text_column("display", t.as_str()));
            fields.push(text_column("text", t.as_str()));
        },
        None => {},
    }
    assert(engine_fields_view(fields@) =~= text_columns(entry_text(views)));
    let session = match find_text(members, "session_id") {
        Some(s) => Some(s),
        None => find_text(members, "sessionId"),
    };
    match &session {
        Some(s) => {
            fields.push(text_column("session_id", s.as_str()));
        },
        None => {},
    }
    assert(engine_fields_view(fields@) =~= text_columns(entry_text(views)) + session_columns(
        entry_session(views),
    ));
    let time = match find_integer(members, "ts") {
        Some(t) => Some(t),
        None => find_integer(members, "timestamp"),
    };
    match time {
        Some(raw) => {
            let seconds: i64 = if raw > 10_000_000_000 {
                raw / 1000
            } else {
                raw
            };
            assert(seconds == canonical_seconds(raw));
            if seconds >= i64::MIN / 1000 {
                let millis: i64 = seconds * 1000;
                fields.push((owned("ts"), EngineValue::I64(seconds)));
                fields.push((owned("timestamp"), EngineValue::I64(millis)));
            }
        },
        None => {},
    }
    assert(engine_fields_view(fields@) =~= canonical_columns(views));
    fields
}

/// The record of an entry of the second prompt history, or none where the
/// entry is no object.
pub fn normalize_history_entry(json: &JsonValue) -> (r: Option<Vec<(String, EngineValue)>>)
    ensures
        match r {
            Some(record) => normalized_record(json@) == Some(engine_fields_view(record@)),
            None => normalized_record(json@) is None,
        },
{
    match json {
        JsonValue::Object(members) => {
            proof {
                lemma_json_object_view(*members);
            }
            let columns = canonical_fields(members);
            Some(json_to_record(json, columns))
        },
        _ => None,
    }
}

/// The rows of the second prompt history: one for each line that is a JSON
/// object, normalized.
pub fn history_rows(lines: &Vec<String>) -> (rows: Vec<Row>)
    ensures
        rows_hold(rows@, history_records(texts_view(lines@))),
{
    let ghost texts = texts_view(lines@);
    let mut rows: Vec<Row> = Vec::new();
    let mut j: usize = 0;
    while j < lines.len()
        invariant
            j <= lines.len(),
            texts == texts_view(lines@),
            rows_hold(rows@, history_records_upto(texts, j as nat)),
        decreases lines.len() - j,
    {
        let ghost before = history_records_upto(texts, j as nat);
        match parse_json(lines[j].as_str()) {
            Some(json) => match normalize_history_entry(&json) {
                Some(record) => {
                    push_row(&mut rows, record, Ghost(before));
                },
                None => {},
            },
            None => {},
        }
        j += 1;
    }
    rows
}

/// The scan of the table of the second prompt history. A file that is not
/// there has no rows; one that cannot be read fails the scan.
pub fn scan_jhistory(listing: &Listing<String>) -> (r: Result<Vec<Row>, Error>)
    ensures
        match *listing {
            Listing::Missing => r is Ok && r->Ok_0@.len() == 0,
            Listing::Failed(cause) => r is Err && r->Err_0.kind() == ErrorKind::Io
                && r->Err_0.detail() == "Failed to read "@ + "jhistory file"@ + ": "@ + cause@,
            Listing::Entries(lines) => r is Ok && rows_hold(
                r->Ok_0@,
                history_records(texts_view(lines@)),
            ),
        },
{
    match listing {
        Listing::Missing => Ok(Vec::new()),
        Listing::Failed(cause) => Err(unreadable("jhistory file", cause.as_str())),
        Listing::Entries(lines) => Ok(history_rows(lines)),
    }
}

// ---------------------------------------------------------------------------
// Scanning again
// ---------------------------------------------------------------------------

/// Two scans that found the same records gave the same rows: as many, with
/// the same keys and the same records. So it is with two scans of the same
/// files in the same order.
pub proof fn lemma_scan_repeatable(first: Seq<Row>, second: Seq<Row>, records: Seq<RecordView>)
    requires
        rows_hold(first, records),
        rows_hold(second, records),
    ensures
        first.len() == second.len(),
        forall|i: int|
            0 <= i < first.len() ==> (#[trigger] first[i]).key == second[i].key
                && first[i].record_view() == second[i].record_view(),
{
}

/// In the record of an entry of a conversation log, the columns
/// `_source_file` and `_session_id` hold what the file's name tells,
/// whatever the entry holds under these names, and each stands there once.
pub proof fn lemma_transcript_meta_stands(
    json: JsonView,
    source_file: Seq<char>,
    session_id: Seq<char>,
)
    ensures
        ({
            let record = record_with_meta(json, transcript_meta_of(source_file, session_id));
            &&& record[0] == ("_source_file"@, EngineView::Str(source_file))
            &&& record[1] == ("_session_id"@, EngineView::Str(session_id))
            &&& forall|k: int|
                2 <= k < record.len() ==> (#[trigger] record[k]).0 != "_source_file"@
                    && record[k].0 != "_session_id"@
        }),
{
    reveal_strlit("_source_file");
    reveal_strlit("_session_id");
    let meta = transcript_meta_of(source_file, session_id);
    assert("_source_file"@[2] != "_session_id"@[2]);
    crate::record::lemma_meta_overrides(json, meta, 0);
    crate::record::lemma_meta_overrides(json, meta, 1);
}

/// In the record of a task, the columns `_source_file`, `_workspace_id` and
/// `_agent_id` hold what the file's name tells, whatever the task holds
/// under these names, and each stands there once.
pub proof fn lemma_todo_meta_stands(
    json: JsonView,
    source_file: Seq<char>,
    workspace_id: Seq<char>,
    agent_id: Seq<char>,
)
    ensures
        ({
            let record = record_with_meta(json, todo_meta_of(source_file, workspace_id, agent_id));
            &&& record[0] == ("_source_file"@, EngineView::Str(source_file))
            &&& record[1] == ("_workspace_id"@, EngineView::Str(workspace_id))
            &&& record[2] == ("_agent_id"@, EngineView::Str(agent_id))
            &&& forall|k: int|
                3 <= k < record.len() ==> (#[trigger] record[k]).0 != "_source_file"@
                    && record[k].0 != "_workspace_id"@ && record[k].0 != "_agent_id"@
        }),
{
    reveal_strlit("_source_file");
    reveal_strlit("_workspace_id");
    reveal_strlit("_agent_id");
    let meta = todo_meta_of(source_file, workspace_id, agent_id);
    assert("_source_file"@[1] != "_workspace_id"@[1]);
    assert("_source_file"@[1] != "_agent_id"@[1]);
    assert("_workspace_id"@[1] != "_agent_id"@[1]);
    crate::record::lemma_meta_overrides(json, meta, 0);
    crate::record::lemma_meta_overrides(json, meta, 1);
    crate::record::lemma_meta_overrides(json, meta, 2);
}

/// The records of one conversation log, as a function of the file.
pub open spec fn transcript_part() -> spec_fn(LineFile) -> Seq<RecordView> {
    |file: LineFile| transcript_file_records(file)
}

/// The records of one task list, as a function of the file.
pub open spec fn todo_part() -> spec_fn(TextFile) -> Seq<RecordView> {
    |file: TextFile| todo_file_records(file)
}

proof fn lemma_transcripts_merged(files: Seq<LineFile>, n: nat)
    requires
        n <= files.len(),
    ensures
        transcript_records_upto(files, n) == merged(files.take(n as int), transcript_part()),
    decreases n,
{
    if n > 0 {
        lemma_transcripts_merged(files, (n - 1) as nat);
        assert(files.take(n as int).drop_last() == files.take(n - 1));
    }
}

proof fn lemma_todos_merged(files: Seq<TextFile>, n: nat)
    requires
        n <= files.len(),
    ensures
        todo_records_upto(files, n) == merged(files.take(n as int), todo_part()),
    decreases n,
{
    if n > 0 {
        lemma_todos_merged(files, (n - 1) as nat);
        assert(files.take(n as int).drop_last() == files.take(n - 1));
    }
}

/// Two scans of the same conversation logs, listed in whatever order, find
/// the same records, each as often: what a record holds, the columns told
/// by its file's name among it, does not depend on the order of the files.
/// Only the keys do.
pub proof fn lemma_transcript_scan_order(a: Seq<LineFile>, b: Seq<LineFile>)
    requires
        a.to_multiset() == b.to_multiset(),
    ensures
        transcript_records(a).to_multiset() == transcript_records(b).to_multiset(),
{
    lemma_transcripts_merged(a, a.len());
    lemma_transcripts_merged(b, b.len());
    assert(a.take(a.len() as int) == a);
    assert(b.take(b.len() as int) == b);
    lemma_merged_permutation(a, b, transcript_part());
}

/// Two scans of the same task lists, listed in whatever order, find the
/// same records, each as often.
pub proof fn lemma_todo_scan_order(a: Seq<TextFile>, b: Seq<TextFile>)
    requires
        a.to_multiset() == b.to_multiset(),
    ensures
        todo_records(a).to_multiset() == todo_records(b).to_multiset(),
{
    lemma_todos_merged(a, a.len());
    lemma_todos_merged(b, b.len());
    assert(a.take(a.len() as int) == a);
    assert(b.take(b.len() as int) == b);
    lemma_merged_permutation(a, b, todo_part());
}

// ---------------------------------------------------------------------------
// Fetching by key
// ---------------------------------------------------------------------------

/// The record of the first row with the key `key`, if there is such a row.
pub fn fetch_row(rows: &Vec<Row>, key: i64) -> (r: Option<&Vec<(String, EngineValue)>>)
    ensures
        match r {
            Some(record) => exists|i: int|
                0 <= i < rows@.len() && (#[trigger] rows@[i]).key == key && *record
                    == rows@[i].record && forall|j: int|
                    0 <= j < i ==> (#[trigger] rows@[j]).key != key,
            None => forall|i: int| 0 <= i < rows@.len() ==> (#[trigger] rows@[i]).key != key,
        },
{
    if key < 0 {
        return None;
    }
    let wanted = key as u64;
    let mut i: usize = 0;
    while i < rows.len()
        invariant
            i <= rows.len(),
            wanted == key,
            forall|j: int| 0 <= j < i ==> (#[trigger] rows@[j]).key != key,
        decreases rows.len() - i,
    {
        if rows[i].key as u64 == wanted {
            return Some(&rows[i].record);
        }
        i += 1;
    }
    None
}

} // verus!
