//! The records that the data files hold: tasks, usage statistics, prompts
//! and clusters of prompts.

use vstd::prelude::*;
use vstd::utf8::{encode_utf8, is_char_boundary};
use crate::text::{
    append_chars, concat, join_with,
    chars_of, contains, contains_text, find, first_occurrence, occurs_at, owned, slice_chars,
    str_equal, string_of, trim_end_matches, trim_suffix_all,
};
use crate::value::{
    find_member, json_items_view, json_members_view, lemma_json_array_view,
    lemma_json_object_view, member_from, JsonValue, JsonView,
};

verus! {

// ---------------------------------------------------------------------------
// Tasks
// ---------------------------------------------------------------------------

/// The state of a task.
#[derive(Clone, Copy, Debug, PartialEq, Eq, Structural)]
pub enum TodoStatus {
    Pending,
    InProgress,
    Completed,
}

impl TodoStatus {
    /// The word for the state.
    pub open spec fn text_of(self) -> Seq<char> {
        match self {
            TodoStatus::Pending => "pending"@,
            TodoStatus::InProgress => "in_progress"@,
            TodoStatus::Completed => "completed"@,
        }
    }

    /// The word for the state.
    pub fn as_text(&self) -> (r: String)
        ensures
            r@ == self.text_of(),
    {
        match self {
            TodoStatus::Pending => owned("pending"),
            TodoStatus::InProgress => owned("in_progress"),
            TodoStatus::Completed => owned("completed"),
        }
    }

    /// The state for a word: the first of `pending`, `in_progress` and
    /// `completed` that the word is, or none.
    pub fn from_text(word: &str) -> (r: Option<TodoStatus>)
        ensures
            r == if word@ == "pending"@ {
                Some(TodoStatus::Pending)
            } else if word@ == "in_progress"@ {
                Some(TodoStatus::InProgress)
            } else if word@ == "completed"@ {
                Some(TodoStatus::Completed)
            } else {
                None
            },
    {
        if str_equal(word, "pending") {
            Some(TodoStatus::Pending)
        } else if str_equal(word, "in_progress") {
            Some(TodoStatus::InProgress)
        } else if str_equal(word, "completed") {
            Some(TodoStatus::Completed)
        } else {
            None
        }
    }
}

/// A task.
#[derive(Clone, Debug, PartialEq, Eq)]
pub struct TodoEntry {
    pub content: String,
    pub status: TodoStatus,
    pub active_form: String,
}

/// The tasks of one file, with the workspace and the agent that the file's
/// name tells.
#[derive(Clone, Debug, PartialEq, Eq)]
pub struct TodoFile {
    pub workspace_id: String,
    pub agent_id: String,
    pub todos: Vec<TodoEntry>,
}

/// The workspace and the agent in the name of a file of tasks: the name
/// without every `.json` at its end is split at `-agent-`, and the two are
/// told only where that gives exactly two parts.
pub open spec fn todo_file_ids(filename: Seq<char>) -> Option<(Seq<char>, Seq<char>)> {
    let stem = trim_suffix_all(filename, ".json"@);
    match first_occurrence(stem, "-agent-"@) {
        Some(at) => {
            let rest = stem.skip(at + "-agent-"@.len());
            if contains_text(rest, "-agent-"@) {
                None
            } else {
                Some((stem.take(at), rest))
            }
        },
        None => None,
    }
}

impl TodoFile {
    /// The tasks `todos` as those of the file named `filename`, where the
    /// name tells a workspace and an agent.
    pub fn from_filename(filename: &str, todos: Vec<TodoEntry>) -> (r: Option<TodoFile>)
        ensures
            match r {
                Some(file) => todo_file_ids(filename@) == Some((file.workspace_id@, file.agent_id@))
                    && file.todos == todos,
                None => todo_file_ids(filename@) is None,
            },
    {
        let chars = chars_of(filename);
        let stem = trim_end_matches(&chars, &chars_of(".json"));
        let marker = chars_of("-agent-");
        match find(&stem, &marker) {
            Some(at) => {
                assert(occurs_at(stem@, marker@, at as int));
                let width = marker.len();
                assert(at + width <= stem.len());
                let rest = slice_chars(&stem, at + width, stem.len());
                assert(stem@.subrange(at + width, stem.len() as int) == stem@.skip(
                    at + "-agent-"@.len(),
                ));
                if contains(&rest, &marker) {
                    None
                } else {
                    let workspace = slice_chars(&stem, 0, at);
                    assert(stem@.subrange(0, at as int) == stem@.take(at as int));
                    Some(
                        TodoFile {
                            workspace_id: string_of(&workspace),
                            agent_id: string_of(&rest),
                            todos,
                        },
                    )
                }
            },
            None => None,
        }
    }
}

// ---------------------------------------------------------------------------
// Usage statistics
// ---------------------------------------------------------------------------

/// The activity of one day.
#[derive(Clone, Debug, PartialEq, Eq)]
pub struct DailyActivity {
    pub date: String,
    pub message_count: u64,
    pub session_count: u64,
    pub tool_call_count: u64,
}

/// The tokens of one day, by model.
#[derive(Clone, Debug, PartialEq, Eq)]
pub struct DailyModelTokens {
    pub date: String,
    pub tokens_by_model: Vec<(String, u64)>,
}

/// The usage of one model. The cost is a binary64 number, held as its bit
/// pattern.
#[derive(Clone, Debug, PartialEq, Eq)]
pub struct ModelUsageData {
    pub input_tokens: u64,
    pub output_tokens: u64,
    pub cache_read_input_tokens: u64,
    pub cache_creation_input_tokens: u64,
    pub web_search_requests: u64,
    pub cost_usd: u64,
    pub context_window: u64,
}

/// The longest session.
#[derive(Clone, Debug, PartialEq, Eq)]
pub struct LongestSession {
    pub session_id: String,
    pub duration: u64,
    pub message_count: u64,
    pub timestamp: String,
}

/// The usage statistics.
#[derive(Clone, Debug, PartialEq, Eq)]
pub struct StatsCache {
    pub version: u32,
    pub last_computed_date: String,
    pub daily_activity: Vec<DailyActivity>,
    pub daily_model_tokens: Vec<DailyModelTokens>,
    pub hour_counts: Vec<(String, u64)>,
    pub model_usage: Vec<(String, ModelUsageData)>,
    pub total_messages: u64,
    pub total_sessions: u64,
    pub first_session_date: String,
    pub longest_session: Option<LongestSession>,
}

/// The input and output tokens of the first `n` models, added up.
pub open spec fn tokens_upto(usage: Seq<(String, ModelUsageData)>, n: nat) -> nat
    decreases n,
{
    if n == 0 || n > usage.len() {
        0
    } else {
        (tokens_upto(usage, (n - 1) as nat) + usage[n - 1].1.input_tokens + usage[n
            - 1].1.output_tokens) as nat
    }
}

proof fn lemma_tokens_monotonic(usage: Seq<(String, ModelUsageData)>, i: nat, j: nat)
    requires
        i <= j <= usage.len(),
    ensures
        tokens_upto(usage, i) <= tokens_upto(usage, j),
    decreases j,
{
    if i < j {
        lemma_tokens_monotonic(usage, i, (j - 1) as nat);
    }
}

impl StatsCache {
    /// The input and output tokens of all models, added up.
    pub open spec fn total_tokens_of(&self) -> nat {
        tokens_upto(self.model_usage@, self.model_usage@.len())
    }

    /// The input and output tokens of all models, added up. The sum fits
    /// in 64 bits.
    pub fn total_tokens(&self) -> (total: u64)
        requires
            self.total_tokens_of() <= u64::MAX,
        ensures
            total == self.total_tokens_of(),
    {
        let mut total: u64 = 0;
        let mut i: usize = 0;
        while i < self.model_usage.len()
            invariant
                i <= self.model_usage.len(),
                total == tokens_upto(self.model_usage@, i as nat),
                self.total_tokens_of() <= u64::MAX,
            decreases self.model_usage.len() - i,
        {
            proof {
                lemma_tokens_monotonic(
                    self.model_usage@,
                    (i + 1) as nat,
                    self.model_usage@.len(),
                );
            }
            total = total + self.model_usage[i].1.input_tokens + self.model_usage[i].1.output_tokens;
            i += 1;
        }
        total
    }

    /// The activity of the first day with the date `date`.
    pub fn activity_by_date(&self, date: &str) -> (r: Option<&DailyActivity>)
        ensures
            match r {
                Some(activity) => exists|i: int|
                    0 <= i < self.daily_activity@.len() && *activity
                        == #[trigger] self.daily_activity@[i] && activity.date@ == date@
                        && forall|j: int|
                        0 <= j < i ==> (#[trigger] self.daily_activity@[j]).date@ != date@,
                None => forall|i: int|
                    0 <= i < self.daily_activity@.len() ==> (
                    #[trigger] self.daily_activity@[i]).date@ != date@,
            },
    {
        let mut i: usize = 0;
        while i < self.daily_activity.len()
            invariant
                i <= self.daily_activity.len(),
                forall|j: int| 0 <= j < i ==> (#[trigger] self.daily_activity@[j]).date@ != date@,
            decreases self.daily_activity.len() - i,
        {
            if str_equal(self.daily_activity[i].date.as_str(), date) {
                return Some(&self.daily_activity[i]);
            }
            i += 1;
        }
        None
    }
}

// ---------------------------------------------------------------------------
// Prompts
// ---------------------------------------------------------------------------

/// An entry of the prompt history.
#[derive(Debug, PartialEq, Eq)]
pub struct HistoryEntry {
    pub display: String,
    pub timestamp: i64,
    pub project: Option<String>,
    pub session_id: Option<String>,
    pub pasted_contents: Vec<(String, JsonValue)>,
}

/// Whether the text is that of a command: it begins with `/`.
pub open spec fn command_text(display: Seq<char>) -> bool {
    display.len() > 0 && display[0] == '/'
}

/// What stands after the last `/` of the path, or the whole path where it
/// holds none.
pub open spec fn last_component(path: Seq<char>) -> Seq<char>
    decreases path.len(),
{
    if path.len() == 0 {
        path
    } else if path.last() == '/' {
        Seq::empty()
    } else {
        last_component(path.drop_last()).push(path.last())
    }
}

impl HistoryEntry {
    /// Whether the entry is a prompt: its text is not empty and no command.
    pub fn is_user_prompt(&self) -> (r: bool)
        ensures
            r == (self.display@.len() > 0 && !command_text(self.display@)),
    {
        let chars = chars_of(self.display.as_str());
        chars.len() > 0 && chars[0] != '/'
    }

    /// Whether the entry is a command.
    pub fn is_command(&self) -> (r: bool)
        ensures
            r == command_text(self.display@),
    {
        let chars = chars_of(self.display.as_str());
        chars.len() > 0 && chars[0] == '/'
    }

    /// The name of the entry's project: what stands after the last `/` of
    /// its path.
    pub fn project_name(&self) -> (r: Option<String>)
        ensures
            match r {
                Some(name) => self.project is Some && name@ == last_component(self.project->0@),
                None => self.project is None,
            },
    {
        match &self.project {
            Some(path) => {
                let chars = chars_of(path.as_str());
                let mut start: usize = chars.len();
                assert(chars@.subrange(start as int, chars.len() as int) =~= Seq::<char>::empty());
                assert(chars@.take(start as int) == chars@);
                assert(last_component(chars@) + Seq::<char>::empty() == last_component(chars@));
                while start > 0 && chars[start - 1] != '/'
                    invariant
                        start <= chars.len(),
                        last_component(chars@) == last_component(chars@.take(start as int))
                            + chars@.subrange(start as int, chars.len() as int),
                    decreases start,
                {
                    proof {
                        let t = chars@.take(start as int);
                        assert(t.drop_last() == chars@.take(start - 1));
                        assert(last_component(t) == last_component(chars@.take(start - 1)).push(
                            chars@[start - 1],
                        ));
                        assert(last_component(chars@.take(start - 1)).push(chars@[start - 1])
                            + chars@.subrange(start as int, chars.len() as int)
                            =~= last_component(chars@.take(start - 1)) + chars@.subrange(
                            start - 1,
                            chars.len() as int,
                        ));
                    }
                    start -= 1;
                }
                proof {
                    let t = chars@.take(start as int);
                    assert(last_component(t) == Seq::<char>::empty());
                    assert(Seq::<char>::empty() + chars@.subrange(start as int, chars.len() as int)
                        =~= chars@.subrange(start as int, chars.len() as int));
                }
                let name = slice_chars(&chars, start, chars.len());
                Some(string_of(&name))
            },
            None => None,
        }
    }
}

/// Prompts that are alike: the one that stands for them, all of them, how
/// often they were made, and when last.
#[derive(Clone, Debug, PartialEq, Eq)]
pub struct PromptCluster {
    pub canonical: String,
    pub variants: Vec<String>,
    pub count: usize,
    pub latest_timestamp: i64,
}

// ---------------------------------------------------------------------------
// Entries of conversation logs
// ---------------------------------------------------------------------------

/// What a user wrote.
#[derive(Debug, PartialEq, Eq)]
pub struct UserMessageContent {
    pub role: String,
    pub content: JsonValue,
}

/// A message of a user.
#[derive(Debug, PartialEq, Eq)]
pub struct UserMessage {
    pub message_type: String,
    pub message: UserMessageContent,
    pub metadata: Vec<(String, JsonValue)>,
}

/// What the assistant wrote.
#[derive(Debug, PartialEq, Eq)]
pub struct AssistantMessageContent {
    pub role: String,
    pub content: JsonValue,
    pub model: Option<String>,
}

/// A message of the assistant.
#[derive(Debug, PartialEq, Eq)]
pub struct AssistantMessage {
    pub message_type: String,
    pub message: AssistantMessageContent,
    pub metadata: Vec<(String, JsonValue)>,
}

/// The call of a tool.
#[derive(Debug, PartialEq, Eq)]
pub struct ToolCallMessage {
    pub message_type: String,
    pub tool_name: String,
    pub tool_input: JsonValue,
    pub metadata: Vec<(String, JsonValue)>,
}

/// The result of a tool.
#[derive(Debug, PartialEq, Eq)]
pub struct ToolResultMessage {
    pub message_type: String,
    pub tool_name: String,
    pub result: JsonValue,
    pub metadata: Vec<(String, JsonValue)>,
}

/// Any other entry.
#[derive(Debug, PartialEq, Eq)]
pub struct GenericMessage {
    pub message_type: Option<String>,
    pub data: Vec<(String, JsonValue)>,
}

/// An entry of a conversation log.
#[derive(Debug, PartialEq, Eq)]
pub enum TranscriptEntry {
    User(UserMessage),
    Assistant(AssistantMessage),
    ToolCall(ToolCallMessage),
    ToolResult(ToolResultMessage),
    Generic(GenericMessage),
}

/// The text of a part of a message: that of its member `text`, where the
/// part is an object whose member `type` is the text `text`.
pub open spec fn part_text(part: JsonView) -> Option<Seq<char>> {
    match part {
        JsonView::Object(members) => match member_from(members, "type"@, 0) {
            Some(JsonView::Str(kind)) => if kind == "text"@ {
                match member_from(members, "text"@, 0) {
                    Some(JsonView::Str(t)) => Some(t),
                    _ => None,
                }
            } else {
                None
            },
            _ => None,
        },
        _ => None,
    }
}

/// The texts of the first `n` parts that have one, in order.
pub open spec fn part_texts_upto(parts: Seq<JsonView>, n: nat) -> Seq<Seq<char>>
    decreases n,
{
    if n == 0 || n > parts.len() {
        Seq::empty()
    } else {
        let before = part_texts_upto(parts, (n - 1) as nat);
        match part_text(parts[n - 1]) {
            Some(t) => before.push(t),
            None => before,
        }
    }
}

/// The text of the content of a message: the content itself where it is a
/// text; the texts of its parts, with a space between them, where it is an
/// array; else nothing.
pub open spec fn text_content(content: JsonView) -> Seq<char> {
    match content {
        JsonView::Str(s) => s,
        JsonView::Array(parts) => join_with(part_texts_upto(parts, parts.len()), seq![' ']),
        _ => Seq::empty(),
    }
}

fn text_of_part(part: &JsonValue) -> (r: Option<String>)
    ensures
        crate::text::text_option(r) == part_text(part@),
{
    match part {
        JsonValue::Object(members) => {
            proof {
                lemma_json_object_view(*members);
            }
            match find_member(members, "type") {
                Some(JsonValue::Str(kind)) => {
                    if str_equal(kind.as_str(), "text") {
                        match find_member(members, "text") {
                            Some(JsonValue::Str(t)) => Some(t.clone()),
                            _ => None,
                        }
                    } else {
                        None
                    }
                },
                _ => None,
            }
        },
        _ => None,
    }
}

/// The text of the content of a message.
pub fn extract_text_content(content: &JsonValue) -> (r: String)
    ensures
        r@ == text_content(content@),
{
    match content {
        JsonValue::Str(s) => s.clone(),
        JsonValue::Array(parts) => {
            proof {
                lemma_json_array_view(*parts);
            }
            let ghost views = json_items_view(parts@);
            let mut out: Vec<char> = Vec::new();
            let ghost mut texts: Seq<Seq<char>> = Seq::empty();
            let mut any = false;
            let mut i: usize = 0;
            while i < parts.len()
                invariant
                    i <= parts.len(),
                    views == json_items_view(parts@),
                    texts == part_texts_upto(views, i as nat),
                    any == (texts.len() > 0),
                    out@ == join_with(texts, seq![' ']),
                decreases parts.len() - i,
            {
                match text_of_part(&parts[i]) {
                    Some(t) => {
                        if any {
                            out.push(' ');
                        }
                        append_chars(&mut out, &chars_of(t.as_str()));
                        proof {
                            let longer = texts.push(t@);
                            assert(longer.drop_last() == texts);
                            assert(longer.last() == t@);
                            assert(out@ =~= join_with(longer, seq![' ']));
                            texts = longer;
                        }
                        any = true;
                    },
                    None => {},
                }
                i += 1;
            }
            string_of(&out)
        },
        _ => String::new(),
    }
}

/// The number of bytes that the text takes, as `str::len` counts them.
pub open spec fn byte_len(text: Seq<char>) -> usize {
    encode_utf8(text).len() as usize
}

impl TranscriptEntry {
    /// The type of the entry: the one it names, or `unknown` where it names
    /// none.
    pub open spec fn type_text(&self) -> Seq<char> {
        match self {
            TranscriptEntry::User(m) => m.message_type@,
            TranscriptEntry::Assistant(m) => m.message_type@,
            TranscriptEntry::ToolCall(m) => m.message_type@,
            TranscriptEntry::ToolResult(m) => m.message_type@,
            TranscriptEntry::Generic(m) => match m.message_type {
                Some(t) => t@,
                None => "unknown"@,
            },
        }
    }

    /// What the entry says, in full: the text of a message; the name of a
    /// tool and `()` for its call, or ` result` for its result; for any
    /// other entry the text of its member `content`, or nothing.
    pub open spec fn content_text(&self) -> Seq<char> {
        match self {
            TranscriptEntry::User(m) => text_content(m.message.content@),
            TranscriptEntry::Assistant(m) => text_content(m.message.content@),
            TranscriptEntry::ToolCall(m) => m.tool_name@ + "()"@,
            TranscriptEntry::ToolResult(m) => m.tool_name@ + " result"@,
            TranscriptEntry::Generic(m) => match member_from(
                json_members_view(m.data@),
                "content"@,
                0,
            ) {
                Some(JsonView::Str(s)) => s,
                _ => Seq::empty(),
            },
        }
    }

    /// The type of the entry.
    pub fn message_type(&self) -> (r: String)
        ensures
            r@ == self.type_text(),
    {
        match self {
            TranscriptEntry::User(m) => m.message_type.clone(),
            TranscriptEntry::Assistant(m) => m.message_type.clone(),
            TranscriptEntry::ToolCall(m) => m.message_type.clone(),
            TranscriptEntry::ToolResult(m) => m.message_type.clone(),
            TranscriptEntry::Generic(m) => match &m.message_type {
                Some(t) => t.clone(),
                None => owned("unknown"),
            },
        }
    }

    /// Whether the entry is a message of a user, or names `user` as its
    /// type.
    pub fn is_user(&self) -> (r: bool)
        ensures
            r == match self {
                TranscriptEntry::User(_) => true,
                TranscriptEntry::Generic(m) => m.message_type is Some && m.message_type->0@
                    == "user"@,
                _ => false,
            },
    {
        match self {
            TranscriptEntry::User(_) => true,
            TranscriptEntry::Generic(m) => match &m.message_type {
                Some(t) => str_equal(t.as_str(), "user"),
                None => false,
            },
            _ => false,
        }
    }

    /// What the entry says, in full.
    pub fn content(&self) -> (r: String)
        ensures
            r@ == self.content_text(),
    {
        match self {
            TranscriptEntry::User(m) => extract_text_content(&m.message.content),
            TranscriptEntry::Assistant(m) => extract_text_content(&m.message.content),
            TranscriptEntry::ToolCall(m) => concat(m.tool_name.as_str(), "()"),
            TranscriptEntry::ToolResult(m) => concat(m.tool_name.as_str(), " result"),
            TranscriptEntry::Generic(m) => match find_member(&m.data, "content") {
                Some(JsonValue::Str(s)) => s.clone(),
                _ => String::new(),
            },
        }
    }

    /// What the entry says, cut after `max_len` bytes, with `...` after the
    /// cut. Where it is cut, no character lies across the cut.
    pub fn content_preview(&self, max_len: usize) -> (r: String)
        requires
            byte_len(self.content_text()) > max_len ==> is_char_boundary(
                encode_utf8(self.content_text()),
                max_len as int,
            ),
        ensures
            byte_len(self.content_text()) <= max_len ==> r@ == self.content_text(),
            byte_len(self.content_text()) > max_len ==> exists|head: Seq<char>|
                encode_utf8(head) == encode_utf8(self.content_text()).subrange(
                    0,
                    max_len as int,
                ) && r@ == head + "..."@,
    {
        let content = self.content();
        let text = content.as_str();
        if text.len() > max_len {
            let (head, _) = text.split_at(max_len);
            let r = concat(head, "...");
            assert(encode_utf8(head@) == encode_utf8(self.content_text()).subrange(
                0,
                max_len as int,
            ));
            r
        } else {
            content
        }
    }
}

} // verus!
