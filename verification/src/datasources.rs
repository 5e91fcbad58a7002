//! The sources of the data: for each kind of data the place from which it
//! is read, and the selections that are made of what was read.

use vstd::prelude::*;
use crate::config::{child_path, join_path, Config};
use crate::dates::{day_end_millis, day_millis, day_start_millis};
use crate::models::{command_text, HistoryEntry, TodoEntry, TodoFile, TodoStatus};
use crate::order::{ordered, rank_values, sort_by_rank};
use crate::text::{chars_of, concat, contains, contains_text};

verus! {

/// The source of the second prompt history.
#[derive(Debug)]
pub struct CodexHistoryDataSource {
    config: Config,
}

impl CodexHistoryDataSource {
    /// The data directory of this source.
    pub closed spec fn data_dir(&self) -> Seq<char> {
        self.config.data_dir@
    }

    /// The source under the data directory of `config`.
    pub fn new(config: Config) -> (source: CodexHistoryDataSource)
        ensures
            source.data_dir() == config.data_dir@,
    {
        CodexHistoryDataSource { config }
    }

    /// The file that this source reads.
    pub fn source_file(&self) -> (path: String)
        ensures
            path@ == child_path(self.data_dir(), "jhistory.jsonl"@),
    {
        self.config.jhistory_file()
    }
}

/// The source of the usage statistics.
#[derive(Debug)]
pub struct StatsDataSource {
    config: Config,
}

impl StatsDataSource {
    /// The data directory of this source.
    pub closed spec fn data_dir(&self) -> Seq<char> {
        self.config.data_dir@
    }

    /// The source under the data directory of `config`.
    pub fn new(config: Config) -> (source: StatsDataSource)
        ensures
            source.data_dir() == config.data_dir@,
    {
        StatsDataSource { config }
    }

    /// The file that this source reads.
    pub fn source_file(&self) -> (path: String)
        ensures
            path@ == child_path(self.data_dir(), "stats-cache.json"@),
    {
        self.config.stats_file()
    }
}

/// The source of the task lists.
#[derive(Debug)]
pub struct TodoDataSource {
    config: Config,
}

impl TodoDataSource {
    /// The data directory of this source.
    pub closed spec fn data_dir(&self) -> Seq<char> {
        self.config.data_dir@
    }

    /// The source under the data directory of `config`.
    pub fn new(config: Config) -> (source: TodoDataSource)
        ensures
            source.data_dir() == config.data_dir@,
    {
        TodoDataSource { config }
    }

    /// The directory that this source reads.
    pub fn source_dir(&self) -> (path: String)
        ensures
            path@ == child_path(self.data_dir(), "todos"@),
    {
        self.config.todos_dir()
    }
}

/// The source of the conversation logs.
#[derive(Debug)]
pub struct TranscriptDataSource {
    config: Config,
}

impl TranscriptDataSource {
    /// The data directory of this source.
    pub closed spec fn data_dir(&self) -> Seq<char> {
        self.config.data_dir@
    }

    /// The source under the data directory of `config`.
    pub fn new(config: Config) -> (source: TranscriptDataSource)
        ensures
            source.data_dir() == config.data_dir@,
    {
        TranscriptDataSource { config }
    }

    /// The directory that this source reads.
    pub fn source_dir(&self) -> (path: String)
        ensures
            path@ == child_path(self.data_dir(), "transcripts"@),
    {
        self.config.transcripts_dir()
    }

    /// The file of the session `session_id`.
    pub fn session_file(&self, session_id: &str) -> (path: String)
        ensures
            path@ == child_path(
                child_path(self.data_dir(), "transcripts"@),
                session_id@ + ".jsonl"@,
            ),
    {
        let dir = self.config.transcripts_dir();
        let name = concat(session_id, ".jsonl");
        join_path(dir.as_str(), name.as_str())
    }
}

/// A session: its name, its file, the size of the file and when the file
/// was last changed, in seconds since the epoch, where that is known.
#[derive(Clone, Debug, PartialEq, Eq)]
pub struct SessionInfo {
    pub session_id: String,
    pub path: String,
    pub size_bytes: u64,
    pub modified: Option<u64>,
}

/// The order in which sessions are listed.
#[derive(Clone, Copy, Debug, PartialEq, Eq, Structural)]
pub enum SessionOrder {
    /// The session changed last comes first; one whose time is not known
    /// comes after all others.
    Time,
    /// The largest session comes first.
    Size,
}

/// What a session is ordered by: the larger comes first.
pub open spec fn session_rank(session: SessionInfo, order: SessionOrder) -> int {
    match order {
        SessionOrder::Time => match session.modified {
            Some(t) => t as int,
            None => -1,
        },
        SessionOrder::Size => session.size_bytes as int,
    }
}

/// The ranks of the sessions, each at the place of its session.
pub open spec fn session_ranks(sessions: Seq<SessionInfo>, order: SessionOrder) -> Seq<int> {
    Seq::new(sessions.len(), |i: int| session_rank(sessions[i], order))
}

/// The sessions in order: the higher rank first, and of two with the same
/// rank the one that was first before.
pub fn sort_sessions(sessions: Vec<SessionInfo>, order: SessionOrder) -> (r: Vec<SessionInfo>)
    ensures
        r@ == ordered(sessions@, session_ranks(sessions@, order)),
{
    let mut ranks: Vec<i128> = Vec::new();
    let mut i: usize = 0;
    while i < sessions.len()
        invariant
            i <= sessions.len(),
            ranks@.len() == i,
            forall|k: int| 0 <= k < i ==> #[trigger] ranks@[k] == session_rank(sessions@[k], order),
        decreases sessions.len() - i,
    {
        let rank: i128 = match order {
            SessionOrder::Time => match sessions[i].modified {
                Some(t) => t as i128,
                None => -1,
            },
            SessionOrder::Size => sessions[i].size_bytes as i128,
        };
        ranks.push(rank);
        i += 1;
    }
    assert(rank_values(ranks@) =~= session_ranks(sessions@, order));
    sort_by_rank(sessions, &ranks)
}

/// A selection of entries of the prompt history.
#[derive(Clone, Debug, PartialEq, Eq)]
pub enum HistoryFilter {
    /// The prompts: the entries with a text that is no command.
    Prompts,
    /// The entries whose project holds the text.
    Project(String),
    /// The entries whose session holds the text.
    Session(String),
    /// The entries from the first time on, where one is given, and up to
    /// the second, where one is given.
    DateRange(Option<i64>, Option<i64>),
}

impl HistoryFilter {
    /// Whether the entry is selected.
    pub open spec fn selects(&self, entry: HistoryEntry) -> bool {
        match self {
            HistoryFilter::Prompts => entry.display@.len() > 0 && !command_text(entry.display@),
            HistoryFilter::Project(project) => match entry.project {
                Some(p) => contains_text(p@, project@),
                None => false,
            },
            HistoryFilter::Session(session) => match entry.session_id {
                Some(s) => contains_text(s@, session@),
                None => false,
            },
            HistoryFilter::DateRange(since, until) => (match *since {
                Some(s) => entry.timestamp >= s,
                None => true,
            }) && (match *until {
                Some(u) => entry.timestamp <= u,
                None => true,
            }),
        }
    }

    /// Whether the entry is selected.
    pub fn matches(&self, entry: &HistoryEntry) -> (r: bool)
        ensures
            r == self.selects(*entry),
    {
        match self {
            HistoryFilter::Prompts => entry.is_user_prompt(),
            HistoryFilter::Project(project) => match &entry.project {
                Some(p) => contains(&chars_of(p.as_str()), &chars_of(project.as_str())),
                None => false,
            },
            HistoryFilter::Session(session) => match &entry.session_id {
                Some(s) => contains(&chars_of(s.as_str()), &chars_of(session.as_str())),
                None => false,
            },
            HistoryFilter::DateRange(since, until) => {
                let after = match since {
                    Some(s) => entry.timestamp >= *s,
                    None => true,
                };
                let before = match until {
                    Some(u) => entry.timestamp <= *u,
                    None => true,
                };
                after && before
            },
        }
    }
}

/// Those of the first `n` entries that the filter selects, in order.
pub open spec fn selected_upto(entries: Seq<HistoryEntry>, filter: HistoryFilter, n: nat) -> Seq<
    HistoryEntry,
>
    decreases n,
{
    if n == 0 || n > entries.len() {
        Seq::empty()
    } else {
        let before = selected_upto(entries, filter, (n - 1) as nat);
        if filter.selects(entries[n - 1]) {
            before.push(entries[n - 1])
        } else {
            before
        }
    }
}

/// Those of the entries that the filter selects, in order.
pub open spec fn selected(entries: Seq<HistoryEntry>, filter: HistoryFilter) -> Seq<HistoryEntry> {
    selected_upto(entries, filter, entries.len())
}

/// Those of the entries that the filter selects, in order.
pub fn filter_entries(entries: Vec<HistoryEntry>, filter: &HistoryFilter) -> (r: Vec<HistoryEntry>)
    ensures
        r@ == selected(entries@, *filter),
{
    let ghost all = entries@;
    let mut kept: Vec<HistoryEntry> = Vec::new();
    for entry in it: entries
        invariant
            it.seq() == all,
            kept@ == selected_upto(all, *filter, it.index() as nat),
    {
        if filter.matches(&entry) {
            kept.push(entry);
        }
    }
    kept
}

/// The entries that an optional filter selects: all of them where there is
/// no filter.
pub open spec fn selected_if(entries: Seq<HistoryEntry>, filter: Option<HistoryFilter>) -> Seq<
    HistoryEntry,
> {
    match filter {
        Some(f) => selected(entries, f),
        None => entries,
    }
}

/// The filter for the entries from a day on: there is one where a day is
/// given and the text names a day.
pub open spec fn since_filter(since: Option<Seq<char>>) -> Option<HistoryFilter> {
    match since {
        Some(day) => match day_millis(day, 0, 0, 0) {
            Some(ms) => Some(HistoryFilter::DateRange(Some(ms), None)),
            None => None,
        },
        None => None,
    }
}

/// The filter for the entries up to a day: there is one where a day is
/// given and the text names a day.
pub open spec fn until_filter(until: Option<Seq<char>>) -> Option<HistoryFilter> {
    match until {
        Some(day) => match day_millis(day, 23, 59, 59) {
            Some(ms) => Some(HistoryFilter::DateRange(None, Some(ms))),
            None => None,
        },
        None => None,
    }
}

/// The prompts among the entries, of the project, of the session, from the
/// day `since` on and up to the day `until`, each where it is given. A day
/// that is not written as year, month and day is passed over.
pub fn select_prompts(
    entries: Vec<HistoryEntry>,
    project: Option<String>,
    session: Option<String>,
    since: Option<&str>,
    until: Option<&str>,
) -> (r: Vec<HistoryEntry>)
    ensures
        r@ == selected_if(
            selected_if(
                selected_if(
                    selected_if(
                        selected(entries@, HistoryFilter::Prompts),
                        match project {
                            Some(p) => Some(HistoryFilter::Project(p)),
                            None => None,
                        },
                    ),
                    match session {
                        Some(s) => Some(HistoryFilter::Session(s)),
                        None => None,
                    },
                ),
                since_filter(
                    match since {
                        Some(d) => Some(d@),
                        None => None,
                    },
                ),
            ),
            until_filter(
                match until {
                    Some(d) => Some(d@),
                    None => None,
                },
            ),
        ),
{
    let mut kept = filter_entries(entries, &HistoryFilter::Prompts);
    match project {
        Some(p) => {
            kept = filter_entries(kept, &HistoryFilter::Project(p));
        },
        None => {},
    }
    match session {
        Some(s) => {
            kept = filter_entries(kept, &HistoryFilter::Session(s));
        },
        None => {},
    }
    match since {
        Some(day) => match day_start_millis(day) {
            Some(ms) => {
                kept = filter_entries(kept, &HistoryFilter::DateRange(Some(ms), None));
            },
            None => {},
        },
        None => {},
    }
    match until {
        Some(day) => match day_end_millis(day) {
            Some(ms) => {
                kept = filter_entries(kept, &HistoryFilter::DateRange(None, Some(ms)));
            },
            None => {},
        },
        None => {},
    }
    kept
}

/// The source of the prompt history.
#[derive(Debug)]
pub struct HistoryDataSource {
    config: Config,
}

impl HistoryDataSource {
    /// The data directory of this source.
    pub closed spec fn data_dir(&self) -> Seq<char> {
        self.config.data_dir@
    }

    /// The source under the data directory of `config`.
    pub fn new(config: Config) -> (source: HistoryDataSource)
        ensures
            source.data_dir() == config.data_dir@,
    {
        HistoryDataSource { config }
    }

    /// The file that this source reads.
    pub fn source_file(&self) -> (path: String)
        ensures
            path@ == child_path(self.data_dir(), "history.jsonl"@),
    {
        self.config.history_file()
    }

    /// The prompts among the entries read.
    pub fn filter_prompts(&self, entries: Vec<HistoryEntry>) -> (r: Vec<HistoryEntry>)
        ensures
            r@ == selected(entries@, HistoryFilter::Prompts),
    {
        filter_entries(entries, &HistoryFilter::Prompts)
    }

    /// The entries read whose project holds the text `project`.
    pub fn filter_by_project(&self, entries: Vec<HistoryEntry>, project: String) -> (r: Vec<
        HistoryEntry,
    >)
        ensures
            r@ == selected(entries@, HistoryFilter::Project(project)),
    {
        filter_entries(entries, &HistoryFilter::Project(project))
    }

    /// The entries read from `since` on and up to `until`, each where it is
    /// given.
    pub fn filter_by_date_range(
        &self,
        entries: Vec<HistoryEntry>,
        since: Option<i64>,
        until: Option<i64>,
    ) -> (r: Vec<HistoryEntry>)
        ensures
            r@ == selected(entries@, HistoryFilter::DateRange(since, until)),
    {
        filter_entries(entries, &HistoryFilter::DateRange(since, until))
    }
}

// ---------------------------------------------------------------------------
// Selections of tasks
// ---------------------------------------------------------------------------

/// The model of a task.
pub open spec fn todo_view(entry: TodoEntry) -> (Seq<char>, TodoStatus, Seq<char>) {
    (entry.content@, entry.status, entry.active_form@)
}

/// The models of tasks.
pub open spec fn todos_view(todos: Seq<TodoEntry>) -> Seq<(Seq<char>, TodoStatus, Seq<char>)> {
    Seq::new(todos.len(), |i: int| todo_view(todos[i]))
}

/// Those of the first `n` tasks that are in the state `status`, in order.
pub open spec fn with_status_upto(todos: Seq<TodoEntry>, status: TodoStatus, n: nat) -> Seq<
    (Seq<char>, TodoStatus, Seq<char>),
>
    decreases n,
{
    if n == 0 || n > todos.len() {
        Seq::empty()
    } else {
        let before = with_status_upto(todos, status, (n - 1) as nat);
        if todos[n - 1].status == status {
            before.push(todo_view(todos[n - 1]))
        } else {
            before
        }
    }
}

/// The model of the tasks of one file: the workspace, the agent, and the
/// tasks.
pub open spec fn todo_file_view(file: TodoFile) -> (
    Seq<char>,
    Seq<char>,
    Seq<(Seq<char>, TodoStatus, Seq<char>)>,
) {
    (file.workspace_id@, file.agent_id@, todos_view(file.todos@))
}

/// The models of the tasks of files.
pub open spec fn todo_files_view(files: Seq<TodoFile>) -> Seq<
    (Seq<char>, Seq<char>, Seq<(Seq<char>, TodoStatus, Seq<char>)>),
> {
    Seq::new(files.len(), |i: int| todo_file_view(files[i]))
}

/// Of the first `n` files, those with a task in the state `status`, each
/// with its tasks in that state only.
pub open spec fn files_with_status_upto(files: Seq<TodoFile>, status: TodoStatus, n: nat) -> Seq<
    (Seq<char>, Seq<char>, Seq<(Seq<char>, TodoStatus, Seq<char>)>),
>
    decreases n,
{
    if n == 0 || n > files.len() {
        Seq::empty()
    } else {
        let before = files_with_status_upto(files, status, (n - 1) as nat);
        let file = files[n - 1];
        let matching = with_status_upto(file.todos@, status, file.todos@.len());
        if matching.len() == 0 {
            before
        } else {
            before.push((file.workspace_id@, file.agent_id@, matching))
        }
    }
}

/// The tasks of the first `n` files, each with the workspace and the agent
/// of its file, file after file.
pub open spec fn flat_todos_upto(files: Seq<TodoFile>, n: nat) -> Seq<
    (Seq<char>, Seq<char>, (Seq<char>, TodoStatus, Seq<char>)),
>
    decreases n,
{
    if n == 0 || n > files.len() {
        Seq::empty()
    } else {
        flat_todos_upto(files, (n - 1) as nat) + Seq::new(
            files[n - 1].todos@.len(),
            |k: int|
                (
                    files[n - 1].workspace_id@,
                    files[n - 1].agent_id@,
                    todo_view(files[n - 1].todos@[k]),
                ),
        )
    }
}

fn copy_todo(entry: &TodoEntry) -> (r: TodoEntry)
    ensures
        todo_view(r) == todo_view(*entry),
{
    TodoEntry {
        content: entry.content.clone(),
        status: entry.status,
        active_form: entry.active_form.clone(),
    }
}

fn todos_with_status(todos: &Vec<TodoEntry>, status: TodoStatus) -> (r: Vec<TodoEntry>)
    ensures
        todos_view(r@) == with_status_upto(todos@, status, todos@.len()),
{
    let mut out: Vec<TodoEntry> = Vec::new();
    let mut i: usize = 0;
    assert(todos_view(out@) =~= Seq::<(Seq<char>, TodoStatus, Seq<char>)>::empty());
    while i < todos.len()
        invariant
            i <= todos.len(),
            todos_view(out@) == with_status_upto(todos@, status, i as nat),
        decreases todos.len() - i,
    {
        let ghost before = todos_view(out@);
        if todos[i].status == status {
            let copy = copy_todo(&todos[i]);
            out.push(copy);
            assert(todos_view(out@) =~= before.push(todo_view(todos@[i as int])));
        }
        i += 1;
    }
    out
}

impl TodoDataSource {
    /// The tasks of a file as they were read, where there are any and the
    /// file's name tells a workspace and an agent.
    pub fn todo_file(&self, filename: &str, todos: Vec<TodoEntry>) -> (r: Option<TodoFile>)
        ensures
            todos@.len() == 0 ==> r is None,
            todos@.len() > 0 ==> match r {
                Some(file) => crate::models::todo_file_ids(filename@) == Some(
                    (file.workspace_id@, file.agent_id@),
                ) && file.todos == todos,
                None => crate::models::todo_file_ids(filename@) is None,
            },
    {
        if todos.len() == 0 {
            None
        } else {
            TodoFile::from_filename(filename, todos)
        }
    }

    /// Of the files read, those with a task in the state `status`, each
    /// with its tasks in that state only.
    pub fn filter_by_status(&self, files: &Vec<TodoFile>, status: TodoStatus) -> (r: Vec<TodoFile>)
        ensures
            todo_files_view(r@) == files_with_status_upto(files@, status, files@.len()),
    {
        let mut out: Vec<TodoFile> = Vec::new();
        let mut i: usize = 0;
        assert(todo_files_view(out@) =~= Seq::<
            (Seq<char>, Seq<char>, Seq<(Seq<char>, TodoStatus, Seq<char>)>),
        >::empty());
        while i < files.len()
            invariant
                i <= files.len(),
                todo_files_view(out@) == files_with_status_upto(files@, status, i as nat),
            decreases files.len() - i,
        {
            let ghost before = todo_files_view(out@);
            let matching = todos_with_status(&files[i].todos, status);
            if matching.len() > 0 {
                let file = TodoFile {
                    workspace_id: files[i].workspace_id.clone(),
                    agent_id: files[i].agent_id.clone(),
                    todos: matching,
                };
                out.push(file);
                assert(todo_files_view(out@) =~= before.push(todo_file_view(file)));
            }
            i += 1;
        }
        out
    }

    /// The tasks of the files read, each with the workspace and the agent
    /// of its file, file after file.
    pub fn all_todos_flat(&self, files: &Vec<TodoFile>) -> (r: Vec<(String, String, TodoEntry)>)
        ensures
            Seq::new(r@.len(), |i: int| (r@[i].0@, r@[i].1@, todo_view(r@[i].2)))
                == flat_todos_upto(files@, files@.len()),
    {
        let mut flat: Vec<(String, String, TodoEntry)> = Vec::new();
        let mut i: usize = 0;
        assert(Seq::new(flat@.len(), |i: int| (flat@[i].0@, flat@[i].1@, todo_view(flat@[i].2)))
            =~= flat_todos_upto(files@, 0));
        while i < files.len()
            invariant
                i <= files.len(),
                Seq::new(flat@.len(), |i: int| (flat@[i].0@, flat@[i].1@, todo_view(flat@[i].2)))
                    == flat_todos_upto(files@, i as nat),
            decreases files.len() - i,
        {
            let ghost done = Seq::new(
                flat@.len(),
                |i: int| (flat@[i].0@, flat@[i].1@, todo_view(flat@[i].2)),
            );
            let file = &files[i];
            let mut k: usize = 0;
            while k < file.todos.len()
                invariant
                    k <= file.todos.len(),
                    Seq::new(
                        flat@.len(),
                        |i: int| (flat@[i].0@, flat@[i].1@, todo_view(flat@[i].2)),
                    ) == done + Seq::new(
                        k as nat,
                        |j: int| (file.workspace_id@, file.agent_id@, todo_view(file.todos@[j])),
                    ),
                decreases file.todos.len() - k,
            {
                let ghost before = Seq::new(
                    flat@.len(),
                    |i: int| (flat@[i].0@, flat@[i].1@, todo_view(flat@[i].2)),
                );
                let entry = copy_todo(&file.todos[k]);
                flat.push((file.workspace_id.clone(), file.agent_id.clone(), entry));
                assert(Seq::new(
                    flat@.len(),
                    |i: int| (flat@[i].0@, flat@[i].1@, todo_view(flat@[i].2)),
                ) =~= before.push(
                    (file.workspace_id@, file.agent_id@, todo_view(file.todos@[k as int])),
                ));
                assert(before.push(
                    (file.workspace_id@, file.agent_id@, todo_view(file.todos@[k as int])),
                ) =~= done + Seq::new(
                    (k + 1) as nat,
                    |j: int| (file.workspace_id@, file.agent_id@, todo_view(file.todos@[j])),
                ));
                k += 1;
            }
            assert(done + Seq::new(
                file.todos@.len(),
                |j: int| (file.workspace_id@, file.agent_id@, todo_view(file.todos@[j])),
            ) =~= flat_todos_upto(files@, (i + 1) as nat));
            i += 1;
        }
        flat
    }
}

} // verus!
