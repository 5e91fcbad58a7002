use ccql::config::{join_path, Config};
use ccql::datasources::{
    filter_entries, CodexHistoryDataSource, HistoryDataSource, HistoryFilter, SessionInfo,
    StatsDataSource, TodoDataSource, TranscriptDataSource,
};
use ccql::error::{Error, ErrorKind};
use ccql::models::{
    DailyActivity, DailyModelTokens, HistoryEntry, LongestSession, ModelUsageData, PromptCluster,
    StatsCache, TodoEntry, TodoFile, TodoStatus,
};
use ccql::output::{truncate_string, OutputFormat, OutputWriter};
use ccql::query::{FilterBuilder, QueryEngine};
use ccql::search::SearchMatch;
use ccql::text::{chars_of, collapse_whitespace, find, string_of, trim};
use ccql::unified::{detect_tables, git_tables, session_tables, tables_named_in};

fn config() -> Config {
    Config { data_dir: "/home/u/data".to_string() }
}

fn entry(display: &str, timestamp: i64, project: Option<&str>) -> HistoryEntry {
    HistoryEntry {
        display: display.to_string(),
        timestamp,
        project: project.map(|p| p.to_string()),
        session_id: None,
        pasted_contents: vec![],
    }
}

fn displays(entries: &Vec<HistoryEntry>) -> Vec<String> {
    entries.iter().map(|e| e.display.clone()).collect()
}

#[test]
fn test_table_info() {
    let tables = git_tables();
    assert_eq!(tables.len(), 17, "Should have 17 tables defined");

    let table_names: Vec<&str> = tables.iter().map(|t| t.as_str()).collect();
    assert!(table_names.contains(&"commits"));
    assert!(table_names.contains(&"branches"));
    assert!(table_names.contains(&"tags"));
    assert!(table_names.contains(&"diffs"));
    assert!(table_names.contains(&"blame"));
}

#[test]
fn config_paths_lie_under_the_data_directory() {
    let c = config();
    assert_eq!(c.transcripts_dir(), "/home/u/data/transcripts");
    assert_eq!(c.history_file(), "/home/u/data/history.jsonl");
    assert_eq!(c.jhistory_file(), "/home/u/data/jhistory.jsonl");
    assert_eq!(c.projects_dir(), "/home/u/data/projects");
    assert_eq!(c.todos_dir(), "/home/u/data/todos");
    assert_eq!(c.stats_file(), "/home/u/data/stats-cache.json");
}

#[test]
fn join_adds_a_separator_where_one_is_missing() {
    assert_eq!(join_path("/a", "b"), "/a/b");
    assert_eq!(join_path("/a/", "b"), "/a/b");
    assert_eq!(join_path("", "b"), "b");
    assert_eq!(join_path("/", "b"), "/b");
}

#[test]
fn config_refuses_a_missing_directory() {
    assert_eq!(Config::new("/d".to_string(), true), Ok(Config { data_dir: "/d".to_string() }));
    let err = Config::new("/d".to_string(), false).unwrap_err();
    assert_eq!(err, Error::InvalidPath("Data directory does not exist: /d".to_string()));
    assert_eq!(err.error_kind(), ErrorKind::InvalidPath);
    assert_eq!(err.message(), "Invalid path: Data directory does not exist: /d");
}

#[test]
fn default_data_dir_lies_in_the_home_directory() {
    assert_eq!(Config::default_data_dir(Some("/home/u"), ".data"), "/home/u/.data");
    assert_eq!(Config::default_data_dir(None, ".data"), ".data");
}

#[test]
fn error_messages_begin_with_their_kind() {
    let cases = vec![
        (Error::Io("x".to_string()), ErrorKind::Io, "IO error: x"),
        (Error::JsonParse("x".to_string()), ErrorKind::JsonParse, "JSON parsing error: x"),
        (Error::QueryParse("x".to_string()), ErrorKind::QueryParse, "Query parse error: x"),
        (
            Error::QueryExecution("x".to_string()),
            ErrorKind::QueryExecution,
            "Query execution error: x",
        ),
        (Error::Config("x".to_string()), ErrorKind::Config, "Configuration error: x"),
        (Error::DataSource("x".to_string()), ErrorKind::DataSource, "Data source error: x"),
        (Error::InvalidPath("x".to_string()), ErrorKind::InvalidPath, "Invalid path: x"),
        (Error::FileNotFound("x".to_string()), ErrorKind::FileNotFound, "File not found: x"),
        (Error::Regex("x".to_string()), ErrorKind::Regex, "Regex error: x"),
        (Error::Sql("x".to_string()), ErrorKind::Sql, "SQL error: x"),
        (
            Error::WriteNotAllowed("x".to_string()),
            ErrorKind::WriteNotAllowed,
            "Write operation not allowed: x",
        ),
        (
            Error::DangerousOperation("x".to_string()),
            ErrorKind::DangerousOperation,
            "Dangerous operation rejected: x",
        ),
        (Error::BackupFailed("x".to_string()), ErrorKind::BackupFailed, "Backup failed: x"),
        (Error::WriteRejected("x".to_string()), ErrorKind::WriteRejected, "Write rejected: x"),
        (Error::TableNotFound("x".to_string()), ErrorKind::TableNotFound, "Table not found: x"),
    ];
    for (error, kind, message) in cases {
        assert_eq!(error.error_kind(), kind);
        assert_eq!(error.message(), message);
    }
}

#[test]
fn sources_read_from_the_data_directory() {
    assert_eq!(HistoryDataSource::new(config()).source_file(), "/home/u/data/history.jsonl");
    assert_eq!(CodexHistoryDataSource::new(config()).source_file(), "/home/u/data/jhistory.jsonl");
    assert_eq!(StatsDataSource::new(config()).source_file(), "/home/u/data/stats-cache.json");
    assert_eq!(TodoDataSource::new(config()).source_dir(), "/home/u/data/todos");
    let transcripts = TranscriptDataSource::new(config());
    assert_eq!(transcripts.source_dir(), "/home/u/data/transcripts");
    assert_eq!(transcripts.session_file("ses_1"), "/home/u/data/transcripts/ses_1.jsonl");
    let info = SessionInfo {
        session_id: "ses_1".to_string(),
        path: transcripts.session_file("ses_1"),
        size_bytes: 10,
        modified: Some(1700000000),
    };
    assert_eq!(info.clone(), info);
}

#[test]
fn history_filters_keep_the_order() {
    let all = || {
        vec![
            entry("first", 10, Some("/work/alpha")),
            entry("/help", 20, Some("/work/alpha")),
            entry("", 30, None),
            entry("second", 40, Some("/work/beta")),
            entry("third", 50, None),
        ]
    };
    let source = HistoryDataSource::new(config());
    assert_eq!(displays(&source.filter_prompts(all())), vec!["first", "second", "third"]);
    assert_eq!(
        displays(&source.filter_by_project(all(), "alpha".to_string())),
        vec!["first", "/help"]
    );
    assert_eq!(displays(&source.filter_by_project(all(), "".to_string())), vec!["first", "/help", "second"]);
    assert_eq!(
        displays(&source.filter_by_date_range(all(), Some(20), Some(40))),
        vec!["/help", "", "second"]
    );
    assert_eq!(displays(&source.filter_by_date_range(all(), None, Some(10))), vec!["first"]);
    assert_eq!(displays(&source.filter_by_date_range(all(), Some(51), None)), Vec::<String>::new());
    assert_eq!(source.filter_by_date_range(all(), None, None).len(), 5);
    assert_eq!(filter_entries(vec![], &HistoryFilter::Prompts), vec![]);
    assert!(HistoryFilter::Prompts.matches(&entry("x", 0, None)));
    assert!(!HistoryFilter::Prompts.matches(&entry("/x", 0, None)));
}

#[test]
fn history_entries_tell_prompts_from_commands() {
    assert!(entry("fix the bug", 0, None).is_user_prompt());
    assert!(!entry("/clear", 0, None).is_user_prompt());
    assert!(!entry("", 0, None).is_user_prompt());
    assert!(entry("/clear", 0, None).is_command());
    assert!(!entry("a/b", 0, None).is_command());
    assert!(!entry("", 0, None).is_command());
}

#[test]
fn project_name_is_the_last_component() {
    assert_eq!(entry("x", 0, Some("/work/alpha")).project_name(), Some("alpha".to_string()));
    assert_eq!(entry("x", 0, Some("alpha")).project_name(), Some("alpha".to_string()));
    assert_eq!(entry("x", 0, Some("/work/alpha/")).project_name(), Some("".to_string()));
    assert_eq!(entry("x", 0, Some("")).project_name(), Some("".to_string()));
    assert_eq!(entry("x", 0, None).project_name(), None);
}

#[test]
fn todo_file_from_filename_needs_exactly_two_parts() {
    let todos = || {
        vec![TodoEntry {
            content: "c".to_string(),
            status: TodoStatus::Pending,
            active_form: "doing c".to_string(),
        }]
    };
    assert_eq!(
        TodoFile::from_filename("abc-agent-def.json", todos()),
        Some(TodoFile { workspace_id: "abc".to_string(), agent_id: "def".to_string(), todos: todos() })
    );
    assert_eq!(
        TodoFile::from_filename("abc-agent-def.json.json", vec![]),
        Some(TodoFile { workspace_id: "abc".to_string(), agent_id: "def".to_string(), todos: vec![] })
    );
    assert_eq!(TodoFile::from_filename("simple.json", vec![]), None);
    assert_eq!(TodoFile::from_filename("a-agent-b-agent-c.json", vec![]), None);
    assert_eq!(
        TodoFile::from_filename("-agent-", vec![]),
        Some(TodoFile { workspace_id: "".to_string(), agent_id: "".to_string(), todos: vec![] })
    );
}

#[test]
fn todo_status_words() {
    assert_eq!(TodoStatus::Pending.as_text(), "pending");
    assert_eq!(TodoStatus::InProgress.as_text(), "in_progress");
    assert_eq!(TodoStatus::Completed.as_text(), "completed");
    assert_eq!(TodoStatus::from_text("pending"), Some(TodoStatus::Pending));
    assert_eq!(TodoStatus::from_text("in_progress"), Some(TodoStatus::InProgress));
    assert_eq!(TodoStatus::from_text("completed"), Some(TodoStatus::Completed));
    assert_eq!(TodoStatus::from_text("done"), None);
}

#[test]
fn stats_add_up_tokens() {
    let usage = |input: u64, output: u64| ModelUsageData {
        input_tokens: input,
        output_tokens: output,
        cache_read_input_tokens: 1000,
        cache_creation_input_tokens: 1000,
        web_search_requests: 0,
        cost_usd: 0,
        context_window: 0,
    };
    let day = |date: &str, messages: u64| DailyActivity {
        date: date.to_string(),
        message_count: messages,
        session_count: 1,
        tool_call_count: 0,
    };
    let stats = StatsCache {
        version: 1,
        last_computed_date: "2024-01-03".to_string(),
        daily_activity: vec![day("2024-01-01", 5), day("2024-01-02", 6), day("2024-01-02", 7)],
        daily_model_tokens: vec![DailyModelTokens {
            date: "2024-01-01".to_string(),
            tokens_by_model: vec![("m".to_string(), 3)],
        }],
        hour_counts: vec![],
        model_usage: vec![("a".to_string(), usage(10, 20)), ("b".to_string(), usage(1, 2))],
        total_messages: 18,
        total_sessions: 3,
        first_session_date: "2024-01-01".to_string(),
        longest_session: Some(LongestSession {
            session_id: "s".to_string(),
            duration: 1,
            message_count: 2,
            timestamp: "t".to_string(),
        }),
    };
    assert_eq!(stats.total_tokens(), 33);
    assert_eq!(stats.activity_by_date("2024-01-02").unwrap().message_count, 6);
    assert_eq!(stats.activity_by_date("2024-01-09"), None);
}

#[test]
fn truncate_cuts_long_texts() {
    assert_eq!(truncate_string("hello world", 8), "hello...");
    assert_eq!(truncate_string("hello", 5), "hello");
    assert_eq!(truncate_string("hello", 10), "hello");
    assert_eq!(truncate_string("hello", 3), "...");
    assert_eq!(truncate_string("", 0), "");
    assert_eq!(truncate_string("\u{e9}\u{e9}\u{e9}", 5), "\u{e9}\u{e9}...");
    assert_eq!(truncate_string("\u{e9}\u{e9}", 3), "...");
}

#[test]
fn formats_that_indent() {
    assert!(OutputFormat::Json.is_pretty());
    assert!(OutputFormat::Table.is_pretty());
    assert!(!OutputFormat::Raw.is_pretty());
    assert!(!OutputFormat::Jsonl.is_pretty());
}

#[test]
fn writer_collects_lines() {
    let mut w = OutputWriter::new(String::new(), OutputFormat::Json);
    assert_eq!(w.format(), OutputFormat::Json);
    w.writeln("one");
    w.writeln("");
    w.writeln("two");
    assert_eq!(w.take_written(), "one\n\ntwo\n");
    assert_eq!(w.take_written(), "");
    let mut w = OutputWriter::new("head".to_string(), OutputFormat::default());
    assert_eq!(w.format(), OutputFormat::Table);
    w.writeln("tail");
    assert_eq!(w.take_written(), "headtail\n");
}

#[test]
fn filter_builder_writes_expressions() {
    assert_eq!(FilterBuilder::select_type("user"), r#"select(.type == "user")"#);
    assert_eq!(
        FilterBuilder::select_field_contains("content", "error"),
        r#"select(.content | test("error"))"#
    );
    assert_eq!(
        FilterBuilder::project_fields(&vec!["a".to_string(), "b".to_string()]),
        "{ a: .a, b: .b }"
    );
    assert_eq!(FilterBuilder::project_fields(&vec!["only".to_string()]), "{ only: .only }");
    assert_eq!(FilterBuilder::project_fields(&vec![]), "{  }");
    assert_eq!(QueryEngine::new(), QueryEngine::default());
}

#[test]
fn search_match_builders() {
    let m = SearchMatch::new("history".to_string(), "found".to_string());
    assert_eq!(m.source, "history");
    assert_eq!(m.content, "found");
    assert_eq!(m.line_number, None);
    assert!(m.context_before.is_empty());
    assert!(m.context_after.is_empty());
    let m = m.with_line(12).with_context(vec!["b".to_string()], vec!["a1".to_string(), "a2".to_string()]);
    assert_eq!(m.line_number, Some(12));
    assert_eq!(m.context_before, vec!["b"]);
    assert_eq!(m.context_after, vec!["a1", "a2"]);
    assert_eq!(m.source, "history");
}

#[test]
fn prompt_cluster_holds_its_fields() {
    let c = PromptCluster {
        canonical: "run tests".to_string(),
        variants: vec!["run tests".to_string(), "run test".to_string()],
        count: 3,
        latest_timestamp: 99,
    };
    assert_eq!(c.clone(), c);
}

#[test]
fn tables_are_detected_whatever_the_case() {
    let (session, git) = detect_tables("select * from History h join COMMITS c on 1=1");
    assert_eq!(session, vec!["history"]);
    assert_eq!(git, vec!["commits"]);
    let (session, git) = detect_tables("SELECT 1");
    assert!(session.is_empty());
    assert!(git.is_empty());
    let (session, git) = detect_tables("select * from diff_files, todos, stats, transcripts");
    assert_eq!(session, vec!["transcripts", "todos", "stats"]);
    assert_eq!(git, vec!["diff_files"]);
    let (_, git) = detect_tables("select status from commit_parents");
    assert_eq!(git, vec!["commit_parents", "status"]);
    assert_eq!(session_tables(), vec!["history", "transcripts", "todos", "stats"]);
    assert_eq!(
        tables_named_in(&vec!["tag".to_string(), "x".to_string()], "STAGE"),
        vec!["tag"]
    );
}

#[test]
fn text_helpers() {
    let c = |s: &str| chars_of(s);
    assert_eq!(string_of(&trim(&c("  a b \n"))), "a b");
    assert_eq!(string_of(&trim(&c("\u{a0}x\u{3000}"))), "x");
    assert_eq!(string_of(&collapse_whitespace(&c(" a \t b\n\nc "))), "a b c");
    assert_eq!(find(&c("abcabc"), &c("bc")), Some(1));
    assert_eq!(find(&c("abc"), &c("")), Some(0));
    assert_eq!(find(&c(""), &c("")), Some(0));
    assert_eq!(find(&c("abc"), &c("abcd")), None);
    assert_eq!(find(&c("aab"), &c("ab")), Some(1));
}
