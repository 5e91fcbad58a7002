use ccql::error::{Error, ErrorKind};
use ccql::parse::parse_json;
use ccql::record::{contains_name, json_to_record, text_column, Row};
use ccql::scanner::{
    canonical_fields, fetch_row, history_rows, is_todo_name, is_transcript_name,
    json_to_data_row_with_meta, normalize_history_entry, parse_todo_filename, scan_jhistory,
    scan_todos, scan_transcripts, session_id_from, todo_json_to_data_row, todo_rows,
    transcript_rows, unreadable, LineFile, Listing, TextFile,
};
use ccql::value::{EngineValue, JsonValue};

fn s(text: &str) -> EngineValue {
    EngineValue::Str(text.to_string())
}

fn field(name: &str, value: EngineValue) -> (String, EngineValue) {
    (name.to_string(), value)
}

fn get<'a>(record: &'a Vec<(String, EngineValue)>, name: &str) -> Option<&'a EngineValue> {
    let found: Vec<&EngineValue> =
        record.iter().filter(|(n, _)| n == name).map(|(_, v)| v).collect();
    assert!(found.len() <= 1, "the name {} occurs twice", name);
    found.first().copied()
}

fn line_file(name: &str, lines: &[&str]) -> LineFile {
    LineFile {
        name: name.to_string(),
        lines: Some(lines.iter().map(|l| l.to_string()).collect()),
    }
}

fn text_file(name: &str, content: &str) -> TextFile {
    TextFile { name: name.to_string(), content: Some(content.to_string()) }
}

fn records(rows: &Vec<Row>) -> Vec<Vec<(String, EngineValue)>> {
    let mut all: Vec<Vec<(String, EngineValue)>> = Vec::new();
    for row in rows.iter() {
        let mut record: Vec<(String, EngineValue)> = Vec::new();
        for (name, value) in row.record.iter() {
            record.push((name.clone(), copy(value)));
        }
        all.push(record);
    }
    all
}

fn copy(value: &EngineValue) -> EngineValue {
    match value {
        EngineValue::Str(t) => EngineValue::Str(t.clone()),
        EngineValue::I64(n) => EngineValue::I64(*n),
        EngineValue::Bool(b) => EngineValue::Bool(*b),
        EngineValue::F64(b) => EngineValue::F64(*b),
        EngineValue::List(items) => EngineValue::List(items.iter().map(copy).collect()),
        EngineValue::Dict(fields) => {
            EngineValue::Dict(fields.iter().map(|(n, v)| (n.clone(), copy(v))).collect())
        }
        _ => EngineValue::Null,
    }
}

#[test]
fn test_parse_todo_filename() {
    let (workspace, agent) = parse_todo_filename("abc123-agent-def456.json");
    assert_eq!(workspace, "abc123");
    assert_eq!(agent, "def456");

    let (workspace, agent) = parse_todo_filename("simple.json");
    assert_eq!(workspace, "simple");
    assert_eq!(agent, "unknown");
}

#[test]
fn todo_filename_splits_at_the_first_marker() {
    assert_eq!(
        parse_todo_filename("a-agent-b-agent-c.json"),
        ("a".to_string(), "b-agent-c".to_string())
    );
    assert_eq!(parse_todo_filename("-agent-.json"), ("".to_string(), "".to_string()));
    assert_eq!(parse_todo_filename("x-agent-y"), ("x".to_string(), "y".to_string()));
    assert_eq!(parse_todo_filename(""), ("".to_string(), "unknown".to_string()));
    assert_eq!(parse_todo_filename("a.json.json"), ("a.json".to_string(), "unknown".to_string()));
}

#[test]
fn todo_file_scans_to_one_record_per_item() {
    let files = vec![text_file(
        "alpha-agent-beta.json",
        r#"[{"content":"x","status":"pending","activeForm":"doing x"}]"#,
    )];
    let rows = todo_rows(&files);
    assert_eq!(rows.len(), 1);
    assert_eq!(rows[0].key, 0);
    let record = &rows[0].record;
    assert_eq!(get(record, "_workspace_id"), Some(&s("alpha")));
    assert_eq!(get(record, "_agent_id"), Some(&s("beta")));
    assert_eq!(get(record, "_source_file"), Some(&s("alpha-agent-beta.json")));
    assert_eq!(get(record, "content"), Some(&s("x")));
    assert_eq!(get(record, "status"), Some(&s("pending")));
    assert_eq!(get(record, "activeForm"), Some(&s("doing x")));
    assert_eq!(record.len(), 6);
}

#[test]
fn todo_files_with_an_object_or_other_content() {
    let files = vec![
        text_file("one.json", r#"{"content":"solo"}"#),
        text_file("two.json", "42"),
        text_file("three.json", "not json"),
        text_file("four.txt", r#"[{"content":"wrong extension"}]"#),
        TextFile { name: "five.json".to_string(), content: None },
        text_file("six-agent-7.json", r#"[{"content":"a"}, 5, {"content":"b"}]"#),
    ];
    let rows = todo_rows(&files);
    assert_eq!(rows.len(), 4);
    let keys: Vec<usize> = rows.iter().map(|r| r.key).collect();
    assert_eq!(keys, vec![0, 1, 2, 3]);
    assert_eq!(get(&rows[0].record, "content"), Some(&s("solo")));
    assert_eq!(get(&rows[0].record, "_workspace_id"), Some(&s("one")));
    assert_eq!(get(&rows[0].record, "_agent_id"), Some(&s("unknown")));
    assert_eq!(get(&rows[1].record, "content"), Some(&s("a")));
    assert_eq!(
        rows[2].record,
        vec![
            field("_source_file", s("six-agent-7.json")),
            field("_workspace_id", s("six")),
            field("_agent_id", s("7")),
        ]
    );
    assert_eq!(get(&rows[3].record, "content"), Some(&s("b")));
}

#[test]
fn transcripts_scan_line_by_line() {
    let files = vec![
        line_file("ses_abc.jsonl", &[r#"{"type":"user","content":"hi"}"#, "", "garbage", r#"{"type":"tool_use"}"#]),
        line_file("notes.txt", &[r#"{"type":"ignored"}"#]),
        LineFile { name: "ses_closed.jsonl".to_string(), lines: None },
        line_file("other.jsonl", &[r#"{"n":1}"#, "7"]),
    ];
    let rows = transcript_rows(&files);
    assert_eq!(rows.len(), 4);
    assert_eq!(
        rows[0],
        Row {
            key: 0,
            record: vec![
                field("_source_file", s("ses_abc.jsonl")),
                field("_session_id", s("abc")),
                field("content", s("hi")),
                field("type", s("user")),
            ],
        }
    );
    assert_eq!(rows[1].key, 1);
    assert_eq!(get(&rows[1].record, "type"), Some(&s("tool_use")));
    assert_eq!(rows[2].key, 2);
    assert_eq!(get(&rows[2].record, "_session_id"), Some(&s("other.jsonl")));
    assert_eq!(get(&rows[2].record, "n"), Some(&EngineValue::I64(1)));
    assert_eq!(
        rows[3],
        Row {
            key: 3,
            record: vec![field("_source_file", s("other.jsonl")), field("_session_id", s("other.jsonl"))],
        }
    );
}

#[test]
fn session_id_is_between_prefix_and_suffix() {
    assert_eq!(session_id_from("ses_abc123.jsonl"), "abc123");
    assert_eq!(session_id_from("ses_.jsonl"), "");
    assert_eq!(session_id_from("abc.jsonl"), "abc.jsonl");
    assert_eq!(session_id_from("ses_abc.json"), "ses_abc.json");
    assert_eq!(session_id_from("ses_"), "ses_");
    assert_eq!(session_id_from(""), "");
}

#[test]
fn files_are_told_by_their_extension() {
    assert!(is_transcript_name("ses_1.jsonl"));
    assert!(!is_transcript_name("ses_1.json"));
    assert!(!is_transcript_name(".jsonl"));
    assert!(!is_transcript_name("jsonl"));
    assert!(!is_transcript_name("a.JSONL"));
    assert!(is_todo_name("a-agent-b.json"));
    assert!(!is_todo_name("a.jsonl"));
    assert!(!is_todo_name(".json"));
}

#[test]
fn columns_of_the_file_name_replace_members_of_the_same_name() {
    let json = parse_json(r#"{"_session_id":"forged","_source_file":"forged","type":"user"}"#).unwrap();
    let record = json_to_data_row_with_meta(&json, "ses_real.jsonl", "real");
    assert_eq!(
        record,
        vec![
            field("_source_file", s("ses_real.jsonl")),
            field("_session_id", s("real")),
            field("type", s("user")),
        ]
    );
    let todo = parse_json(r#"{"_agent_id":1,"_workspace_id":2,"content":"c"}"#).unwrap();
    let record = todo_json_to_data_row(&todo, "f.json", "w", "a");
    assert_eq!(
        record,
        vec![
            field("_source_file", s("f.json")),
            field("_workspace_id", s("w")),
            field("_agent_id", s("a")),
            field("content", s("c")),
        ]
    );
}

#[test]
fn record_of_a_value_that_is_no_object_holds_the_columns_only() {
    let record = json_to_record(&JsonValue::Bool(true), vec![text_column("k", "v")]);
    assert_eq!(record, vec![field("k", s("v"))]);
    assert!(contains_name(&record, &"k".to_string()));
    assert!(!contains_name(&record, &"v".to_string()));
}

#[test]
fn jhistory_line_is_normalized() {
    let lines = vec![r#"{"session_id":"abc123","ts":1754402102,"text":"hello"}"#.to_string()];
    let rows = history_rows(&lines);
    assert_eq!(rows.len(), 1);
    assert_eq!(rows[0].key, 0);
    let record = &rows[0].record;
    assert_eq!(get(record, "display"), Some(&s("hello")));
    assert_eq!(get(record, "text"), Some(&s("hello")));
    assert_eq!(get(record, "session_id"), Some(&s("abc123")));
    assert_eq!(get(record, "ts"), Some(&EngineValue::I64(1754402102)));
    assert_eq!(get(record, "timestamp"), Some(&EngineValue::I64(1754402102000)));
    assert_eq!(record.len(), 5);
}

#[test]
fn jhistory_takes_milliseconds_for_large_times() {
    let json = parse_json(r#"{"timestamp":1754402102999,"display":"d","text":"t","extra":[1]}"#).unwrap();
    let record = normalize_history_entry(&json).unwrap();
    assert_eq!(
        record,
        vec![
            field("display", s("d")),
            field("text", s("d")),
            field("ts", EngineValue::I64(1754402102)),
            field("timestamp", EngineValue::I64(1754402102000)),
            field("extra", EngineValue::List(vec![EngineValue::I64(1)])),
        ]
    );
}

#[test]
fn jhistory_threshold_between_seconds_and_milliseconds() {
    let at = parse_json(r#"{"ts":10000000000}"#).unwrap();
    assert_eq!(
        normalize_history_entry(&at).unwrap(),
        vec![
            field("ts", EngineValue::I64(10000000000)),
            field("timestamp", EngineValue::I64(10000000000000)),
        ]
    );
    let above = parse_json(r#"{"ts":10000000001}"#).unwrap();
    assert_eq!(
        normalize_history_entry(&above).unwrap(),
        vec![
            field("ts", EngineValue::I64(10000000)),
            field("timestamp", EngineValue::I64(10000000000)),
        ]
    );
}

#[test]
fn jhistory_prefers_ts_and_session_id() {
    let json = parse_json(r#"{"ts":5,"timestamp":9,"sessionId":"camel","session_id":"snake"}"#).unwrap();
    let JsonValue::Object(members) = &json else { panic!("an object") };
    assert_eq!(
        canonical_fields(members),
        vec![
            field("session_id", s("snake")),
            field("ts", EngineValue::I64(5)),
            field("timestamp", EngineValue::I64(5000)),
        ]
    );
    let record = normalize_history_entry(&json).unwrap();
    assert_eq!(get(&record, "sessionId"), Some(&s("camel")));
    assert_eq!(get(&record, "session_id"), Some(&s("snake")));
    assert_eq!(get(&record, "timestamp"), Some(&EngineValue::I64(5000)));
}

#[test]
fn jhistory_leaves_what_it_cannot_normalize() {
    let json = parse_json(r#"{"ts":"soon","text":7,"sessionId":"s"}"#).unwrap();
    assert_eq!(
        normalize_history_entry(&json).unwrap(),
        vec![
            field("session_id", s("s")),
            field("sessionId", s("s")),
            field("text", EngineValue::I64(7)),
            field("ts", s("soon")),
        ]
    );
    let far = parse_json(r#"{"ts":-9223372036854775808}"#).unwrap();
    assert_eq!(
        normalize_history_entry(&far).unwrap(),
        vec![field("ts", EngineValue::I64(i64::MIN))]
    );
    assert_eq!(normalize_history_entry(&JsonValue::Array(vec![])), None);
}

#[test]
fn jhistory_skips_lines_that_are_no_objects() {
    let lines: Vec<String> =
        ["[1]", "", "{\"text\":\"a\"}", "oops", "{\"text\":\"b\"}"].iter().map(|l| l.to_string()).collect();
    let rows = history_rows(&lines);
    assert_eq!(rows.len(), 2);
    assert_eq!(rows[0].key, 0);
    assert_eq!(rows[1].key, 1);
    assert_eq!(get(&rows[1].record, "display"), Some(&s("b")));
}

#[test]
fn scan_of_a_missing_directory_is_empty() {
    assert_eq!(scan_transcripts(&Listing::Missing), Ok(vec![]));
    assert_eq!(scan_todos(&Listing::Missing), Ok(vec![]));
    assert_eq!(scan_jhistory(&Listing::Missing), Ok(vec![]));
}

#[test]
fn scan_of_an_unreadable_directory_fails() {
    let err = scan_transcripts(&Listing::Failed("denied".to_string())).unwrap_err();
    assert_eq!(err, Error::Io("Failed to read transcripts dir: denied".to_string()));
    assert_eq!(err.error_kind(), ErrorKind::Io);
    assert_eq!(err.message(), "IO error: Failed to read transcripts dir: denied");
    assert_eq!(
        scan_todos(&Listing::Failed("denied".to_string())),
        Err(Error::Io("Failed to read todos dir: denied".to_string()))
    );
    assert_eq!(
        scan_jhistory(&Listing::Failed("denied".to_string())),
        Err(Error::Io("Failed to read jhistory file: denied".to_string()))
    );
    assert_eq!(unreadable("x", "y"), Error::Io("Failed to read x: y".to_string()));
}

#[test]
fn scan_of_listed_entries() {
    let rows = scan_transcripts(&Listing::Entries(vec![line_file("a.jsonl", &["{}"])])).unwrap();
    assert_eq!(rows.len(), 1);
    let rows = scan_todos(&Listing::Entries(vec![text_file("a.json", "[{},{}]")])).unwrap();
    assert_eq!(rows.len(), 2);
    let rows = scan_jhistory(&Listing::Entries(vec!["{}".to_string(), "{}".to_string(), "x".to_string()])).unwrap();
    assert_eq!(rows.len(), 2);
}

#[test]
fn two_scans_of_the_same_files_agree() {
    let files = vec![
        line_file("ses_a.jsonl", &[r#"{"n":1}"#, r#"{"n":2}"#]),
        line_file("ses_b.jsonl", &[r#"{"n":3}"#]),
    ];
    assert_eq!(transcript_rows(&files), transcript_rows(&files));
    let todos = vec![text_file("w-agent-a.json", r#"[{"c":1},{"c":2}]"#)];
    assert_eq!(todo_rows(&todos), todo_rows(&todos));
}

#[test]
fn order_of_files_changes_keys_only() {
    let forward = vec![
        line_file("ses_a.jsonl", &[r#"{"n":1}"#, r#"{"n":2}"#]),
        line_file("ses_b.jsonl", &[r#"{"n":3}"#]),
    ];
    let backward = vec![
        line_file("ses_b.jsonl", &[r#"{"n":3}"#]),
        line_file("ses_a.jsonl", &[r#"{"n":1}"#, r#"{"n":2}"#]),
    ];
    let first = transcript_rows(&forward);
    let second = transcript_rows(&backward);
    assert_eq!(first.len(), 3);
    assert_eq!(second.len(), 3);
    assert_eq!(first[0].record, second[1].record);
    assert_eq!(first[1].record, second[2].record);
    assert_eq!(first[2].record, second[0].record);
    assert_eq!(second.iter().map(|r| r.key).collect::<Vec<usize>>(), vec![0, 1, 2]);
    let mut a: Vec<String> = records(&first).iter().map(|r| format!("{:?}", r)).collect();
    let mut b: Vec<String> = records(&second).iter().map(|r| format!("{:?}", r)).collect();
    a.sort();
    b.sort();
    assert_eq!(a, b);
}

#[test]
fn fetch_finds_the_row_with_the_key() {
    let rows = transcript_rows(&vec![line_file("x.jsonl", &[r#"{"n":1}"#, r#"{"n":2}"#])]);
    assert_eq!(fetch_row(&rows, 1), Some(&rows[1].record));
    assert_eq!(fetch_row(&rows, 0), Some(&rows[0].record));
    assert_eq!(fetch_row(&rows, 2), None);
    assert_eq!(fetch_row(&rows, -1), None);
    assert_eq!(fetch_row(&vec![], 0), None);
}
