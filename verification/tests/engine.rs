use ccql::config::Config;
use ccql::engine::{
    backup_outcome, is_write_operation, is_write_operation_public, is_write_word,
    normalize_payloads, plan_statement, Payload, QueryEvent, QueryPlan, QueryStep, SqlEngine,
    SqlOptions,
};
use ccql::error::{Error, ErrorKind};
use ccql::safety::BackupCopy;
use ccql::schema::{
    configured_kind, is_virtual_table, list_existing_tables, scan_strategy, table_kind,
    virtual_schema,
    virtual_schemas, ScanStrategy, TableKind, TablePresence, TableSchema,
};
use ccql::storage::{route, route_rename, write_rejected, Route, StoreMethod};
use ccql::value::{EngineValue, JsonNumber, JsonValue};

fn engine(write_enabled: bool, dry_run: bool) -> SqlEngine {
    SqlEngine::new(Config { data_dir: "/data".to_string() }, SqlOptions { write_enabled, dry_run })
}

fn text(s: &str) -> JsonValue {
    JsonValue::Str(s.to_string())
}

fn count(n: u64) -> JsonValue {
    JsonValue::Number(JsonNumber::PosInt(n))
}

fn object(members: Vec<(&str, JsonValue)>) -> JsonValue {
    JsonValue::Object(members.into_iter().map(|(k, v)| (k.to_string(), v)).collect())
}

const ALL_METHODS: [StoreMethod; 23] = [
    StoreMethod::FetchSchema,
    StoreMethod::FetchAllSchemas,
    StoreMethod::FetchData,
    StoreMethod::ScanData,
    StoreMethod::ScanIndexedData,
    StoreMethod::InsertSchema,
    StoreMethod::DeleteSchema,
    StoreMethod::AppendData,
    StoreMethod::InsertData,
    StoreMethod::DeleteData,
    StoreMethod::CreateIndex,
    StoreMethod::DropIndex,
    StoreMethod::RenameSchema,
    StoreMethod::RenameColumn,
    StoreMethod::AddColumn,
    StoreMethod::DropColumn,
    StoreMethod::Begin,
    StoreMethod::Rollback,
    StoreMethod::Commit,
    StoreMethod::FetchFunction,
    StoreMethod::FetchAllFunctions,
    StoreMethod::InsertFunction,
    StoreMethod::DeleteFunction,
];

const MUTATIONS: [StoreMethod; 11] = [
    StoreMethod::InsertSchema,
    StoreMethod::DeleteSchema,
    StoreMethod::AppendData,
    StoreMethod::InsertData,
    StoreMethod::DeleteData,
    StoreMethod::CreateIndex,
    StoreMethod::DropIndex,
    StoreMethod::RenameSchema,
    StoreMethod::RenameColumn,
    StoreMethod::AddColumn,
    StoreMethod::DropColumn,
];

#[test]
fn test_is_write_operation() {
    assert!(is_write_operation("INSERT INTO foo VALUES (1)"));
    assert!(is_write_operation("  UPDATE foo SET x = 1"));
    assert!(is_write_operation("DELETE FROM foo"));
    assert!(is_write_operation("DROP TABLE foo"));
    assert!(!is_write_operation("SELECT * FROM foo"));
    assert!(!is_write_operation("  select * from foo"));
}

#[test]
fn write_words() {
    assert!(is_write_operation_public("create table t (a int)"));
    assert!(is_write_operation_public("\n\talter table t add column b int"));
    assert!(is_write_operation_public("truncate t"));
    assert!(is_write_operation_public("insertion"));
    assert!(!is_write_operation_public("show tables"));
    assert!(!is_write_operation_public(""));
    assert!(!is_write_operation_public("( delete from t )"));
    assert!(is_write_word("DROP"));
    assert!(!is_write_word("drop"));
    assert!(!is_write_word("DRO"));
}

#[test]
fn insert_is_refused_while_writing_is_disabled() {
    let plan = engine(false, false).plan("INSERT INTO history (display) VALUES ('x')");
    assert_eq!(
        plan,
        QueryPlan::Refuse(Error::WriteNotAllowed(
            "Write operations require --write flag. Use --dry-run to preview changes.".to_string()
        ))
    );
    if let QueryPlan::Refuse(e) = plan {
        assert_eq!(e.error_kind(), ErrorKind::WriteNotAllowed);
        assert_eq!(
            e.message(),
            "Write operation not allowed: Write operations require --write flag. Use --dry-run to preview changes."
        );
    }
}

#[test]
fn reads_run_whatever_the_options() {
    for (w, d) in [(false, false), (true, false), (false, true), (true, true)] {
        assert_eq!(engine(w, d).plan("SELECT * FROM history"), QueryPlan::Read);
        assert_eq!(engine(w, d).plan("SHOW TABLES"), QueryPlan::Read);
    }
}

#[test]
fn dry_run_shows_a_write_and_runs_nothing() {
    let sql = "DELETE FROM history";
    assert_eq!(engine(true, true).plan(sql), QueryPlan::Preview(sql.to_string()));
    assert_eq!(engine(false, true).plan(sql), QueryPlan::Preview(sql.to_string()));
}

#[test]
fn dangerous_writes_are_refused() {
    let plan = engine(true, false).plan("DELETE FROM history");
    match plan {
        QueryPlan::Refuse(e) => {
            assert_eq!(e.error_kind(), ErrorKind::DangerousOperation);
            assert!(e.message().starts_with("Dangerous operation rejected: DELETE without WHERE"));
            assert!(e.message().contains("WHERE 1=1"));
        }
        other => panic!("{:?}", other),
    }
    let plan = engine(true, false).plan("truncate history");
    assert!(matches!(plan, QueryPlan::Refuse(Error::DangerousOperation(_))));
    let plan = engine(true, false).plan("update history set a = 1");
    assert!(matches!(plan, QueryPlan::Refuse(Error::DangerousOperation(_))));
}

#[test]
fn safe_writes_name_the_table_to_copy() {
    assert_eq!(
        engine(true, false).plan("DELETE FROM history WHERE id=1"),
        QueryPlan::Write { table: Some("history".to_string()) }
    );
    assert_eq!(
        engine(true, false).plan("insert into Stats (a) values (1)"),
        QueryPlan::Write { table: Some("stats".to_string()) }
    );
    assert_eq!(
        engine(true, false).plan("CREATE TABLE notes (a INT)"),
        QueryPlan::Write { table: None }
    );
}

#[test]
fn plan_follows_what_it_is_told() {
    let options = SqlOptions { write_enabled: true, dry_run: false };
    assert_eq!(plan_statement("x", false, "DELETE FROM T", options), QueryPlan::Read);
    assert!(matches!(
        plan_statement("x", true, "DELETE FROM T", options),
        QueryPlan::Refuse(Error::DangerousOperation(_))
    ));
    assert_eq!(
        plan_statement("x", true, "DELETE FROM T WHERE A", options),
        QueryPlan::Write { table: Some("t".to_string()) }
    );
    assert_eq!(SqlOptions::default(), SqlOptions { write_enabled: false, dry_run: false });
}

#[test]
fn engine_guard_follows_the_engine() {
    let mut e = engine(true, false);
    assert!(e.guard().is_backup_enabled());
    assert_eq!(
        e.guard().get_table_path("history", false, false).unwrap(),
        "/data/history.jsonl"
    );
    e.disable_backups();
    assert!(!e.guard().is_backup_enabled());
    assert_eq!(e.guard().backup_table("history", false, false, true).unwrap(), None);
}

#[test]
fn backup_outcome_stops_the_write_on_failure() {
    let copy = BackupCopy { source: "/d/h.jsonl".to_string(), destination: "/d/h.jsonl.bak".to_string() };
    assert_eq!(backup_outcome(copy.clone(), None), Ok("/d/h.jsonl.bak".to_string()));
    assert_eq!(
        backup_outcome(copy, Some("read-only file system")),
        Err(Error::BackupFailed(
            "Failed to backup /d/h.jsonl to /d/h.jsonl.bak: read-only file system".to_string()
        ))
    );
}

#[test]
fn tables_are_listed_by_presence() {
    let all = TablePresence { history: true, stats: true, jhistory: true, transcripts: true, todos: true };
    assert_eq!(
        list_existing_tables(all),
        vec!["history", "stats", "jhistory", "codex_history", "transcripts", "todos"]
    );
    let some = TablePresence { history: false, stats: true, jhistory: false, transcripts: false, todos: true };
    assert_eq!(list_existing_tables(some), vec!["stats", "todos"]);
    let none = TablePresence { history: false, stats: false, jhistory: false, transcripts: false, todos: false };
    assert!(list_existing_tables(none).is_empty());
    assert_eq!(engine(false, false).list_tables(some), Ok(vec!["stats".to_string(), "todos".to_string()]));
}

#[test]
fn kinds_of_tables() {
    assert_eq!(table_kind("transcripts"), TableKind::Virtual);
    assert_eq!(table_kind("todos"), TableKind::Virtual);
    assert_eq!(table_kind("jhistory"), TableKind::Virtual);
    assert_eq!(table_kind("codex_history"), TableKind::Virtual);
    assert_eq!(table_kind("history"), TableKind::Physical);
    assert_eq!(table_kind("stats"), TableKind::Physical);
    assert_eq!(table_kind("Todos"), TableKind::Unknown);
    assert_eq!(table_kind(""), TableKind::Unknown);
    assert_eq!(scan_strategy("transcripts"), Some(ScanStrategy::LineDirectory));
    assert_eq!(scan_strategy("todos"), Some(ScanStrategy::ArrayDirectory));
    assert_eq!(scan_strategy("jhistory"), Some(ScanStrategy::NormalizedFile));
    assert_eq!(scan_strategy("history"), None);
    assert!(is_virtual_table("todos"));
    assert!(!is_virtual_table("stats"));
}

#[test]
fn virtual_tables_report_no_columns_and_a_comment() {
    assert_eq!(
        virtual_schema("transcripts"),
        Some(TableSchema {
            table_name: "transcripts".to_string(),
            columns: None,
            comment: Some("Virtual table merging all transcript files".to_string()),
        })
    );
    assert_eq!(
        virtual_schema("todos").unwrap().comment,
        Some("Virtual table merging all todo files".to_string())
    );
    assert_eq!(
        virtual_schema("codex_history").unwrap().comment,
        Some("Virtual table normalizing the prompt history file".to_string())
    );
    assert_eq!(virtual_schema("history"), None);
    assert_eq!(virtual_schema("nothing"), None);
    let present = TablePresence { history: true, stats: true, jhistory: false, transcripts: true, todos: true };
    let names: Vec<String> = virtual_schemas(present).into_iter().map(|s| s.table_name).collect();
    assert_eq!(names, vec!["transcripts", "todos"]);
}

#[test]
fn every_change_of_a_virtual_table_is_rejected() {
    for table in ["transcripts", "todos", "jhistory", "codex_history"] {
        for method in MUTATIONS {
            match route(method, table) {
                Route::Reject(e) => {
                    assert_eq!(e.error_kind(), ErrorKind::WriteRejected);
                    assert!(e.message().contains(&format!("table '{}' is virtual and read-only", table)));
                }
                other => panic!("{:?} on {} gave {:?}", method, table, other),
            }
        }
    }
}

#[test]
fn nothing_else_is_rejected() {
    for table in ["history", "stats", "notes", ""] {
        for method in ALL_METHODS {
            assert_eq!(route(method, table), Route::Delegate, "{:?} on {}", method, table);
        }
    }
    for method in ALL_METHODS {
        if !MUTATIONS.contains(&method) {
            assert!(!matches!(route(method, "todos"), Route::Reject(_)));
        }
    }
}

#[test]
fn reads_of_a_virtual_table_are_answered_from_a_scan() {
    assert_eq!(route(StoreMethod::FetchSchema, "todos"), Route::VirtualSchema);
    assert_eq!(route(StoreMethod::FetchData, "todos"), Route::VirtualFetch);
    assert_eq!(route(StoreMethod::ScanData, "transcripts"), Route::VirtualScan);
    assert_eq!(route(StoreMethod::ScanIndexedData, "transcripts"), Route::VirtualScan);
    assert_eq!(route(StoreMethod::Begin, "transcripts"), Route::Delegate);
    assert_eq!(route(StoreMethod::FetchAllSchemas, "transcripts"), Route::Delegate);
    assert_eq!(route(StoreMethod::InsertFunction, "todos"), Route::Delegate);
}

#[test]
fn rejection_messages() {
    assert_eq!(
        write_rejected(StoreMethod::InsertData, "todos"),
        Error::WriteRejected(
            "Write operations on virtual multi-file tables not yet supported: table 'todos' is virtual and read-only"
                .to_string()
        )
    );
    assert_eq!(
        write_rejected(StoreMethod::InsertSchema, "t").message(),
        "Write rejected: Cannot create schema for virtual table: table 't' is virtual and read-only"
    );
    let detail = |m: StoreMethod| match write_rejected(m, "t") {
        Error::WriteRejected(d) => d,
        other => panic!("{:?}", other),
    };
    assert!(detail(StoreMethod::DeleteSchema).starts_with("Cannot delete virtual table schema:"));
    assert!(detail(StoreMethod::CreateIndex).starts_with("Cannot create index on virtual table:"));
    assert!(detail(StoreMethod::DropIndex).starts_with("Cannot drop index on virtual table:"));
    assert!(detail(StoreMethod::RenameSchema).starts_with("Cannot rename virtual table:"));
    assert!(detail(StoreMethod::AddColumn).starts_with("Cannot alter virtual table:"));
    assert!(detail(StoreMethod::DropColumn).starts_with("Cannot alter virtual table:"));
    assert!(detail(StoreMethod::RenameColumn).starts_with("Cannot alter virtual table:"));
}

#[test]
fn renaming_is_rejected_for_either_name() {
    assert!(matches!(route_rename("todos", "x"), Route::Reject(_)));
    assert!(matches!(route_rename("x", "transcripts"), Route::Reject(_)));
    assert_eq!(route_rename("x", "y"), Route::Delegate);
    assert_eq!(
        route_rename("history", "todos"),
        Route::Reject(Error::WriteRejected(
            "Cannot rename virtual table: table 'todos' is virtual and read-only".to_string()
        ))
    );
}

#[test]
fn counts_become_records() {
    let results = normalize_payloads(&vec![
        Payload::Insert(3),
        Payload::Update(0),
        Payload::Delete(7),
        Payload::Create,
        Payload::DropTable(1),
        Payload::Other,
    ]);
    assert_eq!(
        results,
        vec![
            object(vec![("operation", text("INSERT")), ("rows_affected", count(3))]),
            object(vec![("operation", text("UPDATE")), ("rows_affected", count(0))]),
            object(vec![("operation", text("DELETE")), ("rows_affected", count(7))]),
            object(vec![("operation", text("CREATE")), ("success", JsonValue::Bool(true))]),
            object(vec![("operation", text("DROP")), ("tables_dropped", count(1))]),
            object(vec![("result", text("ok"))]),
        ]
    );
}

#[test]
fn rows_become_records() {
    let select = Payload::Select {
        labels: vec!["a".to_string(), "b".to_string()],
        rows: vec![
            vec![EngineValue::I64(1), EngineValue::Str("x".to_string())],
            vec![EngineValue::Null],
            vec![EngineValue::Bool(true), EngineValue::I64(2), EngineValue::I64(3)],
        ],
    };
    let map = Payload::SelectMap(vec![
        vec![("k".to_string(), EngineValue::U8(9))],
        vec![],
    ]);
    let columns = Payload::ShowColumns(vec![
        ("id".to_string(), "Int".to_string()),
        ("name".to_string(), "Text".to_string()),
    ]);
    let results = normalize_payloads(&vec![select, map, columns]);
    assert_eq!(
        results,
        vec![
            object(vec![("a", count(1)), ("b", text("x"))]),
            object(vec![("a", JsonValue::Null)]),
            object(vec![("a", JsonValue::Bool(true)), ("b", count(2))]),
            object(vec![("k", count(9))]),
            object(vec![]),
            object(vec![("column_name", text("id")), ("column_type", text("Int"))]),
            object(vec![("column_name", text("name")), ("column_type", text("Text"))]),
        ]
    );
    assert!(normalize_payloads(&vec![]).is_empty());
}

#[test]
fn steps_of_a_read() {
    assert_eq!(engine(false, false).next_step("select 1", QueryEvent::Start), QueryStep::Run);
}

#[test]
fn steps_of_refused_and_shown_writes() {
    assert!(matches!(
        engine(false, false).next_step("delete from history where a", QueryEvent::Start),
        QueryStep::Refuse(Error::WriteNotAllowed(_))
    ));
    assert!(matches!(
        engine(true, false).next_step("delete from history", QueryEvent::Start),
        QueryStep::Refuse(Error::DangerousOperation(_))
    ));
    assert_eq!(
        engine(true, true).next_step("delete from history", QueryEvent::Start),
        QueryStep::Show("delete from history".to_string())
    );
}

#[test]
fn steps_of_a_write_with_a_backup() {
    let e = engine(true, false);
    let sql = "DELETE FROM history WHERE id=1";
    let step = e.next_step(sql, QueryEvent::Start);
    assert_eq!(
        step,
        QueryStep::ProbeCandidates {
            table: "history".to_string(),
            jsonl: "/data/history.jsonl".to_string(),
            json: "/data/history.json".to_string(),
        }
    );
    let step = e.next_step(
        sql,
        QueryEvent::CandidatesProbed { table: "history".to_string(), jsonl_exists: true, json_exists: false },
    );
    assert_eq!(
        step,
        QueryStep::ProbeSource {
            table: "history".to_string(),
            jsonl_exists: true,
            json_exists: false,
            path: "/data/history.jsonl".to_string(),
        }
    );
    let step = e.next_step(
        sql,
        QueryEvent::SourceProbed {
            table: "history".to_string(),
            jsonl_exists: true,
            json_exists: false,
            source_exists: true,
        },
    );
    let copy = BackupCopy {
        source: "/data/history.jsonl".to_string(),
        destination: "/data/history.jsonl.bak".to_string(),
    };
    assert_eq!(step, QueryStep::Copy(copy.clone()));
    assert_eq!(
        e.next_step(sql, QueryEvent::Copied { copy: copy.clone(), failure: None }),
        QueryStep::Run
    );
    assert_eq!(
        e.next_step(sql, QueryEvent::Copied { copy, failure: Some("no space".to_string()) }),
        QueryStep::Refuse(Error::BackupFailed(
            "Failed to backup /data/history.jsonl to /data/history.jsonl.bak: no space".to_string()
        ))
    );
}

#[test]
fn steps_of_a_write_without_a_backup() {
    let e = engine(true, false);
    assert_eq!(e.next_step("create table t (a int)", QueryEvent::Start), QueryStep::Run);
    assert_eq!(
        e.next_step(
            "x",
            QueryEvent::CandidatesProbed { table: "notes".to_string(), jsonl_exists: false, json_exists: false }
        ),
        QueryStep::Run
    );
    assert_eq!(
        e.next_step(
            "x",
            QueryEvent::CandidatesProbed { table: "notes".to_string(), jsonl_exists: false, json_exists: true }
        ),
        QueryStep::ProbeSource {
            table: "notes".to_string(),
            jsonl_exists: false,
            json_exists: true,
            path: "/data/notes.json".to_string(),
        }
    );
    assert_eq!(
        e.next_step(
            "x",
            QueryEvent::SourceProbed {
                table: "history".to_string(),
                jsonl_exists: false,
                json_exists: false,
                source_exists: false,
            }
        ),
        QueryStep::Run
    );
    let mut quiet = engine(true, false);
    quiet.disable_backups();
    assert_eq!(quiet.next_step("DELETE FROM history WHERE id=1", QueryEvent::Start), QueryStep::Run);
    assert_eq!(quiet.backup_order("history", false, false, true), None);
    assert_eq!(
        e.backup_order("history", false, false, true),
        Some(BackupCopy {
            source: "/data/history.jsonl".to_string(),
            destination: "/data/history.jsonl.bak".to_string(),
        })
    );
    assert_eq!(e.backup_order("nowhere", false, false, true), None);
}

#[test]
fn a_name_that_is_not_configured_is_not_found() {
    assert_eq!(configured_kind("history"), Ok(TableKind::Physical));
    assert_eq!(configured_kind("todos"), Ok(TableKind::Virtual));
    let err = configured_kind("nowhere").unwrap_err();
    assert_eq!(err, Error::TableNotFound("nowhere".to_string()));
    assert_eq!(err.error_kind(), ErrorKind::TableNotFound);
    assert_eq!(err.message(), "Table not found: nowhere");
}
