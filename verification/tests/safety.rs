use ccql::config::Config;
use ccql::error::{Error, ErrorKind};
use ccql::safety::{
    backup_extension, backup_failure, check_normalized, create_backup_path, extract_identifier,
    extract_table_name, is_delete_without_where, is_truncate, is_update_without_where,
    normalize_sql, restore_failure, table_name_in, BackupCopy, SafetyCheckResult, SafetyGuard,
};

fn guard() -> SafetyGuard {
    SafetyGuard::new(Config { data_dir: "/data".to_string() })
}

fn is_dangerous(result: &SafetyCheckResult) -> bool {
    matches!(result, SafetyCheckResult::Dangerous(_))
}

#[test]
fn test_is_delete_without_where() {
    let sql = normalize_sql("DELETE FROM history");
    assert!(is_delete_without_where(&sql));

    let sql = normalize_sql("DELETE FROM history WHERE id = 1");
    assert!(!is_delete_without_where(&sql));

    let sql = normalize_sql("  delete from history  ");
    assert!(is_delete_without_where(&sql));
}

#[test]
fn test_is_update_without_where() {
    let sql = normalize_sql("UPDATE history SET status = 'done'");
    assert!(is_update_without_where(&sql));

    let sql = normalize_sql("UPDATE history SET status = 'done' WHERE id = 1");
    assert!(!is_update_without_where(&sql));
}

#[test]
fn test_extract_table_name() {
    assert_eq!(
        extract_table_name("DELETE FROM history WHERE id = 1"),
        Some("history".to_string())
    );
    assert_eq!(
        extract_table_name("UPDATE todos SET status = 'done'"),
        Some("todos".to_string())
    );
    assert_eq!(
        extract_table_name("INSERT INTO history (col) VALUES (1)"),
        Some("history".to_string())
    );
    assert_eq!(extract_table_name("SELECT * FROM foo"), None);
}

#[test]
fn test_create_backup_path() {
    let backup = create_backup_path("/data/history.jsonl");
    assert_eq!(backup, "/data/history.jsonl.bak");

    let backup = create_backup_path("/data/stats.json");
    assert_eq!(backup, "/data/stats.json.bak");
}

#[test]
fn backup_path_without_extension_gets_bak() {
    assert_eq!(create_backup_path("/data/history"), "/data/history.bak");
    assert_eq!(create_backup_path("/data/history."), "/data/history.bak");
    assert_eq!(create_backup_path("/data/.hidden"), "/data/.hidden.bak");
}

#[test]
fn backup_extension_appends_or_stands_alone() {
    assert_eq!(backup_extension(Some("jsonl")), "jsonl.bak");
    assert_eq!(backup_extension(Some("")), "bak");
    assert_eq!(backup_extension(None), "bak");
}

#[test]
fn normalize_collapses_whitespace_and_uppercases() {
    assert_eq!(normalize_sql("  delete \t from\n\nhistory  "), "DELETE FROM HISTORY");
    assert_eq!(normalize_sql(""), "");
    assert_eq!(normalize_sql("   "), "");
    assert_eq!(normalize_sql("select"), "SELECT");
}

#[test]
fn guard_refuses_delete_without_where() {
    let result = guard().check_query("DELETE FROM history");
    assert_eq!(
        result,
        SafetyCheckResult::Dangerous(
            "DELETE without WHERE clause would delete all rows. Use 'DELETE FROM table WHERE 1=1' if you really want to delete everything."
                .to_string()
        )
    );
}

#[test]
fn guard_accepts_delete_with_where() {
    assert_eq!(guard().check_query("DELETE FROM history WHERE id=1"), SafetyCheckResult::Safe);
    assert_eq!(guard().check_query("delete from history\nwhere id = 1"), SafetyCheckResult::Safe);
}

#[test]
fn guard_refuses_update_without_where() {
    let result = guard().check_query("update history set display = 'x'");
    assert_eq!(
        result,
        SafetyCheckResult::Dangerous(
            "UPDATE without WHERE clause would modify all rows. Use 'UPDATE table SET ... WHERE 1=1' if you really want to update everything."
                .to_string()
        )
    );
    assert_eq!(
        guard().check_query("UPDATE history SET display = 'x' WHERE 1=1"),
        SafetyCheckResult::Safe
    );
}

#[test]
fn guard_refuses_truncate_always() {
    let result = guard().check_query("TRUNCATE history WHERE 1=1");
    assert_eq!(
        result,
        SafetyCheckResult::Dangerous(
            "TRUNCATE would delete all rows. Use DELETE with explicit WHERE clause instead."
                .to_string()
        )
    );
    assert!(is_truncate("TRUNCATE HISTORY"));
    assert!(!is_truncate("TRUNCATE"));
}

#[test]
fn guard_lets_other_statements_pass() {
    assert_eq!(guard().check_query("INSERT INTO history (display) VALUES ('x')"), SafetyCheckResult::Safe);
    assert_eq!(guard().check_query("CREATE TABLE t (a INT)"), SafetyCheckResult::Safe);
    assert_eq!(guard().check_query("SELECT * FROM history"), SafetyCheckResult::Safe);
    assert_eq!(guard().check_query(""), SafetyCheckResult::Safe);
}

#[test]
fn where_inside_a_literal_counts_as_where() {
    let result = guard().check_query("DELETE FROM history /* no WHERE here */");
    assert_eq!(result, SafetyCheckResult::Safe);
    assert!(is_dangerous(&check_normalized("DELETE FROM HISTORY WHERE")));
    assert!(!is_dangerous(&check_normalized("DELETE FROM HISTORY WHERE ")));
}

#[test]
fn where_decides_for_delete_and_update() {
    for statement in ["DELETE FROM T", "UPDATE T SET A = 1", "DELETE T", "UPDATE "] {
        assert!(is_dangerous(&check_normalized(statement)), "{}", statement);
        let with_where = format!("{} WHERE X", statement);
        assert!(!is_dangerous(&check_normalized(&with_where)), "{}", with_where);
    }
}

#[test]
fn identifier_ends_at_first_other_character() {
    assert_eq!(extract_identifier("  History_2 (a)"), Some("history_2".to_string()));
    assert_eq!(extract_identifier("history"), Some("history".to_string()));
    assert_eq!(extract_identifier("(a)"), None);
    assert_eq!(extract_identifier(""), None);
    assert_eq!(extract_identifier("   "), None);
}

#[test]
fn table_is_found_after_the_first_keyword_in_order() {
    assert_eq!(table_name_in("TRUNCATE HISTORY"), Some("history".to_string()));
    assert_eq!(
        table_name_in("INSERT INTO A SELECT * FROM B WHERE UPDATE C"),
        Some("c".to_string())
    );
    assert_eq!(table_name_in("DELETE FROM  WHERE"), Some("where".to_string()));
    assert_eq!(table_name_in("DELETE FROM ("), None);
    assert_eq!(table_name_in("DROP TABLE X"), None);
}

#[test]
fn table_paths_of_the_known_tables() {
    let g = guard();
    assert_eq!(g.get_table_path("history", false, false).unwrap(), "/data/history.jsonl");
    assert_eq!(g.get_table_path("stats", false, false).unwrap(), "/data/stats-cache.json");
}

#[test]
fn table_paths_of_other_tables_go_by_what_exists() {
    let g = guard();
    assert_eq!(g.table_file_candidates("notes"), ("/data/notes.jsonl".to_string(), "/data/notes.json".to_string()));
    assert_eq!(g.get_table_path("notes", true, true).unwrap(), "/data/notes.jsonl");
    assert_eq!(g.get_table_path("notes", false, true).unwrap(), "/data/notes.json");
    let err = g.get_table_path("notes", false, false).unwrap_err();
    assert_eq!(err, Error::Sql("Cannot determine file path for table: notes".to_string()));
    assert_eq!(err.error_kind(), ErrorKind::Sql);
    assert_eq!(err.message(), "SQL error: Cannot determine file path for table: notes");
}

#[test]
fn backup_is_owed_for_an_existing_file() {
    let g = guard();
    let order = g.backup_table("history", false, false, true).unwrap();
    assert_eq!(
        order,
        Some(BackupCopy {
            source: "/data/history.jsonl".to_string(),
            destination: "/data/history.jsonl.bak".to_string(),
        })
    );
}

#[test]
fn no_backup_for_a_missing_file_or_a_disabled_guard() {
    let mut g = guard();
    assert!(g.is_backup_enabled());
    assert_eq!(g.backup_table("history", false, false, false).unwrap(), None);
    g.disable_backups();
    assert!(!g.is_backup_enabled());
    assert_eq!(g.backup_table("history", false, false, true).unwrap(), None);
    assert_eq!(g.backup_table("nowhere", false, false, true).unwrap(), None);
}

#[test]
fn backup_of_a_table_without_a_file_fails() {
    let err = guard().backup_table("nowhere", false, false, true).unwrap_err();
    assert_eq!(err.error_kind(), ErrorKind::Sql);
}

#[test]
fn restore_goes_from_the_backup_to_the_file() {
    let g = guard();
    let order = g.restore_from_backup("stats", false, false, true).unwrap();
    assert_eq!(
        order,
        Some(BackupCopy {
            source: "/data/stats-cache.json.bak".to_string(),
            destination: "/data/stats-cache.json".to_string(),
        })
    );
    assert_eq!(g.restore_from_backup("stats", false, false, false).unwrap(), None);
    assert!(g.restore_from_backup("nowhere", false, false, true).is_err());
}

#[test]
fn copy_failures_name_both_paths_and_the_cause() {
    let copy = BackupCopy { source: "/d/a.jsonl".to_string(), destination: "/d/a.jsonl.bak".to_string() };
    let err = backup_failure(&copy, "disk full");
    assert_eq!(
        err,
        Error::BackupFailed("Failed to backup /d/a.jsonl to /d/a.jsonl.bak: disk full".to_string())
    );
    assert_eq!(
        err.message(),
        "Backup failed: Failed to backup /d/a.jsonl to /d/a.jsonl.bak: disk full"
    );
    let back = BackupCopy { source: "/d/a.jsonl.bak".to_string(), destination: "/d/a.jsonl".to_string() };
    assert_eq!(
        restore_failure(&back, "gone"),
        Error::BackupFailed("Failed to restore /d/a.jsonl from /d/a.jsonl.bak: gone".to_string())
    );
}
