//! The guard before write statements: which statements are refused as
//! dangerous, which table a statement writes to, and where the copy of a
//! table's file goes before the write.
//!
//! A statement is judged by its text, not by parsing it: a `WHERE` inside a
//! string literal or a subquery counts like any other.

use vstd::prelude::*;
use crate::config::{child_path, join_path, Config};
use crate::error::{Error, ErrorKind};
use crate::paths::{extension_of, path_extension, path_with_extension, set_path_extension};
use crate::text::{
    chars_of, collapse_whitespace, collapsed, concat, contains, contains_text, find,
    first_occurrence, lowercase_of, owned, slice_chars, starts_with, str_equal, string_of,
    text_option, to_lower, to_upper, trim, trimmed, uppercase_of, char_is_alphanumeric,
};

verus! {

// ---------------------------------------------------------------------------
// The verdict on a statement
// ---------------------------------------------------------------------------

/// The outcome of the guard's check of one statement.
#[derive(Clone, Debug, PartialEq, Eq)]
pub enum SafetyCheckResult {
    /// The statement may run.
    Safe,
    /// The statement is refused; the text says why and what to write instead.
    Dangerous(String),
}

/// The model of a `SafetyCheckResult`.
pub ghost enum SafetyVerdict {
    Safe,
    Dangerous(Seq<char>),
}

impl View for SafetyCheckResult {
    type V = SafetyVerdict;

    open spec fn view(&self) -> SafetyVerdict {
        match self {
            SafetyCheckResult::Safe => SafetyVerdict::Safe,
            SafetyCheckResult::Dangerous(reason) => SafetyVerdict::Dangerous(reason@),
        }
    }
}

/// The form in which a statement is matched: whitespace collapsed, then
/// upper case.
pub open spec fn normalized(sql: Seq<char>) -> Seq<char> {
    uppercase_of(collapsed(sql))
}

/// A normalized statement that begins with `DELETE ` and holds no ` WHERE `.
pub open spec fn delete_without_where(n: Seq<char>) -> bool {
    "DELETE "@.is_prefix_of(n) && !contains_text(n, " WHERE "@)
}

/// A normalized statement that begins with `UPDATE ` and holds no ` WHERE `.
pub open spec fn update_without_where(n: Seq<char>) -> bool {
    "UPDATE "@.is_prefix_of(n) && !contains_text(n, " WHERE "@)
}

/// A normalized statement that begins with `TRUNCATE `.
pub open spec fn truncate_statement(n: Seq<char>) -> bool {
    "TRUNCATE "@.is_prefix_of(n)
}

/// Why a `DELETE` without `WHERE` is refused.
pub open spec fn delete_reason() -> Seq<char> {
    "DELETE without WHERE clause would delete all rows. Use 'DELETE FROM table WHERE 1=1' if you really want to delete everything."@
}

/// Why an `UPDATE` without `WHERE` is refused.
pub open spec fn update_reason() -> Seq<char> {
    "UPDATE without WHERE clause would modify all rows. Use 'UPDATE table SET ... WHERE 1=1' if you really want to update everything."@
}

/// Why a `TRUNCATE` is refused.
pub open spec fn truncate_reason() -> Seq<char> {
    "TRUNCATE would delete all rows. Use DELETE with explicit WHERE clause instead."@
}

/// The verdict on a normalized statement.
pub open spec fn verdict_of(n: Seq<char>) -> SafetyVerdict {
    if delete_without_where(n) {
        SafetyVerdict::Dangerous(delete_reason())
    } else if update_without_where(n) {
        SafetyVerdict::Dangerous(update_reason())
    } else if truncate_statement(n) {
        SafetyVerdict::Dangerous(truncate_reason())
    } else {
        SafetyVerdict::Safe
    }
}

/// For a `DELETE` or an `UPDATE`, the presence of ` WHERE ` alone decides:
/// a normalized statement that begins with `DELETE ` or `UPDATE ` is
/// dangerous where it holds no ` WHERE `, and safe where it holds one
/// anywhere. This is a match on the text, not a reading of the statement.
pub proof fn lemma_where_decides(n: Seq<char>)
    requires
        "DELETE "@.is_prefix_of(n) || "UPDATE "@.is_prefix_of(n),
    ensures
        !contains_text(n, " WHERE "@) ==> verdict_of(n) is Dangerous,
        contains_text(n, " WHERE "@) ==> verdict_of(n) is Safe,
{
    reveal_strlit("DELETE ");
    reveal_strlit("UPDATE ");
    reveal_strlit("TRUNCATE ");
    if "DELETE "@.is_prefix_of(n) {
        assert(n[0] == "DELETE "@[0]);
    } else {
        assert(n[0] == "UPDATE "@[0]);
    }
    if "TRUNCATE "@.is_prefix_of(n) {
        assert(n[0] == "TRUNCATE "@[0]);
    }
}

/// The statement in the form in which it is matched.
pub fn normalize_sql(sql: &str) -> (r: String)
    ensures
        r@ == normalized(sql@),
{
    let chars = chars_of(sql);
    let collapsed_chars = collapse_whitespace(&chars);
    let upper = to_upper(&collapsed_chars);
    string_of(&upper)
}

/// Whether the normalized statement is a `DELETE` without `WHERE`.
pub fn is_delete_without_where(sql_normalized: &str) -> (r: bool)
    ensures
        r == delete_without_where(sql_normalized@),
{
    let n = chars_of(sql_normalized);
    if !starts_with(&n, &chars_of("DELETE ")) {
        return false;
    }
    !contains(&n, &chars_of(" WHERE "))
}

/// Whether the normalized statement is an `UPDATE` without `WHERE`.
pub fn is_update_without_where(sql_normalized: &str) -> (r: bool)
    ensures
        r == update_without_where(sql_normalized@),
{
    let n = chars_of(sql_normalized);
    if !starts_with(&n, &chars_of("UPDATE ")) {
        return false;
    }
    !contains(&n, &chars_of(" WHERE "))
}

/// Whether the normalized statement is a `TRUNCATE`.
pub fn is_truncate(sql_normalized: &str) -> (r: bool)
    ensures
        r == truncate_statement(sql_normalized@),
{
    let n = chars_of(sql_normalized);
    starts_with(&n, &chars_of("TRUNCATE "))
}

/// The verdict on a statement that is already normalized.
pub fn check_normalized(sql_normalized: &str) -> (r: SafetyCheckResult)
    ensures
        r@ == verdict_of(sql_normalized@),
{
    if is_delete_without_where(sql_normalized) {
        return SafetyCheckResult::Dangerous(
            owned(
                "DELETE without WHERE clause would delete all rows. Use 'DELETE FROM table WHERE 1=1' if you really want to delete everything.",
            ),
        );
    }
    if is_update_without_where(sql_normalized) {
        return SafetyCheckResult::Dangerous(
            owned(
                "UPDATE without WHERE clause would modify all rows. Use 'UPDATE table SET ... WHERE 1=1' if you really want to update everything.",
            ),
        );
    }
    if is_truncate(sql_normalized) {
        return SafetyCheckResult::Dangerous(
            owned("TRUNCATE would delete all rows. Use DELETE with explicit WHERE clause instead."),
        );
    }
    SafetyCheckResult::Safe
}

// ---------------------------------------------------------------------------
// The table that a statement writes to
// ---------------------------------------------------------------------------

/// A character that may stand in a table's name.
pub open spec fn is_identifier_char(c: char) -> bool {
    char_is_alphanumeric(c) || c == '_'
}

/// How many characters at the start of `s` may stand in a table's name.
pub open spec fn identifier_prefix_len(s: Seq<char>) -> nat
    decreases s.len(),
{
    if s.len() > 0 && is_identifier_char(s[0]) {
        1 + identifier_prefix_len(s.drop_first())
    } else {
        0
    }
}

/// The name at the start of `s`, in lower case: `s` is trimmed, and the name
/// ends before the first character that may not stand in one. There is none
/// where that character comes first.
pub open spec fn identifier_of(s: Seq<char>) -> Option<Seq<char>> {
    let t = trimmed(s);
    let n = identifier_prefix_len(t);
    if n > 0 {
        Some(lowercase_of(t.take(n as int)))
    } else {
        None
    }
}

/// What follows the leftmost `keyword` in `n`.
pub open spec fn text_after(n: Seq<char>, keyword: Seq<char>) -> Seq<char> {
    match first_occurrence(n, keyword) {
        Some(i) => n.skip(i + keyword.len()),
        None => Seq::empty(),
    }
}

/// The table that a normalized statement writes to: the name that follows
/// the first of `DELETE FROM `, `UPDATE `, `INSERT INTO ` and `TRUNCATE `
/// that the statement holds, tried in this order.
pub open spec fn table_in_normalized(n: Seq<char>) -> Option<Seq<char>> {
    if contains_text(n, "DELETE FROM "@) {
        identifier_of(text_after(n, "DELETE FROM "@))
    } else if contains_text(n, "UPDATE "@) {
        identifier_of(text_after(n, "UPDATE "@))
    } else if contains_text(n, "INSERT INTO "@) {
        identifier_of(text_after(n, "INSERT INTO "@))
    } else if contains_text(n, "TRUNCATE "@) {
        identifier_of(text_after(n, "TRUNCATE "@))
    } else {
        None
    }
}

fn identifier_in(s: &Vec<char>) -> (r: Option<String>)
    ensures
        text_option(r) == identifier_of(s@),
{
    let t = trim(s);
    let mut end: usize = 0;
    assert(t@.skip(0) == t@);
    while end < t.len() && (t[end].is_alphanumeric() || t[end] == '_')
        invariant
            end <= t.len(),
            identifier_prefix_len(t@) == end + identifier_prefix_len(t@.skip(end as int)),
        decreases t.len() - end,
    {
        assert(t@.skip(end as int).drop_first() == t@.skip(end + 1));
        end += 1;
    }
    if end > 0 {
        let name = slice_chars(&t, 0, end);
        assert(t@.subrange(0, end as int) == t@.take(end as int));
        let lower = to_lower(&name);
        Some(string_of(&lower))
    } else {
        None
    }
}

/// The name at the start of `s`, in lower case.
pub fn extract_identifier(s: &str) -> (r: Option<String>)
    ensures
        text_option(r) == identifier_of(s@),
{
    let chars = chars_of(s);
    identifier_in(&chars)
}

fn identifier_after(n: &Vec<char>, keyword: &Vec<char>, at: usize) -> (r: Option<String>)
    requires
        first_occurrence(n@, keyword@) == Some(at as int),
        at + keyword.len() <= n.len(),
    ensures
        text_option(r) == identifier_of(text_after(n@, keyword@)),
{
    let rest = slice_chars(n, at + keyword.len(), n.len());
    assert(n@.subrange(at + keyword.len(), n.len() as int) == n@.skip(at + keyword.len()));
    identifier_in(&rest)
}

/// The table that a statement writes to, found in its normalized form.
pub fn table_name_in(sql_normalized: &str) -> (r: Option<String>)
    ensures
        text_option(r) == table_in_normalized(sql_normalized@),
{
    let n = chars_of(sql_normalized);
    let delete_from = chars_of("DELETE FROM ");
    if let Some(at) = find(&n, &delete_from) {
        return identifier_after(&n, &delete_from, at);
    }
    let update = chars_of("UPDATE ");
    if let Some(at) = find(&n, &update) {
        return identifier_after(&n, &update, at);
    }
    let insert_into = chars_of("INSERT INTO ");
    if let Some(at) = find(&n, &insert_into) {
        return identifier_after(&n, &insert_into, at);
    }
    let truncate = chars_of("TRUNCATE ");
    if let Some(at) = find(&n, &truncate) {
        return identifier_after(&n, &truncate, at);
    }
    None
}

/// The table that a statement writes to.
pub fn extract_table_name(sql: &str) -> (r: Option<String>)
    ensures
        text_option(r) == table_in_normalized(normalized(sql@)),
{
    let sql_normalized = normalize_sql(sql);
    table_name_in(sql_normalized.as_str())
}

// ---------------------------------------------------------------------------
// Backups
// ---------------------------------------------------------------------------

/// The extension of the copy of a file whose own extension is `extension`:
/// `.bak` after the file's extension, or `bak` alone where the file has none
/// or an empty one.
pub open spec fn backup_extension_of(extension: Option<Seq<char>>) -> Seq<char> {
    match extension {
        Some(e) => if e.len() == 0 {
            "bak"@
        } else {
            e + ".bak"@
        },
        None => "bak"@,
    }
}

/// The path of the copy of the file at `path`.
pub open spec fn backup_path_of(path: Seq<char>) -> Seq<char> {
    path_with_extension(path, backup_extension_of(extension_of(path)))
}

proof fn lemma_bak_has_no_separator()
    ensures
        !"bak"@.contains('/'),
        !".bak"@.contains('/'),
{
    reveal_strlit("bak");
    reveal_strlit(".bak");
}

/// The extension of the copy of a file with the given extension.
pub fn backup_extension(extension: Option<&str>) -> (r: String)
    ensures
        r@ == backup_extension_of(
            match extension {
                Some(e) => Some(e@),
                None => None,
            },
        ),
        match extension {
            Some(e) => !e@.contains('/'),
            None => true,
        } ==> !r@.contains('/'),
{
    proof {
        lemma_bak_has_no_separator();
    }
    match extension {
        Some(e) => {
            if e.is_empty() {
                owned("bak")
            } else {
                let r = concat(e, ".bak");
                assert(!e@.contains('/') ==> !r@.contains('/')) by {
                    if !e@.contains('/') {
                        assert forall|i: int| 0 <= i < r@.len() implies r@[i] != '/' by {
                            if i < e@.len() {
                                assert(e@.contains(r@[i]));
                            } else {
                                assert(".bak"@.contains(r@[i])) by {
                                    assert(".bak"@[i - e@.len()] == r@[i]);
                                }
                            }
                        }
                    }
                }
                r
            }
        },
        None => owned("bak"),
    }
}

/// The path of the copy of the file at `path`, beside it.
pub fn create_backup_path(path: &str) -> (r: String)
    ensures
        r@ == backup_path_of(path@),
{
    let extension = path_extension(path);
    let new_extension = match &extension {
        Some(e) => backup_extension(Some(e.as_str())),
        None => backup_extension(None),
    };
    set_path_extension(path, new_extension.as_str())
}

/// A copy that is owed: of the file at `source`, to `destination`.
#[derive(Clone, Debug, PartialEq, Eq)]
pub struct BackupCopy {
    pub source: String,
    pub destination: String,
}

/// The detail of the failure of a copy.
pub open spec fn copy_failure_detail(
    verb: Seq<char>,
    link: Seq<char>,
    first: Seq<char>,
    second: Seq<char>,
    cause: Seq<char>,
) -> Seq<char> {
    "Failed to "@ + verb + " "@ + first + link + second + ": "@ + cause
}

fn copy_failure(verb: &str, link: &str, first: &str, second: &str, cause: &str) -> (r: Error)
    ensures
        r.kind() == ErrorKind::BackupFailed,
        r.detail() == copy_failure_detail(verb@, link@, first@, second@, cause@),
{
    let a = concat("Failed to ", verb);
    let b = concat(a.as_str(), " ");
    let c = concat(b.as_str(), first);
    let d = concat(c.as_str(), link);
    let e = concat(d.as_str(), second);
    let f = concat(e.as_str(), ": ");
    let g = concat(f.as_str(), cause);
    Error::BackupFailed(g)
}

/// The failure to report when the copy before a write could not be made.
pub fn backup_failure(copy: &BackupCopy, cause: &str) -> (r: Error)
    ensures
        r.kind() == ErrorKind::BackupFailed,
        r.detail() == copy_failure_detail(
            "backup"@,
            " to "@,
            copy.source@,
            copy.destination@,
            cause@,
        ),
{
    copy_failure("backup", " to ", copy.source.as_str(), copy.destination.as_str(), cause)
}

/// The failure to report when a table's file could not be brought back from
/// its copy. `copy` is the order that `restore_from_backup` gave: its
/// destination is the table's file.
pub fn restore_failure(copy: &BackupCopy, cause: &str) -> (r: Error)
    ensures
        r.kind() == ErrorKind::BackupFailed,
        r.detail() == copy_failure_detail(
            "restore"@,
            " from "@,
            copy.destination@,
            copy.source@,
            cause@,
        ),
{
    copy_failure("restore", " from ", copy.destination.as_str(), copy.source.as_str(), cause)
}

/// The file of the table `table` under the data directory `dir`, or the
/// detail of the failure to find one. The two flags say whether the files
/// `<table>.jsonl` and `<table>.json` are there; they count only for a table
/// other than `history` and `stats`.
pub open spec fn table_path_of(
    dir: Seq<char>,
    table: Seq<char>,
    jsonl_exists: bool,
    json_exists: bool,
) -> Result<Seq<char>, Seq<char>> {
    if table == "history"@ {
        Ok(child_path(dir, "history.jsonl"@))
    } else if table == "stats"@ {
        Ok(child_path(dir, "stats-cache.json"@))
    } else if jsonl_exists {
        Ok(child_path(dir, table + ".jsonl"@))
    } else if json_exists {
        Ok(child_path(dir, table + ".json"@))
    } else {
        Err("Cannot determine file path for table: "@ + table)
    }
}

/// The copy that is owed before a write to `table`, if one is.
pub open spec fn backup_order_of(
    enabled: bool,
    dir: Seq<char>,
    table: Seq<char>,
    jsonl_exists: bool,
    json_exists: bool,
    source_exists: bool,
) -> Result<Option<(Seq<char>, Seq<char>)>, Seq<char>> {
    if !enabled {
        Ok(None)
    } else {
        match table_path_of(dir, table, jsonl_exists, json_exists) {
            Err(detail) => Err(detail),
            Ok(path) => if source_exists {
                Ok(Some((path, backup_path_of(path))))
            } else {
                Ok(None)
            },
        }
    }
}

/// The model of the answer of `backup_table` and `restore_from_backup`.
pub open spec fn copy_order_view(r: Result<Option<BackupCopy>, Error>) -> Result<
    Option<(Seq<char>, Seq<char>)>,
    Seq<char>,
> {
    match r {
        Ok(Some(copy)) => Ok(Some((copy.source@, copy.destination@))),
        Ok(None) => Ok(None),
        Err(e) => Err(e.detail()),
    }
}

/// The guard: the data directory, and whether it makes copies.
pub struct SafetyGuard {
    config: Config,
    backup_enabled: bool,
}

impl SafetyGuard {
    /// The data directory of this guard.
    pub closed spec fn data_dir(&self) -> Seq<char> {
        self.config.data_dir@
    }

    /// Whether this guard makes a copy before a write.
    pub closed spec fn backups_enabled(&self) -> bool {
        self.backup_enabled
    }

    /// A guard for the data directory of `config`, which makes copies.
    pub fn new(config: Config) -> (guard: SafetyGuard)
        ensures
            guard.data_dir() == config.data_dir@,
            guard.backups_enabled(),
    {
        SafetyGuard { config, backup_enabled: true }
    }

    /// Stops the guard from making copies.
    pub fn disable_backups(&mut self)
        ensures
            !final(self).backups_enabled(),
            final(self).data_dir() == old(self).data_dir(),
    {
        self.backup_enabled = false;
    }

    /// Whether the guard makes a copy before a write.
    pub fn is_backup_enabled(&self) -> (r: bool)
        ensures
            r == self.backups_enabled(),
    {
        self.backup_enabled
    }

    /// The verdict on a statement.
    pub fn check_query(&self, sql: &str) -> (r: SafetyCheckResult)
        ensures
            r@ == verdict_of(normalized(sql@)),
    {
        let sql_normalized = normalize_sql(sql);
        check_normalized(sql_normalized.as_str())
    }

    /// The paths `<table>.jsonl` and `<table>.json` under the data
    /// directory, whose presence `get_table_path` asks for.
    pub fn table_file_candidates(&self, table_name: &str) -> (r: (String, String))
        ensures
            r.0@ == child_path(self.data_dir(), table_name@ + ".jsonl"@),
            r.1@ == child_path(self.data_dir(), table_name@ + ".json"@),
    {
        let jsonl_name = concat(table_name, ".jsonl");
        let json_name = concat(table_name, ".json");
        (
            join_path(self.config.data_dir.as_str(), jsonl_name.as_str()),
            join_path(self.config.data_dir.as_str(), json_name.as_str()),
        )
    }

    /// The file of a table. `jsonl_exists` and `json_exists` say whether
    /// the two paths of `table_file_candidates` are there.
    pub fn get_table_path(&self, table_name: &str, jsonl_exists: bool, json_exists: bool) -> (r:
        Result<String, Error>)
        ensures
            match r {
                Ok(path) => table_path_of(self.data_dir(), table_name@, jsonl_exists, json_exists)
                    == Ok::<Seq<char>, Seq<char>>(path@),
                Err(e) => e.kind() == ErrorKind::Sql && table_path_of(
                    self.data_dir(),
                    table_name@,
                    jsonl_exists,
                    json_exists,
                ) == Err::<Seq<char>, Seq<char>>(e.detail()),
            },
    {
        if str_equal(table_name, "history") {
            return Ok(self.config.history_file());
        }
        if str_equal(table_name, "stats") {
            return Ok(self.config.stats_file());
        }
        let candidates = self.table_file_candidates(table_name);
        if jsonl_exists {
            return Ok(candidates.0);
        }
        if json_exists {
            return Ok(candidates.1);
        }
        Err(Error::Sql(concat("Cannot determine file path for table: ", table_name)))
    }

    /// The copy that is owed before a write to the table: none where the
    /// guard makes no copies or the table's file is not there yet.
    /// `source_exists` says whether the file of `get_table_path` is there.
    pub fn backup_table(
        &self,
        table_name: &str,
        jsonl_exists: bool,
        json_exists: bool,
        source_exists: bool,
    ) -> (r: Result<Option<BackupCopy>, Error>)
        ensures
            copy_order_view(r) == backup_order_of(
                self.backups_enabled(),
                self.data_dir(),
                table_name@,
                jsonl_exists,
                json_exists,
                source_exists,
            ),
            r is Err ==> r->Err_0.kind() == ErrorKind::Sql,
    {
        if !self.backup_enabled {
            return Ok(None);
        }
        let source = match self.get_table_path(table_name, jsonl_exists, json_exists) {
            Ok(path) => path,
            Err(e) => {
                return Err(e);
            },
        };
        if !source_exists {
            return Ok(None);
        }
        let destination = create_backup_path(source.as_str());
        Ok(Some(BackupCopy { source, destination }))
    }

    /// The copy that brings a table's file back from its backup: none where
    /// there is no backup. `backup_exists` says whether the file at
    /// `create_backup_path` of the table's file is there.
    pub fn restore_from_backup(
        &self,
        table_name: &str,
        jsonl_exists: bool,
        json_exists: bool,
        backup_exists: bool,
    ) -> (r: Result<Option<BackupCopy>, Error>)
        ensures
            copy_order_view(r) == match table_path_of(
                self.data_dir(),
                table_name@,
                jsonl_exists,
                json_exists,
            ) {
                Err(detail) => Err(detail),
                Ok(path) => if backup_exists {
                    Ok(Some((backup_path_of(path), path)))
                } else {
                    Ok(None)
                },
            },
            r is Err ==> r->Err_0.kind() == ErrorKind::Sql,
    {
        let table_file = match self.get_table_path(table_name, jsonl_exists, json_exists) {
            Ok(path) => path,
            Err(e) => {
                return Err(e);
            },
        };
        if !backup_exists {
            return Ok(None);
        }
        let backup = create_backup_path(table_file.as_str());
        Ok(Some(BackupCopy { source: backup, destination: table_file }))
    }
}

} // verus!
