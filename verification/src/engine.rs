//! The query orchestrator: what is done with a statement before it reaches
//! the SQL engine, and the one shape into which the engine's answers are
//! brought.

use vstd::prelude::*;
use crate::codec::{
    engine_to_json, fields_to_json, fields_to_json_members, glue_value_to_json,
};
use crate::config::{child_path, Config};
use crate::error::{Error, ErrorKind};
use crate::safety::{
    normalize_sql, normalized, table_in_normalized, table_name_in, verdict_of,
    BackupCopy, SafetyCheckResult, SafetyGuard, SafetyVerdict, check_normalized, backup_failure,
    backup_order_of, copy_failure_detail, table_path_of,
};
use crate::schema::{existing_tables, list_existing_tables, names_view, TablePresence};
use crate::text::{
    chars_of, owned, starts_with, string_of, text_option, to_upper, trim, trimmed,
    uppercase_of,
};
use crate::value::{
    engine_fields_view, engine_items_view, json_items_view, json_members_view,
    lemma_json_object_view, EngineValue, EngineView, JsonNumber, JsonValue, JsonView,
};

verus! {

// ---------------------------------------------------------------------------
// Which statements write
// ---------------------------------------------------------------------------

/// Whether the text begins with one of the words with which a statement
/// that writes begins.
pub open spec fn begins_with_write_word(upper: Seq<char>) -> bool {
    "INSERT"@.is_prefix_of(upper) || "UPDATE"@.is_prefix_of(upper) || "DELETE"@.is_prefix_of(
        upper,
    ) || "DROP"@.is_prefix_of(upper) || "CREATE"@.is_prefix_of(upper) || "ALTER"@.is_prefix_of(
        upper,
    ) || "TRUNCATE"@.is_prefix_of(upper)
}

/// Whether the statement writes: trimmed and in upper case, it begins with
/// one of those words.
pub open spec fn is_write_text(sql: Seq<char>) -> bool {
    begins_with_write_word(uppercase_of(trimmed(sql)))
}

/// Whether the text, which is trimmed and in upper case, begins with one of
/// the words with which a statement that writes begins.
pub fn is_write_word(upper: &str) -> (r: bool)
    ensures
        r == begins_with_write_word(upper@),
{
    let u = chars_of(upper);
    starts_with(&u, &chars_of("INSERT")) || starts_with(&u, &chars_of("UPDATE")) || starts_with(
        &u,
        &chars_of("DELETE"),
    ) || starts_with(&u, &chars_of("DROP")) || starts_with(&u, &chars_of("CREATE"))
        || starts_with(&u, &chars_of("ALTER")) || starts_with(&u, &chars_of("TRUNCATE"))
}

/// Whether the statement writes.
pub fn is_write_operation(sql: &str) -> (r: bool)
    ensures
        r == is_write_text(sql@),
{
    let chars = chars_of(sql);
    let trimmed_chars = trim(&chars);
    let upper = to_upper(&trimmed_chars);
    is_write_word(string_of(&upper).as_str())
}

/// Whether the statement writes.
pub fn is_write_operation_public(sql: &str) -> (r: bool)
    ensures
        r == is_write_text(sql@),
{
    is_write_operation(sql)
}

// ---------------------------------------------------------------------------
// What is done with a statement
// ---------------------------------------------------------------------------

/// How statements are run.
#[derive(Clone, Copy, Debug, PartialEq, Eq, Structural)]
pub struct SqlOptions {
    /// Whether statements that write may run.
    pub write_enabled: bool,
    /// Whether a statement that writes is only shown, not run.
    pub dry_run: bool,
}

impl Default for SqlOptions {
    fn default() -> (r: SqlOptions)
        ensures
            !r.write_enabled,
            !r.dry_run,
    {
        SqlOptions { write_enabled: false, dry_run: false }
    }
}

/// What is done with a statement.
#[derive(Clone, Debug, PartialEq, Eq)]
pub enum QueryPlan {
    /// The statement writes and is only shown: its text is handed back, and
    /// neither the guard nor the engine sees it.
    Preview(String),
    /// The statement is refused and does not reach the engine.
    Refuse(Error),
    /// The statement reads: it goes to the engine as it is.
    Read,
    /// The statement writes and may run, once the file of `table`, where
    /// one is named, has been copied.
    Write { table: Option<String> },
}

/// The model of a `QueryPlan`.
pub ghost enum QueryPlanView {
    Preview(Seq<char>),
    Refuse(ErrorKind, Seq<char>),
    Read,
    Write(Option<Seq<char>>),
}

impl View for QueryPlan {
    type V = QueryPlanView;

    open spec fn view(&self) -> QueryPlanView {
        match self {
            QueryPlan::Preview(sql) => QueryPlanView::Preview(sql@),
            QueryPlan::Refuse(e) => QueryPlanView::Refuse(e.kind(), e.detail()),
            QueryPlan::Read => QueryPlanView::Read,
            QueryPlan::Write { table } => QueryPlanView::Write(text_option(*table)),
        }
    }
}

/// What a statement that writes is refused with while writing is not
/// enabled.
pub open spec fn write_not_allowed_detail() -> Seq<char> {
    "Write operations require --write flag. Use --dry-run to preview changes."@
}

/// What is done with the statement `sql` under the given options:
/// a statement that reads runs; one that writes is shown where only that
/// is asked, refused where writing is not enabled, refused where the guard
/// finds it dangerous, and else runs after the copy of its table's file.
pub open spec fn plan_of(sql: Seq<char>, options: SqlOptions) -> QueryPlanView {
    if !is_write_text(sql) {
        QueryPlanView::Read
    } else if options.dry_run {
        QueryPlanView::Preview(sql)
    } else if !options.write_enabled {
        QueryPlanView::Refuse(ErrorKind::WriteNotAllowed, write_not_allowed_detail())
    } else {
        match verdict_of(normalized(sql)) {
            SafetyVerdict::Dangerous(reason) => QueryPlanView::Refuse(
                ErrorKind::DangerousOperation,
                reason,
            ),
            SafetyVerdict::Safe => QueryPlanView::Write(table_in_normalized(normalized(sql))),
        }
    }
}

/// What is done with a statement, given whether it writes and its
/// normalized form.
pub open spec fn plan_from(
    sql: Seq<char>,
    writes: bool,
    sql_normalized: Seq<char>,
    options: SqlOptions,
) -> QueryPlanView {
    if !writes {
        QueryPlanView::Read
    } else if options.dry_run {
        QueryPlanView::Preview(sql)
    } else if !options.write_enabled {
        QueryPlanView::Refuse(ErrorKind::WriteNotAllowed, write_not_allowed_detail())
    } else {
        match verdict_of(sql_normalized) {
            SafetyVerdict::Dangerous(reason) => QueryPlanView::Refuse(
                ErrorKind::DangerousOperation,
                reason,
            ),
            SafetyVerdict::Safe => QueryPlanView::Write(table_in_normalized(sql_normalized)),
        }
    }
}

/// What is done with a statement, given whether it writes and its
/// normalized form.
pub fn plan_statement(sql: &str, writes: bool, sql_normalized: &str, options: SqlOptions) -> (r:
    QueryPlan)
    ensures
        r@ == plan_from(sql@, writes, sql_normalized@, options),
{
    if !writes {
        return QueryPlan::Read;
    }
    if options.dry_run {
        return QueryPlan::Preview(owned(sql));
    }
    if !options.write_enabled {
        return QueryPlan::Refuse(
            Error::WriteNotAllowed(
                owned("Write operations require --write flag. Use --dry-run to preview changes."),
            ),
        );
    }
    match check_normalized(sql_normalized) {
        SafetyCheckResult::Dangerous(reason) => QueryPlan::Refuse(
            Error::DangerousOperation(reason),
        ),
        SafetyCheckResult::Safe => QueryPlan::Write { table: table_name_in(sql_normalized) },
    }
}

/// A statement that the guard finds dangerous never runs: where it writes,
/// it is shown or refused, whatever the options.
pub proof fn lemma_dangerous_never_runs(sql: Seq<char>, options: SqlOptions)
    requires
        is_write_text(sql),
        verdict_of(normalized(sql)) is Dangerous,
    ensures
        plan_of(sql, options) is Preview || plan_of(sql, options) is Refuse,
{
}

/// While writing is not enabled, no statement that writes runs: it is
/// shown where only that is asked, and refused with `WriteNotAllowed`
/// where it is not.
pub proof fn lemma_writes_need_leave(sql: Seq<char>, options: SqlOptions)
    requires
        is_write_text(sql),
        !options.write_enabled,
    ensures
        options.dry_run ==> plan_of(sql, options) == QueryPlanView::Preview(sql),
        !options.dry_run ==> plan_of(sql, options) == QueryPlanView::Refuse(
            ErrorKind::WriteNotAllowed,
            write_not_allowed_detail(),
        ),
{
}

/// A statement that only reads runs as it is, whatever the options.
pub proof fn lemma_reads_run(sql: Seq<char>, options: SqlOptions)
    requires
        !is_write_text(sql),
    ensures
        plan_of(sql, options) == QueryPlanView::Read,
{
}

/// The orchestrator's own state: the data directory, the options under
/// which statements run, and the guard.
pub struct SqlEngine {
    config: Config,
    options: SqlOptions,
    safety_guard: SafetyGuard,
}

impl SqlEngine {
    /// The options under which statements run.
    pub closed spec fn options(&self) -> SqlOptions {
        self.options
    }

    /// The data directory.
    pub closed spec fn data_dir(&self) -> Seq<char> {
        self.config.data_dir@
    }

    /// Whether the guard makes a copy before a write.
    pub closed spec fn backups_enabled(&self) -> bool {
        self.safety_guard.backups_enabled()
    }

    /// The guard agrees with the orchestrator on the data directory.
    #[verifier::type_invariant]
    closed spec fn consistent(&self) -> bool {
        self.safety_guard.data_dir() == self.config.data_dir@
    }

    /// An orchestrator for the data directory of `config`, whose guard
    /// makes copies.
    pub fn new(config: Config, options: SqlOptions) -> (engine: SqlEngine)
        ensures
            engine.options() == options,
            engine.data_dir() == config.data_dir@,
            engine.backups_enabled(),
    {
        let guard_config = Config { data_dir: config.data_dir.clone() };
        let safety_guard = SafetyGuard::new(guard_config);
        SqlEngine { config, options, safety_guard }
    }

    /// The guard.
    pub fn guard(&self) -> (g: &SafetyGuard)
        ensures
            g.data_dir() == self.data_dir(),
            g.backups_enabled() == self.backups_enabled(),
    {
        proof {
            use_type_invariant(self);
        }
        &self.safety_guard
    }

    /// Stops the guard from making copies.
    pub fn disable_backups(&mut self)
        ensures
            !final(self).backups_enabled(),
            final(self).options() == old(self).options(),
            final(self).data_dir() == old(self).data_dir(),
    {
        proof {
            use_type_invariant(&*self);
        }
        let mut guard = SafetyGuard::new(Config { data_dir: self.config.data_dir.clone() });
        guard.disable_backups();
        self.safety_guard = guard;
    }

    /// What is done with the statement.
    pub fn plan(&self, sql: &str) -> (r: QueryPlan)
        ensures
            r@ == plan_of(sql@, self.options()),
    {
        let writes = is_write_operation(sql);
        let sql_normalized = normalize_sql(sql);
        plan_statement(sql, writes, sql_normalized.as_str(), self.options)
    }

    /// The copy that is owed before a write to the table: none where the
    /// guard makes no copies, where no file of the table can be found, or
    /// where the table's file is not there yet. The three flags are those of
    /// `SafetyGuard::backup_table`.
    pub fn backup_order(
        &self,
        table_name: &str,
        jsonl_exists: bool,
        json_exists: bool,
        source_exists: bool,
    ) -> (r: Option<BackupCopy>)
        ensures
            match backup_order_of(
                self.backups_enabled(),
                self.data_dir(),
                table_name@,
                jsonl_exists,
                json_exists,
                source_exists,
            ) {
                Ok(Some(order)) => r is Some && (r->0.source@, r->0.destination@) == order,
                _ => r is None,
            },
    {
        proof {
            use_type_invariant(self);
        }
        match self.safety_guard.backup_table(table_name, jsonl_exists, json_exists, source_exists) {
            Ok(order) => order,
            Err(_) => None,
        }
    }

    /// What is to be done next with the statement, after what has happened
    /// so far. The caller does it, and comes back with what happened, until
    /// the step is to show, to refuse or to run.
    ///
    /// A statement runs only where its plan lets it run; a write to a table
    /// whose file is there runs only after the copy of that file was made.
    pub fn next_step(&self, sql: &str, event: QueryEvent) -> (step: QueryStep)
        ensures
            step@ == match event {
                QueryEvent::Start => first_step(
                    sql@,
                    self.options(),
                    self.backups_enabled(),
                    self.data_dir(),
                ),
                QueryEvent::CandidatesProbed { table, jsonl_exists, json_exists } =>
                    step_after_candidates(self.data_dir(), table@, jsonl_exists, json_exists),
                QueryEvent::SourceProbed { table, jsonl_exists, json_exists, source_exists } =>
                    step_after_source(
                        self.backups_enabled(),
                        self.data_dir(),
                        table@,
                        jsonl_exists,
                        json_exists,
                        source_exists,
                    ),
                QueryEvent::Copied { copy, failure } => step_after_copy(
                    copy.source@,
                    copy.destination@,
                    text_option(failure),
                ),
            },
    {
        proof {
            use_type_invariant(self);
        }
        match event {
            QueryEvent::Start => match self.plan(sql) {
                QueryPlan::Preview(text) => QueryStep::Show(text),
                QueryPlan::Refuse(e) => QueryStep::Refuse(e),
                QueryPlan::Read => QueryStep::Run,
                QueryPlan::Write { table } => match table {
                    Some(table) => {
                        if self.safety_guard.is_backup_enabled() {
                            let candidates = self.safety_guard.table_file_candidates(
                                table.as_str(),
                            );
                            QueryStep::ProbeCandidates {
                                table,
                                jsonl: candidates.0,
                                json: candidates.1,
                            }
                        } else {
                            QueryStep::Run
                        }
                    },
                    None => QueryStep::Run,
                },
            },
            QueryEvent::CandidatesProbed { table, jsonl_exists, json_exists } => {
                match self.safety_guard.get_table_path(table.as_str(), jsonl_exists, json_exists) {
                    Ok(path) => QueryStep::ProbeSource { table, jsonl_exists, json_exists, path },
                    Err(_) => QueryStep::Run,
                }
            },
            QueryEvent::SourceProbed { table, jsonl_exists, json_exists, source_exists } => {
                match self.backup_order(table.as_str(), jsonl_exists, json_exists, source_exists) {
                    Some(copy) => QueryStep::Copy(copy),
                    None => QueryStep::Run,
                }
            },
            QueryEvent::Copied { copy, failure } => {
                let outcome = match &failure {
                    Some(cause) => backup_outcome(copy, Some(cause.as_str())),
                    None => backup_outcome(copy, None),
                };
                match outcome {
                    Ok(_) => QueryStep::Run,
                    Err(e) => QueryStep::Refuse(e),
                }
            },
        }
    }

    /// The names of the tables whose files are there.
    pub fn list_tables(&self, presence: TablePresence) -> (r: Result<Vec<String>, Error>)
        ensures
            r is Ok,
            names_view(r->Ok_0@) == existing_tables(presence),
    {
        Ok(list_existing_tables(presence))
    }
}

/// What has happened so far to a statement that is being run.
#[derive(Clone, Debug, PartialEq, Eq)]
pub enum QueryEvent {
    /// Nothing yet.
    Start,
    /// The two files that may hold the table were looked for.
    CandidatesProbed { table: String, jsonl_exists: bool, json_exists: bool },
    /// The file of the table was looked for.
    SourceProbed { table: String, jsonl_exists: bool, json_exists: bool, source_exists: bool },
    /// The copy was tried; `failure` says why it failed, where it did.
    Copied { copy: BackupCopy, failure: Option<String> },
}

/// What is to be done next with a statement that is being run.
#[derive(Clone, Debug, PartialEq, Eq)]
pub enum QueryStep {
    /// Show the text and stop: nothing runs.
    Show(String),
    /// Stop with the failure: the statement does not reach the engine.
    Refuse(Error),
    /// Look for the two files that may hold the table.
    ProbeCandidates { table: String, jsonl: String, json: String },
    /// Look for the file of the table.
    ProbeSource { table: String, jsonl_exists: bool, json_exists: bool, path: String },
    /// Make the copy.
    Copy(BackupCopy),
    /// Hand the statement to the engine.
    Run,
}

/// The model of a `QueryStep`.
pub ghost enum QueryStepView {
    Show(Seq<char>),
    Refuse(ErrorKind, Seq<char>),
    ProbeCandidates(Seq<char>, Seq<char>, Seq<char>),
    ProbeSource(Seq<char>, bool, bool, Seq<char>),
    Copy(Seq<char>, Seq<char>),
    Run,
}

impl View for QueryStep {
    type V = QueryStepView;

    open spec fn view(&self) -> QueryStepView {
        match self {
            QueryStep::Show(text) => QueryStepView::Show(text@),
            QueryStep::Refuse(e) => QueryStepView::Refuse(e.kind(), e.detail()),
            QueryStep::ProbeCandidates { table, jsonl, json } => QueryStepView::ProbeCandidates(
                table@,
                jsonl@,
                json@,
            ),
            QueryStep::ProbeSource { table, jsonl_exists, json_exists, path } =>
                QueryStepView::ProbeSource(table@, *jsonl_exists, *json_exists, path@),
            QueryStep::Copy(copy) => QueryStepView::Copy(copy.source@, copy.destination@),
            QueryStep::Run => QueryStepView::Run,
        }
    }
}

/// What is to be done first with a statement: what its plan says; for a
/// write to a table, the search for the table's file where the guard makes
/// copies, and the run at once where it makes none.
pub open spec fn first_step(
    sql: Seq<char>,
    options: SqlOptions,
    backups: bool,
    dir: Seq<char>,
) -> QueryStepView {
    match plan_of(sql, options) {
        QueryPlanView::Preview(text) => QueryStepView::Show(text),
        QueryPlanView::Refuse(kind, detail) => QueryStepView::Refuse(kind, detail),
        QueryPlanView::Read => QueryStepView::Run,
        QueryPlanView::Write(None) => QueryStepView::Run,
        QueryPlanView::Write(Some(table)) => if backups {
            QueryStepView::ProbeCandidates(
                table,
                child_path(dir, table + ".jsonl"@),
                child_path(dir, table + ".json"@),
            )
        } else {
            QueryStepView::Run
        },
    }
}

/// What is to be done once the two files that may hold the table were
/// looked for: the search for the table's file, or the run where the table
/// has no file.
pub open spec fn step_after_candidates(
    dir: Seq<char>,
    table: Seq<char>,
    jsonl_exists: bool,
    json_exists: bool,
) -> QueryStepView {
    match table_path_of(dir, table, jsonl_exists, json_exists) {
        Ok(path) => QueryStepView::ProbeSource(table, jsonl_exists, json_exists, path),
        Err(_) => QueryStepView::Run,
    }
}

/// What is to be done once the table's file was looked for: the copy where
/// one is owed, else the run.
pub open spec fn step_after_source(
    backups: bool,
    dir: Seq<char>,
    table: Seq<char>,
    jsonl_exists: bool,
    json_exists: bool,
    source_exists: bool,
) -> QueryStepView {
    match backup_order_of(backups, dir, table, jsonl_exists, json_exists, source_exists) {
        Ok(Some(order)) => QueryStepView::Copy(order.0, order.1),
        _ => QueryStepView::Run,
    }
}

/// What is to be done once the copy was tried: the run where it was made,
/// and the stop with `BackupFailed` where it was not.
pub open spec fn step_after_copy(
    source: Seq<char>,
    destination: Seq<char>,
    failure: Option<Seq<char>>,
) -> QueryStepView {
    match failure {
        None => QueryStepView::Run,
        Some(cause) => QueryStepView::Refuse(
            ErrorKind::BackupFailed,
            copy_failure_detail("backup"@, " to "@, source, destination, cause),
        ),
    }
}

/// What comes of the copy before a write: the path of the copy where it was
/// made, and the failure that stops the write where it was not. `failure`
/// is the cause, where the copy failed.
pub fn backup_outcome(copy: BackupCopy, failure: Option<&str>) -> (r: Result<String, Error>)
    ensures
        match failure {
            None => r is Ok && r->Ok_0@ == copy.destination@,
            Some(cause) => r is Err && r->Err_0.kind() == ErrorKind::BackupFailed
                && r->Err_0.detail() == copy_failure_detail(
                "backup"@,
                " to "@,
                copy.source@,
                copy.destination@,
                cause@,
            ),
        },
{
    match failure {
        None => Ok(copy.destination),
        Some(cause) => Err(backup_failure(&copy, cause)),
    }
}

// ---------------------------------------------------------------------------
// The engine's answers, in one shape
// ---------------------------------------------------------------------------

/// An answer of the SQL engine to one statement.
#[derive(Debug, PartialEq, Eq)]
pub enum Payload {
    /// The columns of a table: the name of each, and the text that stands
    /// for its type.
    ShowColumns(Vec<(String, String)>),
    Create,
    Insert(usize),
    /// Rows under a fixed list of column labels.
    Select { labels: Vec<String>, rows: Vec<Vec<EngineValue>> },
    /// Rows without a schema: each has its own named values.
    SelectMap(Vec<Vec<(String, EngineValue)>>),
    Delete(usize),
    Update(usize),
    DropTable(usize),
    /// Any other acknowledgement.
    Other,
}

/// An object with two members.
pub open spec fn pair_object(a: Seq<char>, x: JsonView, b: Seq<char>, y: JsonView) -> JsonView {
    JsonView::Object(seq![(a, x), (b, y)])
}

/// The record for a count of rows or tables.
pub open spec fn count_result(operation: Seq<char>, label: Seq<char>, count: usize) -> JsonView {
    pair_object(
        "operation"@,
        JsonView::Str(operation),
        label,
        JsonView::Number(JsonNumber::PosInt(count as u64)),
    )
}

/// The members of a row under labels: the first `n` values, each under its
/// label. Values without a label and labels without a value are left out.
pub open spec fn labelled_upto(labels: Seq<Seq<char>>, row: Seq<EngineView>, n: nat) -> Seq<
    (Seq<char>, JsonView),
>
    decreases n,
{
    if n == 0 || n > labels.len() || n > row.len() {
        Seq::empty()
    } else {
        labelled_upto(labels, row, (n - 1) as nat).push((labels[n - 1], engine_to_json(row[n - 1])))
    }
}

/// The record for a row under labels.
pub open spec fn labelled_row(labels: Seq<Seq<char>>, row: Seq<EngineView>) -> JsonView {
    JsonView::Object(
        labelled_upto(
            labels,
            row,
            if labels.len() <= row.len() {
                labels.len()
            } else {
                row.len()
            },
        ),
    )
}

/// The records for the first `n` rows under labels.
pub open spec fn select_results_upto(labels: Seq<Seq<char>>, rows: Seq<Vec<EngineValue>>, n: nat)
    -> Seq<JsonView>
    decreases n,
{
    if n == 0 || n > rows.len() {
        Seq::empty()
    } else {
        select_results_upto(labels, rows, (n - 1) as nat).push(
            labelled_row(labels, engine_items_view(rows[n - 1]@)),
        )
    }
}

/// The records for the first `n` rows without a schema.
pub open spec fn map_results_upto(rows: Seq<Vec<(String, EngineValue)>>, n: nat) -> Seq<JsonView>
    decreases n,
{
    if n == 0 || n > rows.len() {
        Seq::empty()
    } else {
        map_results_upto(rows, (n - 1) as nat).push(
            JsonView::Object(fields_to_json(engine_fields_view(rows[n - 1]@))),
        )
    }
}

/// The records for the first `n` columns of a table.
pub open spec fn column_results_upto(columns: Seq<(String, String)>, n: nat) -> Seq<JsonView>
    decreases n,
{
    if n == 0 || n > columns.len() {
        Seq::empty()
    } else {
        column_results_upto(columns, (n - 1) as nat).push(
            pair_object(
                "column_name"@,
                JsonView::Str(columns[n - 1].0@),
                "column_type"@,
                JsonView::Str(columns[n - 1].1@),
            ),
        )
    }
}

/// The records for one answer of the engine: one for each row of a row set
/// or each column of a listing, and one for any other answer.
pub open spec fn payload_results(payload: Payload) -> Seq<JsonView> {
    match payload {
        Payload::Select { labels, rows } => select_results_upto(
            names_view(labels@),
            rows@,
            rows@.len(),
        ),
        Payload::SelectMap(rows) => map_results_upto(rows@, rows@.len()),
        Payload::Insert(count) => seq![count_result("INSERT"@, "rows_affected"@, count)],
        Payload::Update(count) => seq![count_result("UPDATE"@, "rows_affected"@, count)],
        Payload::Delete(count) => seq![count_result("DELETE"@, "rows_affected"@, count)],
        Payload::Create => seq![
            pair_object(
                "operation"@,
                JsonView::Str("CREATE"@),
                "success"@,
                JsonView::Bool(true),
            ),
        ],
        Payload::DropTable(count) => seq![count_result("DROP"@, "tables_dropped"@, count)],
        Payload::ShowColumns(columns) => column_results_upto(columns@, columns@.len()),
        Payload::Other => seq![JsonView::Object(seq![("result"@, JsonView::Str("ok"@))])],
    }
}

/// The records for the first `n` answers, answer after answer.
pub open spec fn results_upto(payloads: Seq<Payload>, n: nat) -> Seq<JsonView>
    decreases n,
{
    if n == 0 || n > payloads.len() {
        Seq::empty()
    } else {
        results_upto(payloads, (n - 1) as nat) + payload_results(payloads[n - 1])
    }
}

/// The records for the answers, answer after answer.
pub open spec fn results_of(payloads: Seq<Payload>) -> Seq<JsonView> {
    results_upto(payloads, payloads.len())
}

fn pair(a: &str, x: JsonValue, b: &str, y: JsonValue) -> (r: JsonValue)
    ensures
        r@ == pair_object(a@, x@, b@, y@),
{
    let mut members: Vec<(String, JsonValue)> = Vec::new();
    members.push((owned(a), x));
    members.push((owned(b), y));
    proof {
        lemma_json_object_view(members);
        assert(json_members_view(members@) =~= seq![(a@, x@), (b@, y@)]);
    }
    JsonValue::Object(members)
}

fn count_record(operation: &str, label: &str, count: usize) -> (r: JsonValue)
    ensures
        r@ == count_result(operation@, label@, count),
{
    pair(
        "operation",
        JsonValue::Str(owned(operation)),
        label,
        JsonValue::Number(JsonNumber::PosInt(count as u64)),
    )
}

fn labelled_record(labels: &Vec<String>, row: &Vec<EngineValue>) -> (r: JsonValue)
    ensures
        r@ == labelled_row(names_view(labels@), engine_items_view(row@)),
{
    let n = if labels.len() <= row.len() {
        labels.len()
    } else {
        row.len()
    };
    let mut members: Vec<(String, JsonValue)> = Vec::new();
    let mut i: usize = 0;
    while i < n
        invariant
            i <= n,
            n <= labels.len(),
            n <= row.len(),
            json_members_view(members@) == labelled_upto(
                names_view(labels@),
                engine_items_view(row@),
                i as nat,
            ),
        decreases n - i,
    {
        let ghost before = json_members_view(members@);
        let name = labels[i].clone();
        let value = glue_value_to_json(&row[i]);
        members.push((name, value));
        assert(json_members_view(members@) =~= before.push(
            (names_view(labels@)[i as int], engine_to_json(engine_items_view(row@)[i as int])),
        ));
        i += 1;
    }
    proof {
        lemma_json_object_view(members);
    }
    JsonValue::Object(members)
}

fn push_result(results: &mut Vec<JsonValue>, value: JsonValue)
    ensures
        json_items_view(final(results)@) == json_items_view(old(results)@).push(value@),
{
    results.push(value);
    assert(json_items_view(results@) =~= json_items_view(old(results)@).push(value@));
}

fn append_payload(results: &mut Vec<JsonValue>, payload: &Payload)
    ensures
        json_items_view(final(results)@) == json_items_view(old(results)@) + payload_results(
            *payload,
        ),
{
    let ghost done = json_items_view(results@);
    match payload {
        Payload::Select { labels, rows } => {
            let mut i: usize = 0;
            assert(done + Seq::<JsonView>::empty() == done);
            while i < rows.len()
                invariant
                    i <= rows.len(),
                    json_items_view(results@) == done + select_results_upto(
                        names_view(labels@),
                        rows@,
                        i as nat,
                    ),
                decreases rows.len() - i,
            {
                let record = labelled_record(labels, &rows[i]);
                push_result(results, record);
                assert(json_items_view(results@) =~= done + select_results_upto(
                    names_view(labels@),
                    rows@,
                    (i + 1) as nat,
                ));
                i += 1;
            }
        },
        Payload::SelectMap(rows) => {
            let mut i: usize = 0;
            assert(done + Seq::<JsonView>::empty() == done);
            while i < rows.len()
                invariant
                    i <= rows.len(),
                    json_items_view(results@) == done + map_results_upto(rows@, i as nat),
                decreases rows.len() - i,
            {
                let members = fields_to_json_members(&rows[i]);
                proof {
                    lemma_json_object_view(members);
                }
                push_result(results, JsonValue::Object(members));
                assert(json_items_view(results@) =~= done + map_results_upto(
                    rows@,
                    (i + 1) as nat,
                ));
                i += 1;
            }
        },
        Payload::Insert(count) => {
            push_result(results, count_record("INSERT", "rows_affected", *count));
            assert(json_items_view(results@) =~= done + payload_results(*payload));
        },
        Payload::Update(count) => {
            push_result(results, count_record("UPDATE", "rows_affected", *count));
            assert(json_items_view(results@) =~= done + payload_results(*payload));
        },
        Payload::Delete(count) => {
            push_result(results, count_record("DELETE", "rows_affected", *count));
            assert(json_items_view(results@) =~= done + payload_results(*payload));
        },
        Payload::Create => {
            push_result(
                results,
                pair(
                    "operation",
                    JsonValue::Str(owned("CREATE")),
                    "success",
                    JsonValue::Bool(true),
                ),
            );
            assert(json_items_view(results@) =~= done + payload_results(*payload));
        },
        Payload::DropTable(count) => {
            push_result(results, count_record("DROP", "tables_dropped", *count));
            assert(json_items_view(results@) =~= done + payload_results(*payload));
        },
        Payload::ShowColumns(columns) => {
            let mut i: usize = 0;
            assert(done + Seq::<JsonView>::empty() == done);
            while i < columns.len()
                invariant
                    i <= columns.len(),
                    json_items_view(results@) == done + column_results_upto(columns@, i as nat),
                decreases columns.len() - i,
            {
                let record = pair(
                    "column_name",
                    JsonValue::Str(columns[i].0.clone()),
                    "column_type",
                    JsonValue::Str(columns[i].1.clone()),
                );
                push_result(results, record);
                assert(json_items_view(results@) =~= done + column_results_upto(
                    columns@,
                    (i + 1) as nat,
                ));
                i += 1;
            }
        },
        Payload::Other => {
            let mut members: Vec<(String, JsonValue)> = Vec::new();
            members.push((owned("result"), JsonValue::Str(owned("ok"))));
            proof {
                lemma_json_object_view(members);
                assert(json_members_view(members@) =~= seq![("result"@, JsonView::Str("ok"@))]);
            }
            push_result(results, JsonValue::Object(members));
            assert(json_items_view(results@) =~= done + payload_results(*payload));
        },
    }
}

/// The engine's answers as one sequence of records, so that a caller need
/// not tell the kinds of answers apart.
pub fn normalize_payloads(payloads: &Vec<Payload>) -> (results: Vec<JsonValue>)
    ensures
        json_items_view(results@) == results_of(payloads@),
{
    let mut results: Vec<JsonValue> = Vec::new();
    let mut i: usize = 0;
    assert(json_items_view(results@) =~= results_upto(payloads@, 0));
    while i < payloads.len()
        invariant
            i <= payloads.len(),
            json_items_view(results@) == results_upto(payloads@, i as nat),
        decreases payloads.len() - i,
    {
        append_payload(&mut results, &payloads[i]);
        i += 1;
    }
    results
}

} // verus!
