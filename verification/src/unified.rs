//! The unified queries over the data files and a Git repository: which
//! tables a query names, so that only those are loaded.

use vstd::prelude::*;
use crate::pattern::{
    compile, escape, escaped, group_texts, is_match, regex_compiles, regex_group_texts,
    regex_matches,
};
use crate::schema::names_view;
use crate::text::{
    chars_of, concat, contains, contains_text, lowercase_of, owned, string_of, to_lower, to_upper,
    uppercase_of,
};
use crate::value::{json_items_view, json_members_view, lemma_json_object_view, clone_json, JsonValue, JsonView};

verus! {

/// The names of the tables that are made from the data files.
pub open spec fn session_table_names() -> Seq<Seq<char>> {
    seq!["history"@, "transcripts"@, "todos"@, "stats"@]
}

/// The names of the tables that are made from a Git repository.
pub open spec fn git_table_names() -> Seq<Seq<char>> {
    seq![
        "commits"@,
        "commit_parents"@,
        "branches"@,
        "tags"@,
        "refs"@,
        "stashes"@,
        "reflog"@,
        "diffs"@,
        "diff_files"@,
        "blame"@,
        "config"@,
        "remotes"@,
        "submodules"@,
        "status"@,
        "worktrees"@,
        "hooks"@,
        "notes"@,
    ]
}

/// The names of the tables that are made from the data files.
pub fn session_tables() -> (names: Vec<String>)
    ensures
        names_view(names@) == session_table_names(),
{
    let mut names: Vec<String> = Vec::new();
    names.push(owned("history"));
    names.push(owned("transcripts"));
    names.push(owned("todos"));
    names.push(owned("stats"));
    assert(names_view(names@) =~= session_table_names());
    names
}

/// The names of the tables that are made from a Git repository.
pub fn git_tables() -> (names: Vec<String>)
    ensures
        names_view(names@) == git_table_names(),
        names@.len() == 17,
{
    let mut names: Vec<String> = Vec::new();
    names.push(owned("commits"));
    names.push(owned("commit_parents"));
    names.push(owned("branches"));
    names.push(owned("tags"));
    names.push(owned("refs"));
    names.push(owned("stashes"));
    names.push(owned("reflog"));
    names.push(owned("diffs"));
    names.push(owned("diff_files"));
    names.push(owned("blame"));
    names.push(owned("config"));
    names.push(owned("remotes"));
    names.push(owned("submodules"));
    names.push(owned("status"));
    names.push(owned("worktrees"));
    names.push(owned("hooks"));
    names.push(owned("notes"));
    assert(names_view(names@) =~= git_table_names());
    names
}

/// Those of the first `n` tables whose name, in upper case, stands in
/// `upper`, in order.
pub open spec fn named_upto(tables: Seq<Seq<char>>, upper: Seq<char>, n: nat) -> Seq<Seq<char>>
    decreases n,
{
    if n == 0 || n > tables.len() {
        Seq::empty()
    } else {
        let before = named_upto(tables, upper, (n - 1) as nat);
        if contains_text(upper, uppercase_of(tables[n - 1])) {
            before.push(tables[n - 1])
        } else {
            before
        }
    }
}

/// Those of the tables whose name, in upper case, stands in `upper`.
pub open spec fn named_in(tables: Seq<Seq<char>>, upper: Seq<char>) -> Seq<Seq<char>> {
    named_upto(tables, upper, tables.len())
}

/// Those of the tables whose name, in upper case, stands in the query,
/// which is in upper case already.
pub fn tables_named_in(tables: &Vec<String>, query_upper: &str) -> (found: Vec<String>)
    ensures
        names_view(found@) == named_in(names_view(tables@), query_upper@),
{
    let upper = chars_of(query_upper);
    let mut found: Vec<String> = Vec::new();
    let mut i: usize = 0;
    assert(names_view(found@) =~= named_upto(names_view(tables@), query_upper@, 0));
    while i < tables.len()
        invariant
            i <= tables.len(),
            upper@ == query_upper@,
            names_view(found@) == named_upto(names_view(tables@), query_upper@, i as nat),
        decreases tables.len() - i,
    {
        let ghost before = names_view(found@);
        let name_upper = to_upper(&chars_of(tables[i].as_str()));
        if contains(&upper, &name_upper) {
            found.push(tables[i].clone());
            assert(names_view(found@) =~= before.push(names_view(tables@)[i as int]));
        }
        i += 1;
    }
    found
}

/// The tables that a query names: those made from the data files, and
/// those made from a Git repository. A table is named where its name stands
/// anywhere in the query, whatever the case of the letters.
pub fn detect_tables(query: &str) -> (r: (Vec<String>, Vec<String>))
    ensures
        names_view(r.0@) == named_in(session_table_names(), uppercase_of(query@)),
        names_view(r.1@) == named_in(git_table_names(), uppercase_of(query@)),
{
    let upper = to_upper(&chars_of(query));
    let query_upper = crate::text::string_of(&upper);
    let needed_session = tables_named_in(&session_tables(), query_upper.as_str());
    let needed_git = tables_named_in(&git_tables(), query_upper.as_str());
    (needed_session, needed_git)
}

// ---------------------------------------------------------------------------
// The tables of a Git repository that a query names
// ---------------------------------------------------------------------------

/// The pattern for a table's name after one of the words that a table's
/// name follows.
pub open spec fn keyword_pattern() -> Seq<char> {
    "(?i)\\b(FROM|JOIN|INTO|UPDATE)\\s+(\\w+)"@
}

/// The pattern for the name of a table as a word of its own, whatever the
/// case of the letters.
pub open spec fn word_pattern(table: Seq<char>) -> Seq<char> {
    "(?i)\\b"@ + escaped(table) + "\\b"@
}

/// The names with `name` at their end, unless it is among them already.
pub open spec fn with_name(names: Seq<Seq<char>>, name: Seq<char>) -> Seq<Seq<char>> {
    if names.contains(name) {
        names
    } else {
        names.push(name)
    }
}

/// The names of tables among the first `n` words, in lower case, each
/// once.
pub open spec fn tables_among_upto(words: Seq<Seq<char>>, tables: Seq<Seq<char>>, n: nat) -> Seq<
    Seq<char>,
>
    decreases n,
{
    if n == 0 || n > words.len() {
        Seq::empty()
    } else {
        let before = tables_among_upto(words, tables, (n - 1) as nat);
        let word = lowercase_of(words[n - 1]);
        if tables.contains(word) {
            with_name(before, word)
        } else {
            before
        }
    }
}

/// The names `found`, and those of the first `n` tables whose name stands
/// in the query as a word of its own, each once.
pub open spec fn tables_as_words_upto(
    found: Seq<Seq<char>>,
    tables: Seq<Seq<char>>,
    query: Seq<char>,
    n: nat,
) -> Seq<Seq<char>>
    decreases n,
{
    if n == 0 || n > tables.len() {
        found
    } else {
        let before = tables_as_words_upto(found, tables, query, (n - 1) as nat);
        let pattern = word_pattern(tables[n - 1]);
        if regex_compiles(pattern) && regex_matches(pattern, query) {
            with_name(before, tables[n - 1])
        } else {
            before
        }
    }
}

/// The words that follow `FROM`, `JOIN`, `INTO` or `UPDATE` in the query.
pub open spec fn words_after_keywords(query: Seq<char>) -> Seq<Seq<char>> {
    if regex_compiles(keyword_pattern()) {
        regex_group_texts(keyword_pattern(), query, 2)
    } else {
        Seq::empty()
    }
}

/// The tables of a Git repository that a query names: the tables among the
/// words that follow `FROM`, `JOIN`, `INTO` or `UPDATE`, and the tables
/// whose name stands in the query as a word of its own. Each is named once.
pub open spec fn tables_named_by(query: Seq<char>) -> Seq<Seq<char>> {
    let words = words_after_keywords(query);
    tables_as_words_upto(
        tables_among_upto(words, git_table_names(), words.len()),
        git_table_names(),
        query,
        git_table_names().len(),
    )
}

/// Whether the text is among the names.
pub fn has_name(names: &Vec<String>, name: &str) -> (r: bool)
    ensures
        r == names_view(names@).contains(name@),
{
    let wanted = owned(name);
    let mut i: usize = 0;
    while i < names.len()
        invariant
            i <= names.len(),
            wanted@ == name@,
            forall|k: int| 0 <= k < i ==> names_view(names@)[k] != name@,
        decreases names.len() - i,
    {
        if names[i] == wanted {
            assert(names_view(names@)[i as int] == name@);
            return true;
        }
        i += 1;
    }
    false
}

fn push_name(names: &mut Vec<String>, name: String)
    ensures
        names_view(final(names)@) == with_name(names_view(old(names)@), name@),
{
    if !has_name(names, name.as_str()) {
        names.push(name);
        assert(names_view(names@) =~= names_view(old(names)@).push(name@));
    }
}

/// The names of tables among the words, in lower case, each once.
pub fn tables_among(words: &Vec<String>, tables: &Vec<String>) -> (found: Vec<String>)
    ensures
        names_view(found@) == tables_among_upto(
            names_view(words@),
            names_view(tables@),
            words@.len(),
        ),
{
    let mut found: Vec<String> = Vec::new();
    let mut i: usize = 0;
    assert(names_view(found@) =~= Seq::<Seq<char>>::empty());
    while i < words.len()
        invariant
            i <= words.len(),
            names_view(found@) == tables_among_upto(
                names_view(words@),
                names_view(tables@),
                i as nat,
            ),
        decreases words.len() - i,
    {
        let lower = string_of(&to_lower(&chars_of(words[i].as_str())));
        if has_name(tables, lower.as_str()) {
            push_name(&mut found, lower);
        }
        i += 1;
    }
    found
}

/// The names `found`, and those of the tables whose name stands in the
/// query as a word of its own, each once.
pub fn tables_as_words(found: Vec<String>, tables: &Vec<String>, query: &str) -> (all: Vec<String>)
    ensures
        names_view(all@) == tables_as_words_upto(
            names_view(found@),
            names_view(tables@),
            query@,
            tables@.len(),
        ),
{
    let ghost start = names_view(found@);
    let mut all = found;
    let mut i: usize = 0;
    while i < tables.len()
        invariant
            i <= tables.len(),
            names_view(all@) == tables_as_words_upto(
                start,
                names_view(tables@),
                query@,
                i as nat,
            ),
        decreases tables.len() - i,
    {
        let quoted = escape(tables[i].as_str());
        let head = concat("(?i)\\b", quoted.as_str());
        let pattern = concat(head.as_str(), "\\b");
        match compile(pattern.as_str()) {
            Ok(re) => {
                if is_match(&re, query) {
                    push_name(&mut all, tables[i].clone());
                }
            },
            Err(_) => {},
        }
        i += 1;
    }
    all
}

/// The tables of a Git repository that a query names.
pub fn extract_table_names(query: &str) -> (names: Vec<String>)
    ensures
        names_view(names@) == tables_named_by(query@),
{
    let tables = git_tables();
    let words = match compile("(?i)\\b(FROM|JOIN|INTO|UPDATE)\\s+(\\w+)") {
        Ok(re) => group_texts(&re, query, 2),
        Err(_) => Vec::new(),
    };
    assert(names_view(words@) =~= words_after_keywords(query@));
    let found = tables_among(&words, &tables);
    tables_as_words(found, &tables, query)
}

// ---------------------------------------------------------------------------
// The result of a query
// ---------------------------------------------------------------------------

/// The result of a query: the names of the columns, and the rows.
#[derive(Debug, PartialEq, Eq)]
pub struct QueryResult {
    pub columns: Vec<String>,
    pub rows: Vec<Vec<JsonValue>>,
}

/// The members of a row: for each of the first `n` columns, the value of
/// the row in that column, or null where the row is too short.
pub open spec fn row_members_upto(columns: Seq<Seq<char>>, row: Seq<JsonView>, n: nat) -> Seq<
    (Seq<char>, JsonView),
>
    decreases n,
{
    if n == 0 || n > columns.len() {
        Seq::empty()
    } else {
        row_members_upto(columns, row, (n - 1) as nat).push(
            (
                columns[n - 1],
                if n - 1 < row.len() {
                    row[n - 1]
                } else {
                    JsonView::Null
                },
            ),
        )
    }
}

/// The objects for the first `n` rows.
pub open spec fn row_objects_upto(columns: Seq<Seq<char>>, rows: Seq<Vec<JsonValue>>, n: nat) -> Seq<
    JsonView,
>
    decreases n,
{
    if n == 0 || n > rows.len() {
        Seq::empty()
    } else {
        row_objects_upto(columns, rows, (n - 1) as nat).push(
            JsonView::Object(
                row_members_upto(columns, json_items_view(rows[n - 1]@), columns.len()),
            ),
        )
    }
}

impl QueryResult {
    /// Whether the result has no rows.
    pub fn is_empty(&self) -> (r: bool)
        ensures
            r == (self.rows@.len() == 0),
    {
        self.rows.len() == 0
    }

    /// The number of rows.
    pub fn row_count(&self) -> (r: usize)
        ensures
            r == self.rows@.len(),
    {
        self.rows.len()
    }

    /// The rows as objects: each holds, under the name of each column, the
    /// value of the row in that column.
    pub fn to_json_array(&self) -> (r: Vec<JsonValue>)
        ensures
            json_items_view(r@) == row_objects_upto(
                names_view(self.columns@),
                self.rows@,
                self.rows@.len(),
            ),
    {
        let mut out: Vec<JsonValue> = Vec::new();
        let mut i: usize = 0;
        assert(json_items_view(out@) =~= Seq::<JsonView>::empty());
        while i < self.rows.len()
            invariant
                i <= self.rows.len(),
                json_items_view(out@) == row_objects_upto(
                    names_view(self.columns@),
                    self.rows@,
                    i as nat,
                ),
            decreases self.rows.len() - i,
        {
            let ghost done = json_items_view(out@);
            let row = &self.rows[i];
            let mut members: Vec<(String, JsonValue)> = Vec::new();
            let mut k: usize = 0;
            assert(json_members_view(members@) =~= Seq::<(Seq<char>, JsonView)>::empty());
            while k < self.columns.len()
                invariant
                    k <= self.columns.len(),
                    json_members_view(members@) == row_members_upto(
                        names_view(self.columns@),
                        json_items_view(row@),
                        k as nat,
                    ),
                decreases self.columns.len() - k,
            {
                let ghost before = json_members_view(members@);
                let value = if k < row.len() {
                    clone_json(&row[k])
                } else {
                    JsonValue::Null
                };
                members.push((self.columns[k].clone(), value));
                assert(json_members_view(members@) =~= before.push(
                    (names_view(self.columns@)[k as int], value@),
                ));
                k += 1;
            }
            proof {
                lemma_json_object_view(members);
            }
            out.push(JsonValue::Object(members));
            assert(json_items_view(out@) =~= done.push(
                JsonView::Object(
                    row_members_upto(
                        names_view(self.columns@),
                        json_items_view(self.rows@[i as int]@),
                        self.columns@.len(),
                    ),
                ),
            ));
            i += 1;
        }
        out
    }
}

// ---------------------------------------------------------------------------
// Cells of the relational store
// ---------------------------------------------------------------------------

/// A cell of a row of the relational store. A real number is held as the
/// bit pattern of a binary64 number.
#[derive(Debug, PartialEq, Eq)]
pub enum SqlCell {
    Null,
    Integer(i64),
    Real(u64),
    Text(String),
    Blob(Vec<u8>),
}

/// The text that stands for a binary64 number that is not finite.
pub open spec fn non_finite_text(bits: u64) -> Seq<char> {
    if bits & 0x000f_ffff_ffff_ffff != 0 {
        "NaN"@
    } else if bits >> 63 == 1 {
        "-inf"@
    } else {
        "inf"@
    }
}

/// The JSON value of a cell for the unified queries: an integer, a finite
/// real number and a text map to themselves; anything else to null.
pub open spec fn cell_json(cell: SqlCell) -> JsonView {
    match cell {
        SqlCell::Integer(n) => JsonView::Number(crate::value::JsonNumber::of_int(n as int)),
        SqlCell::Real(bits) => crate::codec::float_to_json(bits),
        SqlCell::Text(s) => JsonView::Str(s@),
        _ => JsonView::Null,
    }
}

/// The JSON value of a cell for the queries over a Git repository: as
/// `cell_json`, but a real number that is not finite maps to the text that
/// stands for it.
pub open spec fn cell_value(cell: SqlCell) -> JsonView {
    match cell {
        SqlCell::Real(bits) => if crate::value::float_bits_finite(bits) {
            JsonView::Number(crate::value::JsonNumber::Float(bits))
        } else {
            JsonView::Str(non_finite_text(bits))
        },
        _ => cell_json(cell),
    }
}

/// The JSON value of a cell for the unified queries.
pub fn cell_to_json(cell: &SqlCell) -> (r: JsonValue)
    ensures
        r@ == cell_json(*cell),
{
    match cell {
        SqlCell::Integer(n) => JsonValue::Number(crate::value::JsonNumber::from_i64(*n)),
        SqlCell::Real(bits) => {
            if crate::value::is_finite_bits(*bits) {
                JsonValue::Number(crate::value::JsonNumber::Float(*bits))
            } else {
                JsonValue::Null
            }
        },
        SqlCell::Text(s) => JsonValue::Str(s.clone()),
        _ => JsonValue::Null,
    }
}

/// The JSON value of a cell for the queries over a Git repository.
pub fn cell_to_value(cell: &SqlCell) -> (r: JsonValue)
    ensures
        r@ == cell_value(*cell),
{
    match cell {
        SqlCell::Real(bits) => {
            if crate::value::is_finite_bits(*bits) {
                JsonValue::Number(crate::value::JsonNumber::Float(*bits))
            } else if *bits & 0x000f_ffff_ffff_ffff != 0 {
                JsonValue::Str(owned("NaN"))
            } else if *bits >> 63 == 1 {
                JsonValue::Str(owned("-inf"))
            } else {
                JsonValue::Str(owned("inf"))
            }
        },
        _ => cell_to_json(cell),
    }
}

} // verus!
