//! The tables: which names are configured, of which kind each is, and what
//! a virtual table reports of itself. The kind of a table is fixed here; it
//! is never read from the data.

use vstd::prelude::*;
use crate::error::{Error, ErrorKind};
use crate::text::{owned, str_equal};

verus! {

/// The kind of a table.
#[derive(Clone, Copy, Debug, PartialEq, Eq, Structural)]
pub enum TableKind {
    /// One file, which may be changed.
    Physical,
    /// Any number of files, merged when the table is scanned; read-only.
    Virtual,
    /// No table of this name is configured.
    Unknown,
}

/// How the rows of a virtual table are made.
#[derive(Clone, Copy, Debug, PartialEq, Eq, Structural)]
pub enum ScanStrategy {
    /// A directory of files, each read line by line.
    LineDirectory,
    /// A directory of files, each holding an array or an object.
    ArrayDirectory,
    /// One file, read line by line and normalized.
    NormalizedFile,
}

/// The way in which the table `name` is scanned, where it is virtual.
pub open spec fn strategy_of(name: Seq<char>) -> Option<ScanStrategy> {
    if name == "transcripts"@ {
        Some(ScanStrategy::LineDirectory)
    } else if name == "todos"@ {
        Some(ScanStrategy::ArrayDirectory)
    } else if name == "jhistory"@ || name == "codex_history"@ {
        Some(ScanStrategy::NormalizedFile)
    } else {
        None
    }
}

/// The kind of the table `name`.
pub open spec fn kind_of(name: Seq<char>) -> TableKind {
    if strategy_of(name) is Some {
        TableKind::Virtual
    } else if name == "history"@ || name == "stats"@ {
        TableKind::Physical
    } else {
        TableKind::Unknown
    }
}

/// The way in which the table is scanned, where it is virtual.
pub fn scan_strategy(name: &str) -> (r: Option<ScanStrategy>)
    ensures
        r == strategy_of(name@),
{
    if str_equal(name, "transcripts") {
        Some(ScanStrategy::LineDirectory)
    } else if str_equal(name, "todos") {
        Some(ScanStrategy::ArrayDirectory)
    } else if str_equal(name, "jhistory") || str_equal(name, "codex_history") {
        Some(ScanStrategy::NormalizedFile)
    } else {
        None
    }
}

/// The kind of the table.
pub fn table_kind(name: &str) -> (k: TableKind)
    ensures
        k == kind_of(name@),
{
    if scan_strategy(name).is_some() {
        TableKind::Virtual
    } else if str_equal(name, "history") || str_equal(name, "stats") {
        TableKind::Physical
    } else {
        TableKind::Unknown
    }
}

/// The kind of a table that is configured; for any other name the failure
/// `TableNotFound`, which names the table.
pub fn configured_kind(name: &str) -> (r: Result<TableKind, Error>)
    ensures
        match r {
            Ok(kind) => kind == kind_of(name@) && kind != TableKind::Unknown,
            Err(e) => kind_of(name@) == TableKind::Unknown && e.kind() == ErrorKind::TableNotFound
                && e.detail() == name@,
        },
{
    match table_kind(name) {
        TableKind::Unknown => Err(Error::TableNotFound(owned(name))),
        kind => Ok(kind),
    }
}

/// Whether the table is virtual.
pub fn is_virtual_table(name: &str) -> (r: bool)
    ensures
        r == (kind_of(name@) == TableKind::Virtual),
{
    scan_strategy(name).is_some()
}

/// What a table reports of itself: its name, its columns where they are
/// fixed, and a comment.
#[derive(Clone, Debug, PartialEq, Eq)]
pub struct TableSchema {
    pub table_name: String,
    /// The fixed columns; none for a table without a schema.
    pub columns: Option<Vec<String>>,
    pub comment: Option<String>,
}

/// The comment of a virtual table, which says how its rows are made.
pub open spec fn comment_of(strategy: ScanStrategy) -> Seq<char> {
    match strategy {
        ScanStrategy::LineDirectory => "Virtual table merging all transcript files"@,
        ScanStrategy::ArrayDirectory => "Virtual table merging all todo files"@,
        ScanStrategy::NormalizedFile => "Virtual table normalizing the prompt history file"@,
    }
}

impl TableSchema {
    /// Whether this is what the virtual table `name` reports: its name, no
    /// fixed columns, and the comment of its strategy.
    pub open spec fn describes_virtual(&self, name: Seq<char>) -> bool {
        &&& strategy_of(name) is Some
        &&& self.table_name@ == name
        &&& self.columns is None
        &&& self.comment is Some
        &&& self.comment->0@ == comment_of(strategy_of(name)->0)
    }
}

/// What the virtual table `name` reports of itself; none for a table that
/// is not virtual.
pub fn virtual_schema(name: &str) -> (r: Option<TableSchema>)
    ensures
        r is Some <==> kind_of(name@) == TableKind::Virtual,
        r is Some ==> r->0.describes_virtual(name@),
{
    match scan_strategy(name) {
        Some(strategy) => {
            let comment = match strategy {
                ScanStrategy::LineDirectory => owned("Virtual table merging all transcript files"),
                ScanStrategy::ArrayDirectory => owned("Virtual table merging all todo files"),
                ScanStrategy::NormalizedFile => owned(
                    "Virtual table normalizing the prompt history file",
                ),
            };
            Some(TableSchema { table_name: owned(name), columns: None, comment: Some(comment) })
        },
        None => None,
    }
}

/// Which of the tables' files and directories are there.
#[derive(Clone, Copy, Debug, PartialEq, Eq, Structural)]
pub struct TablePresence {
    pub history: bool,
    pub stats: bool,
    pub jhistory: bool,
    pub transcripts: bool,
    pub todos: bool,
}

/// The names of the tables that are there, in the fixed order of the
/// tables.
pub open spec fn existing_tables(p: TablePresence) -> Seq<Seq<char>> {
    (if p.history {
        seq!["history"@]
    } else {
        Seq::empty()
    }) + (if p.stats {
        seq!["stats"@]
    } else {
        Seq::empty()
    }) + (if p.jhistory {
        seq!["jhistory"@, "codex_history"@]
    } else {
        Seq::empty()
    }) + (if p.transcripts {
        seq!["transcripts"@]
    } else {
        Seq::empty()
    }) + (if p.todos {
        seq!["todos"@]
    } else {
        Seq::empty()
    })
}

/// The names of the virtual tables that are there, in the fixed order of
/// the tables.
pub open spec fn existing_virtual_tables(p: TablePresence) -> Seq<Seq<char>> {
    (if p.jhistory {
        seq!["jhistory"@, "codex_history"@]
    } else {
        Seq::empty()
    }) + (if p.transcripts {
        seq!["transcripts"@]
    } else {
        Seq::empty()
    }) + (if p.todos {
        seq!["todos"@]
    } else {
        Seq::empty()
    })
}

/// The texts as models.
pub open spec fn names_view(names: Seq<String>) -> Seq<Seq<char>> {
    Seq::new(names.len(), |i: int| names[i]@)
}

/// The names of the tables that are there. Nothing is scanned for this.
pub fn list_existing_tables(presence: TablePresence) -> (names: Vec<String>)
    ensures
        names_view(names@) == existing_tables(presence),
{
    let mut names: Vec<String> = Vec::new();
    if presence.history {
        names.push(owned("history"));
    }
    if presence.stats {
        names.push(owned("stats"));
    }
    if presence.jhistory {
        names.push(owned("jhistory"));
        names.push(owned("codex_history"));
    }
    if presence.transcripts {
        names.push(owned("transcripts"));
    }
    if presence.todos {
        names.push(owned("todos"));
    }
    assert(names_view(names@) =~= existing_tables(presence));
    names
}

/// What the virtual tables that are there report of themselves, in the
/// fixed order of the tables.
pub fn virtual_schemas(presence: TablePresence) -> (schemas: Vec<TableSchema>)
    ensures
        schemas@.len() == existing_virtual_tables(presence).len(),
        forall|i: int|
            0 <= i < schemas@.len() ==> (#[trigger] schemas@[i]).describes_virtual(
                existing_virtual_tables(presence)[i],
            ),
{
    let mut schemas: Vec<TableSchema> = Vec::new();
    if presence.jhistory {
        push_virtual(&mut schemas, "jhistory");
        push_virtual(&mut schemas, "codex_history");
    }
    if presence.transcripts {
        push_virtual(&mut schemas, "transcripts");
    }
    if presence.todos {
        push_virtual(&mut schemas, "todos");
    }
    schemas
}

fn push_virtual(schemas: &mut Vec<TableSchema>, name: &str)
    requires
        kind_of(name@) == TableKind::Virtual,
    ensures
        final(schemas)@.len() == old(schemas)@.len() + 1,
        final(schemas)@.take(old(schemas)@.len() as int) == old(schemas)@,
        final(schemas)@.last().describes_virtual(name@),
{
    match virtual_schema(name) {
        Some(schema) => {
            schemas.push(schema);
            assert(schemas@.take(old(schemas)@.len() as int) =~= old(schemas)@);
        },
        None => {
            assert(false);
        },
    }
}

} // verus!
