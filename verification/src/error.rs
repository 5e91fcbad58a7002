//! The failures that the library reports.

use vstd::prelude::*;
use crate::text::concat;

verus! {

/// The kind of a failure, without its detail.
#[derive(Clone, Copy, Debug, PartialEq, Eq, Structural)]
pub enum ErrorKind {
    Io,
    JsonParse,
    QueryParse,
    QueryExecution,
    Config,
    DataSource,
    InvalidPath,
    FileNotFound,
    Regex,
    Sql,
    WriteNotAllowed,
    DangerousOperation,
    BackupFailed,
    WriteRejected,
    TableNotFound,
}

/// A failure: its kind, and a text that gives the detail.
#[derive(Clone, Debug, PartialEq, Eq)]
pub enum Error {
    /// A file or directory could not be read at all.
    Io(String),
    /// A text is no JSON.
    JsonParse(String),
    QueryParse(String),
    QueryExecution(String),
    Config(String),
    DataSource(String),
    InvalidPath(String),
    FileNotFound(String),
    Regex(String),
    Sql(String),
    /// A write statement came while writing was not enabled.
    WriteNotAllowed(String),
    /// A statement that would touch every row was refused.
    DangerousOperation(String),
    /// The copy of a table's file, owed before a write, failed.
    BackupFailed(String),
    /// A change was asked of a table that is read-only.
    WriteRejected(String),
    /// No table of that name is configured.
    TableNotFound(String),
}

/// What stands before the detail in the message of a failure of this kind.
pub open spec fn kind_prefix(kind: ErrorKind) -> Seq<char> {
    match kind {
        ErrorKind::Io => "IO error: "@,
        ErrorKind::JsonParse => "JSON parsing error: "@,
        ErrorKind::QueryParse => "Query parse error: "@,
        ErrorKind::QueryExecution => "Query execution error: "@,
        ErrorKind::Config => "Configuration error: "@,
        ErrorKind::DataSource => "Data source error: "@,
        ErrorKind::InvalidPath => "Invalid path: "@,
        ErrorKind::FileNotFound => "File not found: "@,
        ErrorKind::Regex => "Regex error: "@,
        ErrorKind::Sql => "SQL error: "@,
        ErrorKind::WriteNotAllowed => "Write operation not allowed: "@,
        ErrorKind::DangerousOperation => "Dangerous operation rejected: "@,
        ErrorKind::BackupFailed => "Backup failed: "@,
        ErrorKind::WriteRejected => "Write rejected: "@,
        ErrorKind::TableNotFound => "Table not found: "@,
    }
}

impl Error {
    /// The kind of this failure.
    pub open spec fn kind(&self) -> ErrorKind {
        match self {
            Error::Io(_) => ErrorKind::Io,
            Error::JsonParse(_) => ErrorKind::JsonParse,
            Error::QueryParse(_) => ErrorKind::QueryParse,
            Error::QueryExecution(_) => ErrorKind::QueryExecution,
            Error::Config(_) => ErrorKind::Config,
            Error::DataSource(_) => ErrorKind::DataSource,
            Error::InvalidPath(_) => ErrorKind::InvalidPath,
            Error::FileNotFound(_) => ErrorKind::FileNotFound,
            Error::Regex(_) => ErrorKind::Regex,
            Error::Sql(_) => ErrorKind::Sql,
            Error::WriteNotAllowed(_) => ErrorKind::WriteNotAllowed,
            Error::DangerousOperation(_) => ErrorKind::DangerousOperation,
            Error::BackupFailed(_) => ErrorKind::BackupFailed,
            Error::WriteRejected(_) => ErrorKind::WriteRejected,
            Error::TableNotFound(_) => ErrorKind::TableNotFound,
        }
    }

    /// The detail of this failure.
    pub open spec fn detail(&self) -> Seq<char> {
        match self {
            Error::Io(d) => d@,
            Error::JsonParse(d) => d@,
            Error::QueryParse(d) => d@,
            Error::QueryExecution(d) => d@,
            Error::Config(d) => d@,
            Error::DataSource(d) => d@,
            Error::InvalidPath(d) => d@,
            Error::FileNotFound(d) => d@,
            Error::Regex(d) => d@,
            Error::Sql(d) => d@,
            Error::WriteNotAllowed(d) => d@,
            Error::DangerousOperation(d) => d@,
            Error::BackupFailed(d) => d@,
            Error::WriteRejected(d) => d@,
            Error::TableNotFound(d) => d@,
        }
    }

    /// The kind of this failure.
    pub fn error_kind(&self) -> (k: ErrorKind)
        ensures
            k == self.kind(),
    {
        match self {
            Error::Io(_) => ErrorKind::Io,
            Error::JsonParse(_) => ErrorKind::JsonParse,
            Error::QueryParse(_) => ErrorKind::QueryParse,
            Error::QueryExecution(_) => ErrorKind::QueryExecution,
            Error::Config(_) => ErrorKind::Config,
            Error::DataSource(_) => ErrorKind::DataSource,
            Error::InvalidPath(_) => ErrorKind::InvalidPath,
            Error::FileNotFound(_) => ErrorKind::FileNotFound,
            Error::Regex(_) => ErrorKind::Regex,
            Error::Sql(_) => ErrorKind::Sql,
            Error::WriteNotAllowed(_) => ErrorKind::WriteNotAllowed,
            Error::DangerousOperation(_) => ErrorKind::DangerousOperation,
            Error::BackupFailed(_) => ErrorKind::BackupFailed,
            Error::WriteRejected(_) => ErrorKind::WriteRejected,
            Error::TableNotFound(_) => ErrorKind::TableNotFound,
        }
    }

    /// The message of this failure: what stands for its kind, then the detail.
    pub fn message(&self) -> (m: String)
        ensures
            m@ == kind_prefix(self.kind()) + self.detail(),
    {
        match self {
            Error::Io(d) => concat("IO error: ", d.as_str()),
            Error::JsonParse(d) => concat("JSON parsing error: ", d.as_str()),
            Error::QueryParse(d) => concat("Query parse error: ", d.as_str()),
            Error::QueryExecution(d) => concat("Query execution error: ", d.as_str()),
            Error::Config(d) => concat("Configuration error: ", d.as_str()),
            Error::DataSource(d) => concat("Data source error: ", d.as_str()),
            Error::InvalidPath(d) => concat("Invalid path: ", d.as_str()),
            Error::FileNotFound(d) => concat("File not found: ", d.as_str()),
            Error::Regex(d) => concat("Regex error: ", d.as_str()),
            Error::Sql(d) => concat("SQL error: ", d.as_str()),
            Error::WriteNotAllowed(d) => concat("Write operation not allowed: ", d.as_str()),
            Error::DangerousOperation(d) => concat("Dangerous operation rejected: ", d.as_str()),
            Error::BackupFailed(d) => concat("Backup failed: ", d.as_str()),
            Error::WriteRejected(d) => concat("Write rejected: ", d.as_str()),
            Error::TableNotFound(d) => concat("Table not found: ", d.as_str()),
        }
    }
}

} // verus!
