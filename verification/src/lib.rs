//! SQL over data that lies in JSON files: single files, and directories of
//! files that are merged into one table when they are scanned.
//!
//! The library holds the rules, each with its contract:
//!
//! - `value`, `codec`, `parse`: JSON values, the values of the SQL engine,
//!   and the mapping between the two;
//! - `record`, `scanner`, `merge`: the rows of the merged tables, made from
//!   the files of a table as they were read;
//! - `schema`, `storage`: which tables there are, and what a store does
//!   with each call of the engine;
//! - `safety`, `engine`: the guard before statements that write, what is
//!   done with a statement step by step, and the one shape of the engine's
//!   answers;
//! - `query`, `search`, `pattern`, `dedup`, `order`: the small query
//!   language, searching, and prompts that are alike;
//! - `config`, `datasources`, `models`, `dates`, `output`, `table`,
//!   `report`, `unified`: where the data lies, what it holds, and how it is
//!   shown;
//! - `text`, `paths`, `error`: texts, paths and failures.
//!
//! Reading files, running the engine and printing are left to the program
//! around the library.

pub mod codec;
pub mod config;
pub mod datasources;
pub mod dates;
pub mod dedup;
pub mod engine;
pub mod error;
pub mod merge;
pub mod models;
pub mod order;
pub mod output;
pub mod parse;
pub mod paths;
pub mod pattern;
pub mod query;
pub mod record;
pub mod report;
pub mod safety;
pub mod scanner;
pub mod schema;
pub mod search;
pub mod storage;
pub mod table;
pub mod text;
pub mod unified;
pub mod value;

pub use config::Config;
pub use error::Error;
