//! Where the data lies: the data directory and the files and directories
//! under it. Paths are held as texts, with `/` between their components.

use vstd::prelude::*;
use crate::error::{Error, ErrorKind};
use crate::text::{append_chars, chars_of, concat, owned, string_of};

verus! {

/// The path of the entry `name` in the directory `base`: `base`, a `/`
/// unless `base` is empty or ends with one, and `name`. `name` is a relative
/// path.
pub open spec fn child_path(base: Seq<char>, name: Seq<char>) -> Seq<char> {
    if base.len() == 0 || base.last() == '/' {
        base + name
    } else {
        base + seq!['/'] + name
    }
}

/// The path of the entry `name` in the directory `base`.
pub fn join_path(base: &str, name: &str) -> (r: String)
    ensures
        r@ == child_path(base@, name@),
{
    let mut path = chars_of(base);
    let tail = chars_of(name);
    if path.len() > 0 && path[path.len() - 1] != '/' {
        path.push('/');
    }
    append_chars(&mut path, &tail);
    string_of(&path)
}

/// The data directory in which the tables' files lie.
#[derive(Clone, Debug, PartialEq, Eq)]
pub struct Config {
    pub data_dir: String,
}

impl Config {
    /// A configuration for the data directory `data_dir`, which `exists`
    /// says is there. One that is not there is refused.
    pub fn new(data_dir: String, exists: bool) -> (r: Result<Config, Error>)
        ensures
            exists ==> r is Ok && r->Ok_0.data_dir@ == data_dir@,
            !exists ==> r is Err && r->Err_0.kind() == ErrorKind::InvalidPath
                && r->Err_0.detail() == "Data directory does not exist: "@ + data_dir@,
    {
        if !exists {
            return Err(
                Error::InvalidPath(concat("Data directory does not exist: ", data_dir.as_str())),
            );
        }
        Ok(Config { data_dir })
    }

    /// The data directory to use where none is given: the directory `name`
    /// in the home directory `home`, or the relative path `name` where there
    /// is no home directory.
    pub fn default_data_dir(home: Option<&str>, name: &str) -> (r: String)
        ensures
            r@ == match home {
                Some(h) => child_path(h@, name@),
                None => name@,
            },
    {
        match home {
            Some(h) => join_path(h, name),
            None => owned(name),
        }
    }

    /// The directory of the conversation logs.
    pub fn transcripts_dir(&self) -> (r: String)
        ensures
            r@ == child_path(self.data_dir@, "transcripts"@),
    {
        join_path(self.data_dir.as_str(), "transcripts")
    }

    /// The file of the prompt history.
    pub fn history_file(&self) -> (r: String)
        ensures
            r@ == child_path(self.data_dir@, "history.jsonl"@),
    {
        join_path(self.data_dir.as_str(), "history.jsonl")
    }

    /// The file of the second prompt history, whose lines are normalized
    /// when they are read.
    pub fn jhistory_file(&self) -> (r: String)
        ensures
            r@ == child_path(self.data_dir@, "jhistory.jsonl"@),
    {
        join_path(self.data_dir.as_str(), "jhistory.jsonl")
    }

    /// The directory of the projects.
    pub fn projects_dir(&self) -> (r: String)
        ensures
            r@ == child_path(self.data_dir@, "projects"@),
    {
        join_path(self.data_dir.as_str(), "projects")
    }

    /// The directory of the task lists.
    pub fn todos_dir(&self) -> (r: String)
        ensures
            r@ == child_path(self.data_dir@, "todos"@),
    {
        join_path(self.data_dir.as_str(), "todos")
    }

    /// The file of the usage statistics.
    pub fn stats_file(&self) -> (r: String)
        ensures
            r@ == child_path(self.data_dir@, "stats-cache.json"@),
    {
        join_path(self.data_dir.as_str(), "stats-cache.json")
    }
}

} // verus!
