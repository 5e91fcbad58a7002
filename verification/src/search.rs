//! Searching texts: the pattern that is searched for, and the places at
//! which it was found.

use vstd::prelude::*;
use regex::Regex;
use crate::error::{Error, ErrorKind};
use crate::pattern::{
    compile, escape, escaped, is_match, regex_compiles, regex_error, regex_failure_text,
    regex_matches, regex_source,
};
use crate::text::{concat, owned};

verus! {

/// The pattern that is searched for: the text as a regular expression, or
/// escaped where it is to be taken literally; `(?i)` before it where the
/// case of letters is not to count.
pub open spec fn search_pattern(pattern: Seq<char>, case_sensitive: bool, is_regex: bool) -> Seq<
    char,
> {
    let base = if is_regex {
        pattern
    } else {
        escaped(pattern)
    };
    if case_sensitive {
        base
    } else {
        "(?i)"@ + base
    }
}

/// The pattern that is searched for.
pub fn build_search_pattern(pattern: &str, case_sensitive: bool, is_regex: bool) -> (r: String)
    ensures
        r@ == search_pattern(pattern@, case_sensitive, is_regex),
{
    let base = if is_regex {
        owned(pattern)
    } else {
        escape(pattern)
    };
    if case_sensitive {
        base
    } else {
        concat("(?i)", base.as_str())
    }
}

/// A search for a pattern.
pub struct SearchEngine {
    pattern: Regex,
    _case_sensitive: bool,
}

impl SearchEngine {
    /// The pattern that this search looks for.
    pub closed spec fn pattern_text(&self) -> Seq<char> {
        regex_source(self.pattern)
    }

    /// A search for `pattern`, taken as a regular expression or literally,
    /// with or without regard to the case of letters. It fails where the
    /// pattern does not compile.
    pub fn new(pattern: &str, case_sensitive: bool, is_regex: bool) -> (r: Result<
        SearchEngine,
        Error,
    >)
        ensures
            r is Ok <==> regex_compiles(search_pattern(pattern@, case_sensitive, is_regex)),
            r is Ok ==> r->Ok_0.pattern_text() == search_pattern(
                pattern@,
                case_sensitive,
                is_regex,
            ),
            r is Err ==> r->Err_0.kind() == ErrorKind::Regex && r->Err_0.detail()
                == regex_failure_text(search_pattern(pattern@, case_sensitive, is_regex)),
    {
        let regex_pattern = build_search_pattern(pattern, case_sensitive, is_regex);
        match compile(regex_pattern.as_str()) {
            Ok(regex) => Ok(SearchEngine { pattern: regex, _case_sensitive: case_sensitive }),
            Err(failure) => Err(regex_error(failure)),
        }
    }

    /// Whether the pattern is found in the text.
    pub fn matches(&self, text: &str) -> (r: bool)
        ensures
            r == regex_matches(self.pattern_text(), text@),
    {
        is_match(&self.pattern, text)
    }
}

/// A match of a search: where it was found, the text found, and the lines
/// around it.
#[derive(Clone, Debug, PartialEq, Eq)]
pub struct SearchMatch {
    pub source: String,
    pub line_number: Option<usize>,
    pub content: String,
    pub context_before: Vec<String>,
    pub context_after: Vec<String>,
}

impl SearchMatch {
    /// A match in `source` with the text `content`, without a line number
    /// and without context.
    pub fn new(source: String, content: String) -> (m: SearchMatch)
        ensures
            m.source == source,
            m.content == content,
            m.line_number is None,
            m.context_before@.len() == 0,
            m.context_after@.len() == 0,
    {
        SearchMatch {
            source,
            line_number: None,
            content,
            context_before: Vec::new(),
            context_after: Vec::new(),
        }
    }

    /// The match with the line number `line`.
    pub fn with_line(self, line: usize) -> (m: SearchMatch)
        ensures
            m.line_number == Some(line),
            m.source == self.source,
            m.content == self.content,
            m.context_before == self.context_before,
            m.context_after == self.context_after,
    {
        let mut m = self;
        m.line_number = Some(line);
        m
    }

    /// The match with the lines `before` and `after` around it.
    pub fn with_context(self, before: Vec<String>, after: Vec<String>) -> (m: SearchMatch)
        ensures
            m.context_before == before,
            m.context_after == after,
            m.source == self.source,
            m.content == self.content,
            m.line_number == self.line_number,
    {
        let mut m = self;
        m.context_before = before;
        m.context_after = after;
        m
    }
}

} // verus!
