//! Regular expressions. They are those of the crate `regex`: the library
//! builds the patterns and decides around what `regex` answers.

use vstd::prelude::*;
use regex::Regex;
use crate::error::{Error, ErrorKind};

verus! {

/// A compiled regular expression of `regex`.
#[verifier::external_type_specification]
#[verifier::external_body]
pub struct ExRegex(regex::Regex);

/// The pattern that a compiled regular expression was made from: what
/// `Regex::as_str` returns.
pub uninterp spec fn regex_source(re: Regex) -> Seq<char>;

/// Whether `Regex::new` compiles the pattern.
pub uninterp spec fn regex_compiles(pattern: Seq<char>) -> bool;

/// Whether the regular expression compiled from `pattern` has a match in
/// `text`: what `Regex::is_match` returns.
pub uninterp spec fn regex_matches(pattern: Seq<char>, text: Seq<char>) -> bool;

/// What the capture group `group` holds in each match, in order, of the
/// regular expression compiled from `pattern` in `text`, for the matches in
/// which the group took part.
pub uninterp spec fn regex_group_texts(pattern: Seq<char>, text: Seq<char>, group: usize) -> Seq<
    Seq<char>,
>;

/// What `regex` says of its failure to compile the pattern.
pub uninterp spec fn regex_failure_text(pattern: Seq<char>) -> Seq<char>;

/// A character with a meaning of its own in a regular expression.
pub open spec fn is_meta_character(c: char) -> bool {
    c == '\\' || c == '.' || c == '+' || c == '*' || c == '?' || c == '(' || c == ')' || c == '|'
        || c == '[' || c == ']' || c == '{' || c == '}' || c == '^' || c == '$' || c == '#' || c
        == '&' || c == '-' || c == '~'
}

/// The text with a `\` before each character that has a meaning of its own
/// in a regular expression.
pub open spec fn escaped(text: Seq<char>) -> Seq<char>
    decreases text.len(),
{
    if text.len() == 0 {
        Seq::empty()
    } else if is_meta_character(text.last()) {
        escaped(text.drop_last()).push('\\').push(text.last())
    } else {
        escaped(text.drop_last()).push(text.last())
    }
}

/// Calls `regex::escape`, which puts a `\` before each of the characters
/// `\ . + * ? ( ) | [ ] { } ^ $ # & - ~` and leaves the others as they are.
#[verifier::external_body]
pub(crate) fn escape(text: &str) -> (r: String)
    ensures
        r@ == escaped(text@),
{
    regex::escape(text)
}

/// Calls `Regex::new`. Whether the pattern compiles depends on the pattern
/// alone and is named `regex_compiles`; the compiled expression keeps the
/// pattern it was made from. Of a failure the wrapper hands back what
/// `regex` writes of it, which is named `regex_failure_text`; nothing is
/// claimed of what that text says.
#[verifier::external_body]
pub(crate) fn compile(pattern: &str) -> (r: Result<Regex, String>)
    ensures
        r is Ok <==> regex_compiles(pattern@),
        r is Ok ==> regex_source(r->Ok_0) == pattern@,
        r is Err ==> r->Err_0@ == regex_failure_text(pattern@),
{
    Regex::new(pattern).map_err(|e| e.to_string())
}

/// Calls `Regex::is_match`. The answer depends on the pattern of the
/// expression and on the text alone, and is named `regex_matches`.
#[verifier::external_body]
pub(crate) fn is_match(re: &Regex, text: &str) -> (r: bool)
    ensures
        r == regex_matches(regex_source(*re), text@),
{
    re.is_match(text)
}

/// Calls `Regex::captures_iter` and takes from each match what the group
/// holds, by `Captures::get`. The texts depend on the pattern of the
/// expression, the text and the group alone, and are named
/// `regex_group_texts`.
#[verifier::external_body]
pub(crate) fn group_texts(re: &Regex, text: &str, group: usize) -> (r: Vec<String>)
    ensures
        r@.len() == regex_group_texts(regex_source(*re), text@, group).len(),
        forall|i: int|
            0 <= i < r@.len() ==> (#[trigger] r@[i])@ == regex_group_texts(
                regex_source(*re),
                text@,
                group,
            )[i],
{
    re.captures_iter(text).filter_map(|c| c.get(group).map(|m| m.as_str().to_string())).collect()
}

/// The failure to report for a pattern that does not compile, with what
/// `regex` wrote of it.
pub fn regex_error(failure: String) -> (r: Error)
    ensures
        r.kind() == ErrorKind::Regex,
        r.detail() == failure@,
{
    Error::Regex(failure)
}

} // verus!
