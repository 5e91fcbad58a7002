//! What is written out: the formats, a writer that collects the text to
//! print, and the shortening of texts for a table's cells.

use vstd::prelude::*;
use crate::text::{append_chars, chars_of, owned, slice_chars, string_of};

verus! {

/// The format in which results are written.
#[derive(Clone, Copy, Debug, PartialEq, Eq, Structural)]
pub enum OutputFormat {
    Json,
    Table,
    Raw,
    Jsonl,
}

impl Default for OutputFormat {
    fn default() -> (r: OutputFormat)
        ensures
            r == OutputFormat::Table,
    {
        OutputFormat::Table
    }
}

impl OutputFormat {
    /// Whether JSON is written over several lines, with indentation: so it
    /// is for `Json` and for `Table`; for `Raw` and `Jsonl` each value takes
    /// one line.
    pub fn is_pretty(&self) -> (r: bool)
        ensures
            r == (*self == OutputFormat::Json || *self == OutputFormat::Table),
    {
        match self {
            OutputFormat::Json | OutputFormat::Table => true,
            OutputFormat::Raw | OutputFormat::Jsonl => false,
        }
    }
}

/// A writer that collects, line by line, the text that is to be printed.
#[derive(Debug)]
pub struct OutputWriter {
    writer: Vec<char>,
    format: OutputFormat,
}

impl OutputWriter {
    /// The text collected so far.
    pub closed spec fn written(&self) -> Seq<char> {
        self.writer@
    }

    /// The format of this writer.
    pub closed spec fn format_of(&self) -> OutputFormat {
        self.format
    }

    /// A writer that begins with the text `writer` and writes in `format`.
    pub fn new(writer: String, format: OutputFormat) -> (w: OutputWriter)
        ensures
            w.written() == writer@,
            w.format_of() == format,
    {
        OutputWriter { writer: chars_of(writer.as_str()), format }
    }

    /// The format of this writer.
    pub fn format(&self) -> (f: OutputFormat)
        ensures
            f == self.format_of(),
    {
        self.format
    }

    /// Writes the text and ends the line.
    pub fn writeln(&mut self, text: &str)
        ensures
            final(self).written() == old(self).written() + text@ + seq!['\n'],
            final(self).format_of() == old(self).format_of(),
    {
        let chars = chars_of(text);
        append_chars(&mut self.writer, &chars);
        self.writer.push('\n');
        assert(self.writer@ =~= old(self).writer@ + text@ + seq!['\n']);
    }

    /// The text collected, which is taken out of the writer.
    pub fn take_written(&mut self) -> (text: String)
        ensures
            text@ == old(self).written(),
            final(self).written() == Seq::<char>::empty(),
            final(self).format_of() == old(self).format_of(),
    {
        let text = string_of(&self.writer);
        self.writer = Vec::new();
        text
    }
}

/// The text `s`, shortened for a cell: where `s` takes more than `max_len`
/// bytes, its first `max_len - 3` characters and `...`; else `s` itself.
pub open spec fn truncated(s: Seq<char>, bytes: nat, max_len: nat) -> Seq<char> {
    if bytes > max_len {
        let keep = if max_len - 3 <= s.len() {
            max_len - 3
        } else {
            s.len() as int
        };
        s.take(keep) + "..."@
    } else {
        s
    }
}

/// The text `s`, shortened for a cell of `max_len` bytes. A text longer
/// than that is cut to make room for `...`, so `max_len` is then at least
/// 3.
pub fn truncate_string(s: &str, max_len: usize) -> (r: String)
    requires
        s.len() <= max_len || max_len >= 3,
    ensures
        r@ == truncated(s@, s.len() as nat, max_len as nat),
{
    if s.len() > max_len {
        let chars = chars_of(s);
        let keep = if max_len - 3 <= chars.len() {
            max_len - 3
        } else {
            chars.len()
        };
        let mut head = slice_chars(&chars, 0, keep);
        assert(chars@.subrange(0, keep as int) == chars@.take(keep as int));
        append_chars(&mut head, &chars_of("..."));
        string_of(&head)
    } else {
        owned(s)
    }
}

} // verus!
