//! Results as lines of text: a table with columns of equal width, and lines
//! of values with commas between them.

use vstd::prelude::*;
use vstd::utf8::{encode_utf8, is_char_boundary};
use vstd::string::StringSliceAdditionalSpecFns;
use crate::models::byte_len;
use crate::text::{append_chars, chars_of, concat, join_with, owned, string_of};

verus! {

/// What a row holds in a column.
#[derive(Clone, Debug, PartialEq, Eq)]
pub enum Cell {
    /// A text, shown as it is.
    Text(String),
    /// Any other value, shown as it is written in JSON.
    Other(String),
    /// Null.
    Null,
    /// The row has no value in this column.
    Missing,
}

impl Cell {
    /// How many bytes the cell counts for when the width of its column is
    /// found: those of its text; for null, the four of the word.
    pub open spec fn counted_len(self) -> usize {
        match self {
            Cell::Text(s) => byte_len(s@),
            Cell::Other(s) => byte_len(s@),
            Cell::Null => 4,
            Cell::Missing => 0,
        }
    }

    /// What the cell shows in a table: its text; nothing for null and for a
    /// missing value.
    pub open spec fn shown(self) -> Seq<char> {
        match self {
            Cell::Text(s) => s@,
            Cell::Other(s) => s@,
            _ => Seq::empty(),
        }
    }

    /// What the cell shows in a line of values: its text; `null` for null;
    /// nothing for a missing value.
    pub open spec fn written(self) -> Seq<char> {
        match self {
            Cell::Text(s) => s@,
            Cell::Other(s) => s@,
            Cell::Null => "null"@,
            Cell::Missing => Seq::empty(),
        }
    }
}

/// The cell of a row in the column `i`; missing where the row is too
/// short.
pub open spec fn cell_at(row: Seq<Cell>, i: int) -> Cell {
    if 0 <= i < row.len() {
        row[i]
    } else {
        Cell::Missing
    }
}

/// The width of a column after the first `n` rows: that of the header,
/// then, row after row, the larger of the width and of what the row's cell
/// counts for, but at most 50.
pub open spec fn width_upto(header: Seq<char>, rows: Seq<Vec<Cell>>, column: int, n: nat)
    -> usize
    decreases n,
{
    if n == 0 || n > rows.len() {
        byte_len(header)
    } else {
        let before = width_upto(header, rows, column, (n - 1) as nat);
        let counted = cell_at(rows[n - 1]@, column).counted_len();
        let larger = if before >= counted {
            before
        } else {
            counted
        };
        if larger <= 50 {
            larger
        } else {
            50
        }
    }
}

/// The text, with spaces after it up to `width` characters.
pub open spec fn padded(text: Seq<char>, width: usize) -> Seq<char> {
    if text.len() < width {
        text + Seq::new((width - text.len()) as nat, |i: int| ' ')
    } else {
        text
    }
}

/// Where a text that is too long for its column is cut: three bytes before
/// the width of the column, or at its start.
pub open spec fn cut_at(width: usize) -> int {
    if width >= 3 {
        width - 3
    } else {
        0
    }
}

/// Whether the cell fits into its column or can be cut for it: no
/// character lies across the cut.
pub open spec fn cell_fits(cell: Cell, width: usize) -> bool {
    byte_len(cell.shown()) > width ==> is_char_boundary(encode_utf8(cell.shown()), cut_at(width))
}

/// Whether the text is what a cell shows in a column of the given width:
/// the cell's text, or, where that takes more bytes than the column is
/// wide, its bytes up to the cut and `...`; with spaces after it up to the
/// width.
pub open spec fn shows(text: Seq<char>, cell: Cell, width: usize) -> bool {
    if byte_len(cell.shown()) > width {
        exists|head: Seq<char>|
            encode_utf8(head) == encode_utf8(cell.shown()).subrange(0, cut_at(width)) && text
                == padded(head + "..."@, width)
    } else {
        text == padded(cell.shown(), width)
    }
}

fn pad(text: &str, width: usize) -> (r: String)
    ensures
        r@ == padded(text@, width),
{
    let mut chars = chars_of(text);
    let ghost start = chars@;
    let missing: usize = if chars.len() < width {
        width - chars.len()
    } else {
        0
    };
    let mut i: usize = 0;
    while i < missing
        invariant
            i <= missing,
            chars@ == start + Seq::new(i as nat, |k: int| ' '),
        decreases missing - i,
    {
        chars.push(' ');
        assert(chars@ =~= start + Seq::new((i + 1) as nat, |k: int| ' '));
        i += 1;
    }
    assert(start + Seq::new(0nat, |k: int| ' ') =~= start);
    string_of(&chars)
}

fn counted(cell: Option<&Cell>) -> (r: usize)
    ensures
        r == match cell {
            Some(c) => c.counted_len(),
            None => 0usize,
        },
{
    match cell {
        Some(Cell::Text(s)) => s.as_str().len(),
        Some(Cell::Other(s)) => s.as_str().len(),
        Some(Cell::Null) => 4,
        _ => 0,
    }
}

fn cell_of(row: &Vec<Cell>, column: usize) -> (r: Option<&Cell>)
    ensures
        match r {
            Some(c) => *c == cell_at(row@, column as int),
            None => cell_at(row@, column as int) == Cell::Missing,
        },
{
    if column < row.len() {
        Some(&row[column])
    } else {
        None
    }
}

/// The width of a column.
pub fn column_width(header: &str, rows: &Vec<Vec<Cell>>, column: usize) -> (w: usize)
    ensures
        w == width_upto(header@, rows@, column as int, rows@.len()),
{
    let mut w: usize = header.len();
    let mut i: usize = 0;
    while i < rows.len()
        invariant
            i <= rows.len(),
            w == width_upto(header@, rows@, column as int, i as nat),
        decreases rows.len() - i,
    {
        let c = counted(cell_of(&rows[i], column));
        if c > w {
            w = c;
        }
        if w > 50 {
            w = 50;
        }
        i += 1;
    }
    w
}

/// What a cell shows in a column of the given width.
pub fn show_cell(cell: &Cell, width: usize) -> (r: String)
    requires
        cell_fits(*cell, width),
    ensures
        shows(r@, *cell, width),
{
    let text: &str = match cell {
        Cell::Text(s) => s.as_str(),
        Cell::Other(s) => s.as_str(),
        _ => "",
    };
    proof {
        reveal_strlit("");
        assert(text@ =~= cell.shown());
    }
    if text.len() > width {
        let cut: usize = if width >= 3 {
            width - 3
        } else {
            0
        };
        let (head, _) = text.split_at(cut);
        let shortened = concat(head, "...");
        pad(shortened.as_str(), width)
    } else {
        pad(text, width)
    }
}

/// The texts, with `separator` between them.
pub fn join_texts(texts: &Vec<String>, separator: &str) -> (r: String)
    ensures
        r@ == join_with(Seq::new(texts@.len(), |i: int| texts@[i]@), separator@),
{
    let ghost all = Seq::new(texts@.len(), |i: int| texts@[i]@);
    let sep = chars_of(separator);
    let mut out: Vec<char> = Vec::new();
    let mut i: usize = 0;
    while i < texts.len()
        invariant
            i <= texts.len(),
            sep@ == separator@,
            all == Seq::new(texts@.len(), |i: int| texts@[i]@),
            out@ == join_with(all.take(i as int), separator@),
        decreases texts.len() - i,
    {
        proof {
            assert(all.take(i + 1).drop_last() == all.take(i as int));
            assert(all.take(i + 1).last() == texts@[i as int]@);
        }
        if i > 0 {
            append_chars(&mut out, &sep);
        }
        append_chars(&mut out, &chars_of(texts[i].as_str()));
        i += 1;
    }
    assert(all.take(texts@.len() as int) == all);
    string_of(&out)
}

/// What a cell shows in a line of values.
pub fn write_cell(cell: &Cell) -> (r: String)
    ensures
        r@ == cell.written(),
{
    match cell {
        Cell::Text(s) => s.clone(),
        Cell::Other(s) => s.clone(),
        Cell::Null => owned("null"),
        Cell::Missing => String::new(),
    }
}

/// A line of the values of a row, one for each of `columns` columns, with
/// commas between them.
pub fn csv_line(row: &Vec<Cell>, columns: usize) -> (r: String)
    ensures
        r@ == join_with(Seq::new(columns as nat, |i: int| cell_at(row@, i).written()), ","@),
{
    let mut values: Vec<String> = Vec::new();
    let mut i: usize = 0;
    while i < columns
        invariant
            i <= columns,
            values@.len() == i,
            forall|k: int| 0 <= k < i ==> (#[trigger] values@[k])@ == cell_at(row@, k).written(),
        decreases columns - i,
    {
        let value = match cell_of(row, i) {
            Some(cell) => write_cell(cell),
            None => String::new(),
        };
        values.push(value);
        i += 1;
    }
    assert(Seq::new(values@.len(), |i: int| values@[i]@) =~= Seq::new(
        columns as nat,
        |i: int| cell_at(row@, i).written(),
    ));
    join_texts(&values, ",")
}

/// The widths of the columns.
pub fn column_widths(headers: &Vec<String>, rows: &Vec<Vec<Cell>>) -> (widths: Vec<usize>)
    ensures
        widths@.len() == headers@.len(),
        forall|i: int|
            0 <= i < widths@.len() ==> #[trigger] widths@[i] == width_upto(
                headers@[i]@,
                rows@,
                i,
                rows@.len(),
            ),
{
    let mut widths: Vec<usize> = Vec::new();
    let mut i: usize = 0;
    while i < headers.len()
        invariant
            i <= headers.len(),
            widths@.len() == i,
            forall|k: int|
                0 <= k < i ==> #[trigger] widths@[k] == width_upto(
                    headers@[k]@,
                    rows@,
                    k,
                    rows@.len(),
                ),
        decreases headers.len() - i,
    {
        widths.push(column_width(headers[i].as_str(), rows, i));
        i += 1;
    }
    widths
}

/// The line of the headers: each with spaces after it up to the width of
/// its column, and ` | ` between them.
pub fn header_line(headers: &Vec<String>, widths: &Vec<usize>) -> (r: String)
    requires
        widths@.len() == headers@.len(),
    ensures
        r@ == join_with(
            Seq::new(headers@.len(), |i: int| padded(headers@[i]@, widths@[i])),
            " | "@,
        ),
{
    let mut cells: Vec<String> = Vec::new();
    let mut i: usize = 0;
    while i < headers.len()
        invariant
            i <= headers.len(),
            widths@.len() == headers@.len(),
            cells@.len() == i,
            forall|k: int| 0 <= k < i ==> (#[trigger] cells@[k])@ == padded(headers@[k]@, widths@[k]),
        decreases headers.len() - i,
    {
        cells.push(pad(headers[i].as_str(), widths[i]));
        i += 1;
    }
    assert(Seq::new(cells@.len(), |i: int| cells@[i]@) =~= Seq::new(
        headers@.len(),
        |i: int| padded(headers@[i]@, widths@[i]),
    ));
    join_texts(&cells, " | ")
}

/// The line under the headers: for each column as many `-` as it is wide,
/// and `-+-` between them.
pub fn separator_line(widths: &Vec<usize>) -> (r: String)
    ensures
        r@ == join_with(
            Seq::new(widths@.len(), |i: int| Seq::new(widths@[i] as nat, |k: int| '-')),
            "-+-"@,
        ),
{
    let mut cells: Vec<String> = Vec::new();
    let mut i: usize = 0;
    while i < widths.len()
        invariant
            i <= widths.len(),
            cells@.len() == i,
            forall|k: int|
                0 <= k < i ==> (#[trigger] cells@[k])@ == Seq::new(
                    widths@[k] as nat,
                    |j: int| '-',
                ),
        decreases widths.len() - i,
    {
        let mut dashes: Vec<char> = Vec::new();
        let mut k: usize = 0;
        while k < widths[i]
            invariant
                k <= widths[i as int],
                i < widths.len(),
                dashes@ == Seq::new(k as nat, |j: int| '-'),
            decreases widths[i as int] - k,
        {
            dashes.push('-');
            assert(dashes@ =~= Seq::new((k + 1) as nat, |j: int| '-'));
            k += 1;
        }
        cells.push(string_of(&dashes));
        i += 1;
    }
    assert(Seq::new(cells@.len(), |i: int| cells@[i]@) =~= Seq::new(
        widths@.len(),
        |i: int| Seq::new(widths@[i] as nat, |k: int| '-'),
    ));
    join_texts(&cells, "-+-")
}

/// Whether every cell of the row fits into its column or can be cut for
/// it.
pub open spec fn row_fits(row: Seq<Cell>, widths: Seq<usize>) -> bool {
    forall|i: int| 0 <= i < widths.len() ==> cell_fits(#[trigger] cell_at(row, i), widths[i])
}

/// The line of a row: what each cell shows in its column, and ` | `
/// between them.
pub fn row_line(row: &Vec<Cell>, widths: &Vec<usize>) -> (r: String)
    requires
        row_fits(row@, widths@),
    ensures
        exists|cells: Seq<Seq<char>>|
            cells.len() == widths@.len() && (forall|i: int|
                0 <= i < cells.len() ==> shows(#[trigger] cells[i], cell_at(row@, i), widths@[i]))
                && r@ == join_with(cells, " | "@),
{
    let mut cells: Vec<String> = Vec::new();
    let missing = Cell::Missing;
    let mut i: usize = 0;
    while i < widths.len()
        invariant
            i <= widths.len(),
            row_fits(row@, widths@),
            missing == Cell::Missing,
            cells@.len() == i,
            forall|k: int|
                0 <= k < i ==> shows((#[trigger] cells@[k])@, cell_at(row@, k), widths@[k]),
        decreases widths.len() - i,
    {
        assert(cell_fits(cell_at(row@, i as int), widths@[i as int]));
        let text = match cell_of(row, i) {
            Some(cell) => show_cell(cell, widths[i]),
            None => show_cell(&missing, widths[i]),
        };
        cells.push(text);
        i += 1;
    }
    let ghost views = Seq::new(cells@.len(), |i: int| cells@[i]@);
    let line = join_texts(&cells, " | ");
    proof {
        assert forall|i: int| 0 <= i < views.len() implies shows(
            #[trigger] views[i],
            cell_at(row@, i),
            widths@[i],
        ) by {
            assert(views[i] == cells@[i]@);
        }
    }
    line
}

} // verus!
