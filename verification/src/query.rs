//! The small query language over JSON values: paths, iteration, selection
//! and pipelines, and the builders of its filter expressions.

use vstd::prelude::*;
use crate::error::Error;
use crate::text::{
    all_digits, digits_value, parse_decimal, append_chars, chars_equal, chars_of, contains, contains_text, find, find_any,
    first_occurrence, first_of_set, is_first_of_set, is_last_of_char,
    last_of_char, occurs_at, rfind_char, slice_chars, starts_with, string_of, trim, trim_char,
    trim_matches_char, trim_start_in, trim_start_set, trimmed,
};
use crate::value::{
    clone_json, find_member, json_items_view, lemma_json_array_view,
    lemma_json_object_view, member_from, JsonValue, JsonView,
};

verus! {

/// The engine of the small query language.
#[derive(Clone, Copy, Debug, PartialEq, Eq, Structural)]
pub struct QueryEngine;

impl QueryEngine {
    /// An engine.
    pub fn new() -> (engine: QueryEngine)
        ensures
            engine == QueryEngine,
    {
        QueryEngine
    }
}

impl Default for QueryEngine {
    fn default() -> (engine: QueryEngine)
        ensures
            engine == QueryEngine,
    {
        QueryEngine
    }
}

// ---------------------------------------------------------------------------
// Positions in arrays
// ---------------------------------------------------------------------------

/// The position that a text stands for: the text is decimal digits, at
/// least one, after at most one `+`, and the number fits.
pub open spec fn parsed_index(s: Seq<char>) -> Option<usize> {
    let digits = if s.len() > 0 && s[0] == '+' {
        s.skip(1)
    } else {
        s
    };
    if digits.len() > 0 && all_digits(digits) && digits_value(digits) <= usize::MAX {
        Some(digits_value(digits) as usize)
    } else {
        None
    }
}

/// The position that a text stands for.
pub fn parse_index(s: &Vec<char>) -> (r: Option<usize>)
    ensures
        r == parsed_index(s@),
{
    let start: usize = if s.len() > 0 && s[0] == '+' {
        1
    } else {
        0
    };
    assert(s@.skip(0) == s@);
    match parse_decimal(s, start, usize::MAX as u64) {
        Some(value) => Some(value as usize),
        None => None,
    }
}

// ---------------------------------------------------------------------------
// What a query gives
// ---------------------------------------------------------------------------

/// What a query gives for an input, with nested queries followed to at most
/// `depth` levels. Every nested query is shorter than the query that holds
/// it, so a depth above the length of the query follows all of them.
///
/// The query is trimmed. Then:
/// - `.` gives the input;
/// - `.[]` and a rest gives the items of an array, or what the rest gives
///   for each of them; for any other input, nothing;
/// - `.[`, a position, `]` and a rest gives the item at that position of an
///   array, or what the rest gives for it; nothing where there is no such
///   item or the input is no array;
/// - `.`, a name and a rest, which begins at the first `.`, `[` or `|`,
///   gives the member of that name of an object, or what the rest gives
///   for it; null where there is no such member or the input is no object;
/// - `select(`, a condition up to the last `)`, and a rest gives nothing
///   where the condition does not hold, and else the input, or what the
///   rest gives for it;
/// - a query with a `|` gives what the part after the first `|` gives for
///   each result of the part before it;
/// - any other query gives the input.
pub open spec fn eval(query: Seq<char>, input: JsonView, depth: nat) -> Seq<JsonView>
    decreases depth, 0nat,
{
    let q = trimmed(query);
    let below = (depth - 1) as nat;
    if depth == 0 || q == "."@ {
        seq![input]
    } else if ".[]"@.is_prefix_of(q) {
        let rest = q.skip(".[]"@.len() as int);
        match input {
            JsonView::Array(items) => if rest.len() == 0 {
                items
            } else {
                eval_each_upto(rest, items, below, items.len())
            },
            _ => Seq::empty(),
        }
    } else if index_step(q) is Some {
        let (at, rest) = index_step(q)->0;
        match input {
            JsonView::Array(items) => if at < items.len() {
                if rest.len() == 0 {
                    seq![items[at as int]]
                } else {
                    eval(rest, items[at as int], below)
                }
            } else {
                Seq::empty()
            },
            _ => Seq::empty(),
        }
    } else if "."@.is_prefix_of(q) {
        let (name, rest) = field_step(q);
        match input {
            JsonView::Object(members) => match member_from(members, name, 0) {
                Some(value) => if rest.len() == 0 {
                    seq![value]
                } else {
                    eval(rest, value, below)
                },
                None => seq![JsonView::Null],
            },
            _ => seq![JsonView::Null],
        }
    } else if "select("@.is_prefix_of(q) && last_of_char(q, ')') is Some {
        let end = last_of_char(q, ')')->0;
        let condition = q.subrange("select("@.len() as int, end);
        if holds(condition, input, below) {
            let rest = trimmed(trim_start_set(q.skip(end + 1), seq![' ', '|']));
            if rest.len() == 0 {
                seq![input]
            } else {
                eval(rest, input, below)
            }
        } else {
            Seq::empty()
        }
    } else if first_of_set(q, seq!['|']) is Some {
        let at = first_of_set(q, seq!['|'])->0;
        let first = trimmed(q.take(at));
        let second = trimmed(q.skip(at + 1));
        let between = eval(first, input, below);
        eval_each_upto(second, between, below, between.len())
    } else {
        seq![input]
    }
}

/// What the query gives for each of the first `n` items, one after the
/// other.
pub open spec fn eval_each_upto(query: Seq<char>, items: Seq<JsonView>, depth: nat, n: nat) -> Seq<
    JsonView,
>
    decreases depth, n + 1,
{
    if n == 0 || n > items.len() {
        Seq::empty()
    } else {
        eval_each_upto(query, items, depth, (n - 1) as nat) + eval(query, items[n - 1], depth)
    }
}

/// The position and the rest of a query that begins with `.[`, a position
/// and `]`.
pub open spec fn index_step(q: Seq<char>) -> Option<(usize, Seq<char>)> {
    if ".["@.is_prefix_of(q) {
        match first_of_set(q, seq![']']) {
            Some(end) => match parsed_index(q.subrange(".["@.len() as int, end)) {
                Some(at) => Some((at, q.skip(end + 1))),
                None => None,
            },
            None => None,
        }
    } else {
        None
    }
}

/// The name and the rest of a query that begins with `.` and a name.
pub open spec fn field_step(q: Seq<char>) -> (Seq<char>, Seq<char>) {
    let after = q.skip("."@.len() as int);
    match first_of_set(after, seq!['.', '[', '|']) {
        Some(at) => (after.take(at), after.skip(at)),
        None => (after, Seq::empty()),
    }
}

/// Whether the first of the results is a text for which `on_text` holds;
/// `otherwise` where it is no text. There is no answer without a result.
pub open spec fn first_text_is(
    results: Seq<JsonView>,
    on_text: spec_fn(Seq<char>) -> bool,
    otherwise: bool,
) -> Option<bool> {
    if results.len() == 0 {
        None
    } else {
        match results[0] {
            JsonView::Str(s) => Some(on_text(s)),
            _ => Some(otherwise),
        }
    }
}

/// What an equality or an inequality says: the condition holds `==` or
/// `!=`, the query before it gives a result for the input, and the first
/// result is compared with the text after it, without the quotation marks
/// around that text. A first result that is no text is unequal to every
/// text.
pub open spec fn comparison(
    c: Seq<char>,
    operator: Seq<char>,
    equal: bool,
    input: JsonView,
    depth: nat,
) -> Option<bool>
    decreases depth, 0nat,
{
    match first_occurrence(c, operator) {
        Some(at) => {
            let left = trimmed(c.take(at));
            let right = trim_char(trimmed(c.skip(at + operator.len())), '"');
            if depth == 0 {
                None
            } else {
                first_text_is(
                    eval(left, input, (depth - 1) as nat),
                    |s: Seq<char>| (s == right) == equal,
                    !equal,
                )
            }
        },
        None => None,
    }
}

/// What a test says: the condition holds `test(` and a `|`; the part after
/// the first `|` begins with `test(` and holds a `)`; the query before the
/// `|` gives a result for the input; and the first result is a text that
/// holds the pattern, which stands between `test(` and the last `)`,
/// without the quotation marks around it.
pub open spec fn test_holds(c: Seq<char>, input: JsonView, depth: nat) -> bool
    decreases depth, 0nat,
{
    if contains_text(c, "test("@) && first_of_set(c, seq!['|']) is Some {
        let at = first_of_set(c, seq!['|'])->0;
        let field = trimmed(c.take(at));
        let test_part = trimmed(c.skip(at + 1));
        if "test("@.is_prefix_of(test_part) && last_of_char(test_part, ')') is Some && depth > 0 {
            let end = last_of_char(test_part, ')')->0;
            let pattern = trim_char(
                trimmed(test_part.subrange("test("@.len() as int, end)),
                '"',
            );
            let results = eval(field, input, (depth - 1) as nat);
            results.len() > 0 && match results[0] {
                JsonView::Str(s) => contains_text(s, pattern),
                _ => false,
            }
        } else {
            false
        }
    } else {
        false
    }
}

/// Whether a condition holds for an input: what its equality says, else
/// what its inequality says, else what its test says.
pub open spec fn holds(condition: Seq<char>, input: JsonView, depth: nat) -> bool
    decreases depth, 1nat,
{
    let c = trimmed(condition);
    match comparison(c, "=="@, true, input, depth) {
        Some(answer) => answer,
        None => match comparison(c, "!="@, false, input, depth) {
            Some(answer) => answer,
            None => test_holds(c, input, depth),
        },
    }
}

/// What a query gives for an input.
pub open spec fn query_results(query: Seq<char>, input: JsonView) -> Seq<JsonView> {
    eval(query, input, query.len() + 1)
}

/// What a query gives for each of the inputs, one after the other.
pub open spec fn query_results_each(query: Seq<char>, inputs: Seq<JsonView>) -> Seq<JsonView> {
    eval_each_upto(query, inputs, query.len() + 1, inputs.len())
}

// ---------------------------------------------------------------------------
// Running a query
// ---------------------------------------------------------------------------

fn one(value: JsonValue) -> (out: Vec<JsonValue>)
    ensures
        json_items_view(out@) == seq![value@],
{
    let mut out: Vec<JsonValue> = Vec::new();
    out.push(value);
    assert(json_items_view(out@) =~= seq![value@]);
    out
}

fn clone_items(items: &Vec<JsonValue>) -> (out: Vec<JsonValue>)
    ensures
        json_items_view(out@) == json_items_view(items@),
{
    let mut out: Vec<JsonValue> = Vec::new();
    let mut i: usize = 0;
    while i < items.len()
        invariant
            i <= items.len(),
            out@.len() == i,
            forall|k: int| 0 <= k < i ==> (#[trigger] out@[k])@ == items@[k]@,
        decreases items.len() - i,
    {
        out.push(clone_json(&items[i]));
        i += 1;
    }
    assert(json_items_view(out@) =~= json_items_view(items@));
    out
}

fn set_of(a: char) -> (set: Vec<char>)
    ensures
        set@ == seq![a],
{
    let mut set: Vec<char> = Vec::new();
    set.push(a);
    assert(set@ =~= seq![a]);
    set
}

fn index_step_of(q: &Vec<char>) -> (r: Option<(usize, Vec<char>)>)
    ensures
        match r {
            Some((at, rest)) => index_step(q@) == Some((at, rest@)) && rest@.len() < q@.len(),
            None => index_step(q@) is None,
        },
{
    let open = chars_of(".[");
    if !starts_with(q, &open) {
        return None;
    }
    match find_any(q, &set_of(']')) {
        Some(end) => {
            proof {
                reveal_strlit(".[");
                assert(is_first_of_set(q@, seq![']'], end as int));
                assert(q@[end as int] == ']');
                if end < 2 {
                    assert(q@.subrange(0, 2)[end as int] == ".["@[end as int]);
                }
            }
            let text = slice_chars(q, open.len(), end);
            match parse_index(&text) {
                Some(at) => {
                    assert(end < q.len());
                    let next = end + 1;
                    let rest = slice_chars(q, next, q.len());
                    assert(q@.subrange(end + 1, q@.len() as int) == q@.skip(end + 1));
                    Some((at, rest))
                },
                None => None,
            }
        },
        None => None,
    }
}

fn field_step_of(q: &Vec<char>) -> (r: (Vec<char>, Vec<char>))
    requires
        "."@.is_prefix_of(q@),
    ensures
        (r.0@, r.1@) == field_step(q@),
        r.1@.len() < q@.len(),
{
    let dot = chars_of(".");
    proof {
        reveal_strlit(".");
    }
    let after = slice_chars(q, dot.len(), q.len());
    assert(q@.subrange(dot.len() as int, q@.len() as int) == q@.skip("."@.len() as int));
    let mut set: Vec<char> = Vec::new();
    set.push('.');
    set.push('[');
    set.push('|');
    assert(set@ =~= seq!['.', '[', '|']);
    match find_any(&after, &set) {
        Some(at) => {
            let name = slice_chars(&after, 0, at);
            let rest = slice_chars(&after, at, after.len());
            assert(after@.subrange(0, at as int) == after@.take(at as int));
            assert(after@.subrange(at as int, after@.len() as int) == after@.skip(at as int));
            (name, rest)
        },
        None => (after, Vec::new()),
    }
}

fn run_each(query: &Vec<char>, items: &Vec<JsonValue>, Ghost(depth): Ghost<nat>) -> (out: Vec<
    JsonValue,
>)
    requires
        depth > query@.len(),
    ensures
        json_items_view(out@) == eval_each_upto(
            query@,
            json_items_view(items@),
            depth,
            items@.len(),
        ),
    decreases depth, 1nat,
{
    let mut out: Vec<JsonValue> = Vec::new();
    let mut i: usize = 0;
    assert(json_items_view(out@) =~= Seq::<JsonView>::empty());
    while i < items.len()
        invariant
            i <= items.len(),
            depth > query@.len(),
            json_items_view(out@) == eval_each_upto(
                query@,
                json_items_view(items@),
                depth,
                i as nat,
            ),
        decreases items.len() - i,
    {
        let ghost before = json_items_view(out@);
        let mut part = run(query, &items[i], Ghost(depth));
        let ghost added = json_items_view(part@);
        out.append(&mut part);
        assert(json_items_view(out@) =~= before + added);
        i += 1;
    }
    out
}

fn run(query: &Vec<char>, input: &JsonValue, Ghost(depth): Ghost<nat>) -> (out: Vec<JsonValue>)
    requires
        depth > query@.len(),
    ensures
        json_items_view(out@) == eval(query@, input@, depth),
    decreases depth, 0nat,
{
    let q = trim(query);
    let ghost below = (depth - 1) as nat;
    if chars_equal(&q, &chars_of(".")) {
        return one(clone_json(input));
    }
    let iterate = chars_of(".[]");
    if starts_with(&q, &iterate) {
        proof {
            reveal_strlit(".[]");
        }
        let rest = slice_chars(&q, iterate.len(), q.len());
        assert(q@.subrange(iterate.len() as int, q@.len() as int) == q@.skip(".[]"@.len() as int));
        return match input {
            JsonValue::Array(items) => {
                proof {
                    lemma_json_array_view(*items);
                }
                if rest.len() == 0 {
                    clone_items(items)
                } else {
                    run_each(&rest, items, Ghost(below))
                }
            },
            _ => {
                let out: Vec<JsonValue> = Vec::new();
                assert(json_items_view(out@) =~= Seq::<JsonView>::empty());
                out
            },
        };
    }
    match index_step_of(&q) {
        Some((at, rest)) => {
            return match input {
                JsonValue::Array(items) => {
                    proof {
                        lemma_json_array_view(*items);
                    }
                    if at < items.len() {
                        if rest.len() == 0 {
                            one(clone_json(&items[at]))
                        } else {
                            run(&rest, &items[at], Ghost(below))
                        }
                    } else {
                        let out: Vec<JsonValue> = Vec::new();
                        assert(json_items_view(out@) =~= Seq::<JsonView>::empty());
                        out
                    }
                },
                _ => {
                    let out: Vec<JsonValue> = Vec::new();
                    assert(json_items_view(out@) =~= Seq::<JsonView>::empty());
                    out
                },
            };
        },
        None => {},
    }
    if starts_with(&q, &chars_of(".")) {
        let (name, rest) = field_step_of(&q);
        return match input {
            JsonValue::Object(members) => {
                proof {
                    lemma_json_object_view(*members);
                }
                match find_member(members, string_of(&name).as_str()) {
                    Some(value) => {
                        if rest.len() == 0 {
                            one(clone_json(value))
                        } else {
                            run(&rest, value, Ghost(below))
                        }
                    },
                    None => one(JsonValue::Null),
                }
            },
            _ => one(JsonValue::Null),
        };
    }
    let select = chars_of("select(");
    if starts_with(&q, &select) {
        match rfind_char(&q, ')') {
            Some(end) => {
                proof {
                    reveal_strlit("select(");
                    assert(is_last_of_char(q@, ')', end as int));
                    if end < 7 {
                        assert(q@.subrange(0, 7)[end as int] == "select("@[end as int]);
                    }
                }
                let condition = slice_chars(&q, select.len(), end);
                if holds_for(&condition, input, Ghost(below)) {
                    assert(end < q.len());
                    let next = end + 1;
                    let tail = slice_chars(&q, next, q.len());
                    assert(q@.subrange(end + 1, q@.len() as int) == q@.skip(end + 1));
                    let mut set: Vec<char> = Vec::new();
                    set.push(' ');
                    set.push('|');
                    assert(set@ =~= seq![' ', '|']);
                    let rest = trim(&trim_start_in(&tail, &set));
                    if rest.len() == 0 {
                        return one(clone_json(input));
                    } else {
                        return run(&rest, input, Ghost(below));
                    }
                } else {
                    let out: Vec<JsonValue> = Vec::new();
                    assert(json_items_view(out@) =~= Seq::<JsonView>::empty());
                    return out;
                }
            },
            None => {},
        }
    }
    match find_any(&q, &set_of('|')) {
        Some(at) => {
            let head = slice_chars(&q, 0, at);
            assert(at < q.len());
            let next = at + 1;
            let tail = slice_chars(&q, next, q.len());
            assert(q@.subrange(0, at as int) == q@.take(at as int));
            assert(q@.subrange(at + 1, q@.len() as int) == q@.skip(at + 1));
            let first = trim(&head);
            let second = trim(&tail);
            let between = run(&first, input, Ghost(below));
            run_each(&second, &between, Ghost(below))
        },
        None => one(clone_json(input)),
    }
}

fn compare(
    c: &Vec<char>,
    operator: &Vec<char>,
    equal: bool,
    input: &JsonValue,
    Ghost(depth): Ghost<nat>,
) -> (r: Option<bool>)
    requires
        depth > c@.len(),
        operator@.len() > 0,
    ensures
        r == comparison(c@, operator@, equal, input@, depth),
    decreases depth, 0nat,
{
    match find(c, operator) {
        Some(at) => {
            assert(occurs_at(c@, operator@, at as int));
            let width = operator.len();
            assert(at + width <= c.len());
            let head = slice_chars(c, 0, at);
            let tail = slice_chars(c, at + width, c.len());
            assert(c@.subrange(0, at as int) == c@.take(at as int));
            assert(c@.subrange(at + width, c@.len() as int) == c@.skip(at + operator@.len()));
            let left = trim(&head);
            let right = trim_matches_char(&trim(&tail), '"');
            let results = run(&left, input, Ghost((depth - 1) as nat));
            if results.len() == 0 {
                None
            } else {
                match &results[0] {
                    JsonValue::Str(s) => {
                        let same = chars_equal(&chars_of(s.as_str()), &right);
                        Some(same == equal)
                    },
                    _ => Some(!equal),
                }
            }
        },
        None => None,
    }
}

fn test_for(c: &Vec<char>, input: &JsonValue, Ghost(depth): Ghost<nat>) -> (r: bool)
    requires
        depth > c@.len(),
    ensures
        r == test_holds(c@, input@, depth),
    decreases depth, 0nat,
{
    let marker = chars_of("test(");
    if !contains(c, &marker) {
        return false;
    }
    match find_any(c, &set_of('|')) {
        Some(at) => {
            let head = slice_chars(c, 0, at);
            assert(at < c.len());
            let next = at + 1;
            let tail = slice_chars(c, next, c.len());
            assert(c@.subrange(0, at as int) == c@.take(at as int));
            assert(c@.subrange(at + 1, c@.len() as int) == c@.skip(at + 1));
            let field = trim(&head);
            let test_part = trim(&tail);
            if !starts_with(&test_part, &marker) {
                return false;
            }
            match rfind_char(&test_part, ')') {
                Some(end) => {
                    proof {
                        reveal_strlit("test(");
                        assert(is_last_of_char(test_part@, ')', end as int));
                        if end < 5 {
                            assert(test_part@.subrange(0, 5)[end as int] == "test("@[end as int]);
                        }
                    }
                    let inner = slice_chars(&test_part, marker.len(), end);
                    let pattern = trim_matches_char(&trim(&inner), '"');
                    let results = run(&field, input, Ghost((depth - 1) as nat));
                    if results.len() == 0 {
                        false
                    } else {
                        match &results[0] {
                            JsonValue::Str(s) => contains(&chars_of(s.as_str()), &pattern),
                            _ => false,
                        }
                    }
                },
                None => false,
            }
        },
        None => false,
    }
}

fn holds_for(condition: &Vec<char>, input: &JsonValue, Ghost(depth): Ghost<nat>) -> (r: bool)
    requires
        depth > condition@.len(),
    ensures
        r == holds(condition@, input@, depth),
    decreases depth, 1nat,
{
    let c = trim(condition);
    proof {
        reveal_strlit("==");
        reveal_strlit("!=");
    }
    match compare(&c, &chars_of("=="), true, input, Ghost(depth)) {
        Some(answer) => {
            return answer;
        },
        None => {},
    }
    match compare(&c, &chars_of("!="), false, input, Ghost(depth)) {
        Some(answer) => {
            return answer;
        },
        None => {},
    }
    test_for(&c, input, Ghost(depth))
}

impl QueryEngine {
    /// What the query gives for the input. A query never fails: one that is
    /// not understood gives the input back.
    pub fn execute(&self, query: &str, input: JsonValue) -> (r: Result<Vec<JsonValue>, Error>)
        ensures
            r is Ok,
            json_items_view(r->Ok_0@) == query_results(query@, input@),
    {
        let q = chars_of(query);
        Ok(run(&q, &input, Ghost((q@.len() + 1) as nat)))
    }

    /// Whether the condition of a `select` holds for the input.
    pub fn evaluate_condition(&self, condition: &str, input: &JsonValue) -> (r: Result<bool, Error>)
        ensures
            r is Ok,
            r->Ok_0 == holds(condition@, input@, condition@.len() + 1),
    {
        let c = chars_of(condition);
        Ok(holds_for(&c, input, Ghost((c@.len() + 1) as nat)))
    }

    /// What the query gives for the array of the inputs.
    pub fn execute_on_array(&self, query: &str, inputs: Vec<JsonValue>) -> (r: Result<
        Vec<JsonValue>,
        Error,
    >)
        ensures
            r is Ok,
            json_items_view(r->Ok_0@) == query_results(
                query@,
                JsonView::Array(json_items_view(inputs@)),
            ),
    {
        proof {
            lemma_json_array_view(inputs);
        }
        self.execute(query, JsonValue::Array(inputs))
    }

    /// What the query gives for each of the inputs, one after the other.
    pub fn execute_per_item(&self, query: &str, inputs: Vec<JsonValue>) -> (r: Result<
        Vec<JsonValue>,
        Error,
    >)
        ensures
            r is Ok,
            json_items_view(r->Ok_0@) == query_results_each(query@, json_items_view(inputs@)),
    {
        let q = chars_of(query);
        Ok(run_each(&q, &inputs, Ghost((q@.len() + 1) as nat)))
    }
}

/// The builder of filter expressions.
#[derive(Clone, Copy, Debug, PartialEq, Eq, Structural)]
pub struct FilterBuilder;

/// The projection of one field: the field, `: .` and the field again.
pub open spec fn field_projection(field: Seq<char>) -> Seq<char> {
    field + ": ."@ + field
}

/// The projections of the first `n` fields, with `, ` between them.
pub open spec fn projections_upto(fields: Seq<String>, n: nat) -> Seq<char>
    decreases n,
{
    if n == 0 || n > fields.len() {
        Seq::empty()
    } else if n == 1 {
        field_projection(fields[0]@)
    } else {
        projections_upto(fields, (n - 1) as nat) + ", "@ + field_projection(fields[n - 1]@)
    }
}

impl FilterBuilder {
    /// The filter that selects the entries of the type `message_type`.
    pub fn select_type(message_type: &str) -> (r: String)
        ensures
            r@ == "select(.type == \""@ + message_type@ + "\")"@,
    {
        let mut out = chars_of("select(.type == \"");
        append_chars(&mut out, &chars_of(message_type));
        append_chars(&mut out, &chars_of("\")"));
        string_of(&out)
    }

    /// The filter that selects the entries whose field `field` holds the
    /// text `value`.
    pub fn select_field_contains(field: &str, value: &str) -> (r: String)
        ensures
            r@ == "select(."@ + field@ + " | test(\""@ + value@ + "\"))"@,
    {
        let mut out = chars_of("select(.");
        append_chars(&mut out, &chars_of(field));
        append_chars(&mut out, &chars_of(" | test(\""));
        append_chars(&mut out, &chars_of(value));
        append_chars(&mut out, &chars_of("\"))"));
        string_of(&out)
    }

    /// The expression that projects an entry to the given fields.
    pub fn project_fields(fields: &Vec<String>) -> (r: String)
        ensures
            r@ == "{ "@ + projections_upto(fields@, fields@.len()) + " }"@,
    {
        let mut list: Vec<char> = Vec::new();
        let mut i: usize = 0;
        while i < fields.len()
            invariant
                i <= fields.len(),
                list@ == projections_upto(fields@, i as nat),
            decreases fields.len() - i,
        {
            let ghost before = list@;
            if i > 0 {
                append_chars(&mut list, &chars_of(", "));
            }
            let field = chars_of(fields[i].as_str());
            append_chars(&mut list, &field);
            append_chars(&mut list, &chars_of(": ."));
            append_chars(&mut list, &field);
            assert(list@ =~= projections_upto(fields@, (i + 1) as nat));
            i += 1;
        }
        let mut out = chars_of("{ ");
        append_chars(&mut out, &list);
        append_chars(&mut out, &chars_of(" }"));
        string_of(&out)
    }
}

} // verus!
