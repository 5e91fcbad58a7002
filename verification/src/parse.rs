//! Reading JSON texts. The reading itself is done by `serde_json`; what it
//! returns is brought into the library's own `JsonValue`.

use vstd::prelude::*;
use serde_json::Value;
use crate::text::{chars_of, trim, trimmed};
use crate::value::{json_items_view, JsonNumber, JsonValue, JsonView};

verus! {

/// A JSON value of `serde_json`.
#[verifier::external_type_specification]
#[verifier::external_body]
pub struct ExSerdeJsonValue(serde_json::Value);

/// What a JSON value of `serde_json` holds, as a model.
pub uninterp spec fn serde_json_model(v: Value) -> JsonView;

/// The JSON value that `serde_json::from_str` reads from a text, or none
/// where it fails on the text.
pub uninterp spec fn json_text_value(text: Seq<char>) -> Option<JsonView>;

/// Calls `serde_json::from_str` for a `serde_json::Value`. Whether it reads
/// a value, and which, depends on the text alone: the outcome is named
/// `json_text_value`. Nothing is claimed of which texts are JSON.
#[verifier::external_body]
fn read_json_text(text: &str) -> (r: Option<Value>)
    ensures
        match r {
            Some(v) => json_text_value(text@) == Some(serde_json_model(v)),
            None => json_text_value(text@) is None,
        },
{
    serde_json::from_str::<Value>(text).ok()
}

/// Brings a value of `serde_json` into a `JsonValue`, variant by variant. The
/// three forms of a number are told apart by `Number::as_u64` and
/// `Number::as_i64`, which answer for an integer of their kind only; the
/// bits of a number that is neither come from `Number::as_f64`. The result
/// holds what the value holds. A number of `serde_json` is a
/// non-negative integer, a negative integer or a finite binary64 number,
/// and an object of `serde_json` holds each name once: so the result is
/// well formed.
#[verifier::external_body]
fn json_from_serde(v: &Value) -> (r: JsonValue)
    ensures
        r@ == serde_json_model(*v),
        r@.wf(),
{
    match v {
        Value::Null => JsonValue::Null,
        Value::Bool(b) => JsonValue::Bool(*b),
        Value::Number(n) => JsonValue::Number(match (n.as_u64(), n.as_i64()) {
            (Some(u), _) => JsonNumber::PosInt(u),
            (_, Some(i)) => JsonNumber::NegInt(i),
            _ => JsonNumber::Float(n.as_f64().unwrap_or_default().to_bits()),
        }),
        Value::String(s) => JsonValue::Str(s.clone()),
        Value::Array(a) => JsonValue::Array(a.iter().map(json_from_serde).collect()),
        Value::Object(o) => JsonValue::Object(
            o.iter().map(|(k, x)| (k.clone(), json_from_serde(x))).collect(),
        ),
    }
}

/// The model of an optional JSON value.
pub open spec fn json_option_view(o: Option<JsonValue>) -> Option<JsonView> {
    match o {
        Some(v) => Some(v@),
        None => None,
    }
}

/// The JSON value that the text stands for, or none where the text is no
/// JSON.
pub fn parse_json(text: &str) -> (r: Option<JsonValue>)
    ensures
        json_option_view(r) == json_text_value(text@),
        r is Some ==> r->0@.wf(),
{
    match read_json_text(text) {
        Some(v) => Some(json_from_serde(&v)),
        None => None,
    }
}

/// The values of the first `n` lines: one for each line that holds more
/// than whitespace and is JSON, in order.
pub open spec fn line_values_upto(lines: Seq<Seq<char>>, n: nat) -> Seq<JsonView>
    decreases n,
{
    if n == 0 || n > lines.len() {
        Seq::empty()
    } else {
        let before = line_values_upto(lines, (n - 1) as nat);
        if trimmed(lines[n - 1]).len() == 0 {
            before
        } else {
            match json_text_value(lines[n - 1]) {
                Some(v) => before.push(v),
                None => before,
            }
        }
    }
}

/// The values that the lines of a file hold: a line of whitespace and a
/// line that is no JSON are passed over.
pub fn parse_json_lines(lines: &Vec<String>) -> (values: Vec<JsonValue>)
    ensures
        json_items_view(values@) == line_values_upto(
            Seq::new(lines@.len(), |i: int| lines@[i]@),
            lines@.len(),
        ),
{
    let ghost texts = Seq::new(lines@.len(), |i: int| lines@[i]@);
    let mut values: Vec<JsonValue> = Vec::new();
    let mut i: usize = 0;
    assert(json_items_view(values@) =~= Seq::<JsonView>::empty());
    while i < lines.len()
        invariant
            i <= lines.len(),
            texts == Seq::new(lines@.len(), |i: int| lines@[i]@),
            json_items_view(values@) == line_values_upto(texts, i as nat),
        decreases lines.len() - i,
    {
        let ghost before = json_items_view(values@);
        let blank = trim(&chars_of(lines[i].as_str())).len() == 0;
        if !blank {
            match parse_json(lines[i].as_str()) {
                Some(v) => {
                    values.push(v);
                    assert(json_items_view(values@) =~= before.push(v@));
                },
                None => {},
            }
        }
        i += 1;
    }
    values
}

} // verus!
