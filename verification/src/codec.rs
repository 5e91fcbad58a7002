//! The row codec: the mapping from JSON values to the engine's values and
//! back. Both directions are total.

use vstd::prelude::*;
use crate::text::{owned, string_of};
use crate::value::{
    engine_fields_view, engine_items_view, is_finite_bits, json_items_view, json_members_view,
    lemma_engine_dict_view, lemma_engine_list_view, lemma_json_array_view,
    lemma_json_object_view, float_bits_finite, EngineValue, EngineView, JsonNumber, JsonValue,
    JsonView,
};

verus! {

// ---------------------------------------------------------------------------
// Integers as decimal texts
// ---------------------------------------------------------------------------

/// The character for the decimal digit `d`.
pub open spec fn digit_char(d: int) -> char {
    (48 + d) as char
}

/// The decimal digits of `n`, without leading zeros.
pub open spec fn decimal_digits(n: nat) -> Seq<char>
    decreases n,
{
    if n < 10 {
        seq![digit_char(n as int)]
    } else {
        decimal_digits(n / 10).push(digit_char((n % 10) as int))
    }
}

/// The decimal text of `n`, with a minus sign before a negative number.
pub open spec fn decimal_text(n: int) -> Seq<char> {
    if n < 0 {
        seq!['-'] + decimal_digits((-n) as nat)
    } else {
        decimal_digits(n as nat)
    }
}

fn push_decimal(n: u128, out: &mut Vec<char>)
    ensures
        final(out)@ == old(out)@ + decimal_digits(n as nat),
    decreases n,
{
    if n >= 10 {
        push_decimal(n / 10, out);
    }
    let d: u8 = (n % 10) as u8;
    out.push((48u8 + d) as char);
    assert(out@ =~= old(out)@ + decimal_digits(n as nat));
}

/// The decimal text of an unsigned integer.
pub fn unsigned_decimal(n: u128) -> (r: String)
    ensures
        r@ == decimal_text(n as int),
{
    let mut out: Vec<char> = Vec::new();
    push_decimal(n, &mut out);
    string_of(&out)
}

/// The decimal text of a signed integer.
pub fn signed_decimal(n: i128) -> (r: String)
    ensures
        r@ == decimal_text(n as int),
{
    if n >= 0 {
        return unsigned_decimal(n as u128);
    }
    let magnitude: u128 = if n == i128::MIN {
        170141183460469231731687303715884105728u128
    } else {
        (-n) as u128
    };
    let mut out: Vec<char> = Vec::new();
    out.push('-');
    push_decimal(magnitude, &mut out);
    string_of(&out)
}

// ---------------------------------------------------------------------------
// Bytes as base64
// ---------------------------------------------------------------------------

/// The character for the six-bit value `i` in the base64 alphabet.
pub open spec fn base64_digit(i: int) -> char {
    if i < 26 {
        (65 + i) as char
    } else if i < 52 {
        (71 + i) as char
    } else if i < 62 {
        (i - 4) as char
    } else if i == 62 {
        '+'
    } else {
        '/'
    }
}

/// The base64 text of the bytes, with `=` padding.
pub open spec fn base64_of(bytes: Seq<u8>) -> Seq<char>
    decreases bytes.len(),
{
    if bytes.len() == 0 {
        Seq::empty()
    } else if bytes.len() == 1 {
        seq![
            base64_digit((bytes[0] >> 2) as int),
            base64_digit(((bytes[0] & 0x03) << 4) as int),
            '=',
            '=',
        ]
    } else if bytes.len() == 2 {
        seq![
            base64_digit((bytes[0] >> 2) as int),
            base64_digit((((bytes[0] & 0x03) << 4) | (bytes[1] >> 4)) as int),
            base64_digit(((bytes[1] & 0x0f) << 2) as int),
            '=',
        ]
    } else {
        seq![
            base64_digit((bytes[0] >> 2) as int),
            base64_digit((((bytes[0] & 0x03) << 4) | (bytes[1] >> 4)) as int),
            base64_digit((((bytes[1] & 0x0f) << 2) | (bytes[2] >> 6)) as int),
            base64_digit((bytes[2] & 0x3f) as int),
        ] + base64_of(bytes.skip(3))
    }
}

fn base64_char(i: u8) -> (c: char)
    requires
        i < 64,
    ensures
        c == base64_digit(i as int),
{
    if i < 26 {
        (65u8 + i) as char
    } else if i < 52 {
        (71u8 + i) as char
    } else if i < 62 {
        (i - 4u8) as char
    } else if i == 62 {
        '+'
    } else {
        '/'
    }
}

/// The base64 text of the bytes, with `=` padding.
pub fn base64_encode(bytes: &Vec<u8>) -> (r: String)
    ensures
        r@ == base64_of(bytes@),
{
    let mut out: Vec<char> = Vec::new();
    let mut i: usize = 0;
    assert(bytes@.skip(0) == bytes@);
    while bytes.len() - i >= 3
        invariant
            i <= bytes.len(),
            base64_of(bytes@) == out@ + base64_of(bytes@.skip(i as int)),
        decreases bytes.len() - i,
    {
        let b0 = bytes[i];
        let b1 = bytes[i + 1];
        let b2 = bytes[i + 2];
        assert((b0 >> 2) < 64) by (bit_vector);
        assert((((b0 & 0x03) << 4) | (b1 >> 4)) < 64) by (bit_vector);
        assert((((b1 & 0x0f) << 2) | (b2 >> 6)) < 64) by (bit_vector);
        assert((b2 & 0x3f) < 64) by (bit_vector);
        let ghost before = out@;
        out.push(base64_char(b0 >> 2));
        out.push(base64_char(((b0 & 0x03) << 4) | (b1 >> 4)));
        out.push(base64_char(((b1 & 0x0f) << 2) | (b2 >> 6)));
        out.push(base64_char(b2 & 0x3f));
        proof {
            let rest = bytes@.skip(i as int);
            assert(rest.skip(3) == bytes@.skip(i + 3));
            assert(out@ =~= before + seq![
                base64_digit((rest[0] >> 2) as int),
                base64_digit((((rest[0] & 0x03) << 4) | (rest[1] >> 4)) as int),
                base64_digit((((rest[1] & 0x0f) << 2) | (rest[2] >> 6)) as int),
                base64_digit((rest[2] & 0x3f) as int),
            ]);
        }
        i += 3;
    }
    let ghost before = out@;
    let ghost rest = bytes@.skip(i as int);
    if bytes.len() - i == 1 {
        let b0 = bytes[i];
        assert((b0 >> 2) < 64) by (bit_vector);
        assert(((b0 & 0x03) << 4) < 64) by (bit_vector);
        out.push(base64_char(b0 >> 2));
        out.push(base64_char((b0 & 0x03) << 4));
        out.push('=');
        out.push('=');
        assert(out@ =~= before + base64_of(rest));
    } else if bytes.len() - i == 2 {
        let b0 = bytes[i];
        let b1 = bytes[i + 1];
        assert((b0 >> 2) < 64) by (bit_vector);
        assert((((b0 & 0x03) << 4) | (b1 >> 4)) < 64) by (bit_vector);
        assert(((b1 & 0x0f) << 2) < 64) by (bit_vector);
        out.push(base64_char(b0 >> 2));
        out.push(base64_char(((b0 & 0x03) << 4) | (b1 >> 4)));
        out.push(base64_char((b1 & 0x0f) << 2));
        out.push('=');
        assert(out@ =~= before + base64_of(rest));
    } else {
        assert(out@ =~= before + base64_of(rest));
    }
    string_of(&out)
}

// ---------------------------------------------------------------------------
// From JSON to the engine
// ---------------------------------------------------------------------------

/// The bit pattern of the binary64 number that `serde_json` gives for an
/// unsigned integer, if it gives one.
pub uninterp spec fn unsigned_float_bits(u: u64) -> Option<u64>;

/// Makes a `serde_json::Number` of the integer and asks it for its value as
/// a binary64 number, by `Number::as_f64`. The answer depends on the integer
/// alone and is named `unsigned_float_bits`.
#[verifier::external_body]
fn unsigned_as_float_bits(u: u64) -> (r: Option<u64>)
    ensures
        r == unsigned_float_bits(u),
{
    serde_json::Number::from(u).as_f64().map(|x| x.to_bits())
}

/// The engine's value for a JSON number: a signed 64-bit integer where the
/// number is an integer in that range; else a binary64 number; else, where
/// no such number can be had, the decimal text.
pub open spec fn number_to_engine(n: JsonNumber) -> EngineView {
    match n {
        JsonNumber::PosInt(u) => if u <= i64::MAX as u64 {
            EngineView::I64(u as i64)
        } else {
            match unsigned_float_bits(u) {
                Some(bits) => EngineView::F64(bits),
                None => EngineView::Str(decimal_text(u as int)),
            }
        },
        JsonNumber::NegInt(i) => EngineView::I64(i),
        JsonNumber::Float(bits) => EngineView::F64(bits),
    }
}

/// The engine's value for a JSON value: null, booleans and texts map to
/// themselves, numbers by `number_to_engine`, arrays to lists and objects to
/// dictionaries, item by item and member by member.
pub open spec fn json_to_engine(j: JsonView) -> EngineView
    decreases j, 0nat,
{
    match j {
        JsonView::Null => EngineView::Null,
        JsonView::Bool(b) => EngineView::Bool(b),
        JsonView::Number(n) => number_to_engine(n),
        JsonView::Str(s) => EngineView::Str(s),
        JsonView::Array(items) => EngineView::List(items_to_engine_upto(items, items.len())),
        JsonView::Object(members) => EngineView::Dict(
            members_to_engine_upto(members, members.len()),
        ),
    }
}

/// The engine's values for the first `n` items.
pub open spec fn items_to_engine_upto(items: Seq<JsonView>, n: nat) -> Seq<EngineView>
    decreases items, n,
{
    if n == 0 || n > items.len() {
        Seq::empty()
    } else {
        items_to_engine_upto(items, (n - 1) as nat).push(json_to_engine(items[n - 1]))
    }
}

/// The engine's values for the first `n` members, under their names.
pub open spec fn members_to_engine_upto(members: Seq<(Seq<char>, JsonView)>, n: nat) -> Seq<
    (Seq<char>, EngineView),
>
    decreases members, n,
{
    if n == 0 || n > members.len() {
        Seq::empty()
    } else {
        members_to_engine_upto(members, (n - 1) as nat).push(
            (members[n - 1].0, json_to_engine(members[n - 1].1)),
        )
    }
}

/// The engine's values for the members of an object, under their names.
pub open spec fn members_to_engine(members: Seq<(Seq<char>, JsonView)>) -> Seq<
    (Seq<char>, EngineView),
> {
    members_to_engine_upto(members, members.len())
}

/// `items_to_engine_upto` converts item by item.
pub proof fn lemma_items_to_engine(items: Seq<JsonView>, n: nat)
    requires
        n <= items.len(),
    ensures
        items_to_engine_upto(items, n).len() == n,
        forall|i: int|
            0 <= i < n ==> #[trigger] items_to_engine_upto(items, n)[i] == json_to_engine(
                items[i],
            ),
    decreases n,
{
    if n > 0 {
        lemma_items_to_engine(items, (n - 1) as nat);
    }
}

/// `members_to_engine_upto` converts member by member and keeps the names.
pub proof fn lemma_members_to_engine(members: Seq<(Seq<char>, JsonView)>, n: nat)
    requires
        n <= members.len(),
    ensures
        members_to_engine_upto(members, n).len() == n,
        forall|i: int|
            0 <= i < n ==> #[trigger] members_to_engine_upto(members, n)[i] == (
                members[i].0,
                json_to_engine(members[i].1),
            ),
    decreases n,
{
    if n > 0 {
        lemma_members_to_engine(members, (n - 1) as nat);
    }
}

fn number_to_glue_value(n: &JsonNumber) -> (r: EngineValue)
    ensures
        r@ == number_to_engine(*n),
{
    match n.as_i64() {
        Some(i) => EngineValue::I64(i),
        None => match n {
            JsonNumber::PosInt(u) => match unsigned_as_float_bits(*u) {
                Some(bits) => EngineValue::F64(bits),
                None => EngineValue::Str(unsigned_decimal(*u as u128)),
            },
            JsonNumber::NegInt(i) => EngineValue::I64(*i),
            JsonNumber::Float(bits) => EngineValue::F64(*bits),
        },
    }
}

/// The engine's value for a JSON value.
#[verifier::loop_isolation(false)]
pub fn json_value_to_glue_value(value: &JsonValue) -> (r: EngineValue)
    ensures
        r@ == json_to_engine(value@),
    decreases value,
{
    match value {
        JsonValue::Null => EngineValue::Null,
        JsonValue::Bool(b) => EngineValue::Bool(*b),
        JsonValue::Number(n) => number_to_glue_value(n),
        JsonValue::Str(s) => EngineValue::Str(s.clone()),
        JsonValue::Array(items) => {
            let mut out: Vec<EngineValue> = Vec::new();
            let mut i: usize = 0;
            while i < items.len()
                invariant
                    i <= items.len(),
                    out@.len() == i,
                    forall|k: int| 0 <= k < i ==> (#[trigger] out@[k])@ == json_to_engine(items@[k]@),
                decreases items.len() - i,
            {
                let converted = json_value_to_glue_value(&items[i]);
                out.push(converted);
                i += 1;
            }
            proof {
                lemma_json_array_view(*items);
                lemma_engine_list_view(out);
                lemma_items_to_engine(json_items_view(items@), items@.len());
                assert(engine_items_view(out@) =~= items_to_engine_upto(
                    json_items_view(items@),
                    items@.len(),
                ));
            }
            EngineValue::List(out)
        },
        JsonValue::Object(members) => {
            let mut out: Vec<(String, EngineValue)> = Vec::new();
            let mut i: usize = 0;
            while i < members.len()
                invariant
                    i <= members.len(),
                    out@.len() == i,
                    forall|k: int|
                        0 <= k < i ==> (#[trigger] out@[k]).0@ == members@[k].0@ && out@[k].1@
                            == json_to_engine(members@[k].1@),
                decreases members.len() - i,
            {
                let name = members[i].0.clone();
                let converted = json_value_to_glue_value(&members[i].1);
                out.push((name, converted));
                i += 1;
            }
            proof {
                lemma_json_object_view(*members);
                lemma_engine_dict_view(out);
                lemma_members_to_engine(json_members_view(members@), members@.len());
                assert(engine_fields_view(out@) =~= members_to_engine_upto(
                    json_members_view(members@),
                    members@.len(),
                ));
            }
            EngineValue::Dict(out)
        },
    }
}

// ---------------------------------------------------------------------------
// From the engine to JSON
// ---------------------------------------------------------------------------

/// The JSON value for a binary64 number: the number where it is finite,
/// null where it is not.
pub open spec fn float_to_json(bits: u64) -> JsonView {
    if float_bits_finite(bits) {
        JsonView::Number(JsonNumber::Float(bits))
    } else {
        JsonView::Null
    }
}

/// The JSON value for an integer: the number where it fits in 64 bits, the
/// decimal text where it does not.
pub open spec fn integer_to_json(n: int) -> JsonView {
    if n < i64::MIN || n > u64::MAX {
        JsonView::Str(decimal_text(n))
    } else if n < 0 {
        JsonView::Number(JsonNumber::NegInt(n as i64))
    } else {
        JsonView::Number(JsonNumber::PosInt(n as u64))
    }
}

/// The JSON value for a signed 128-bit integer: the number where it fits in
/// a signed 64-bit integer, the decimal text where it does not.
pub open spec fn wide_signed_to_json(n: i128) -> JsonView {
    if n < i64::MIN || n > i64::MAX {
        JsonView::Str(decimal_text(n as int))
    } else {
        integer_to_json(n as int)
    }
}

/// The JSON value for a value of the engine: null, booleans and texts map
/// to themselves; an integer to a number, or to its decimal text where it
/// does not fit; a binary64 number to a number, or to null where it is not
/// finite; bytes to their base64 text; a date, a time, a timestamp, an
/// interval, a decimal and a network address to the text that stands for
/// them; an identifier to its decimal text; a point to an object with the
/// members `x` and `y`; lists to arrays and dictionaries to objects.
pub open spec fn engine_to_json(v: EngineView) -> JsonView
    decreases v, 0nat,
{
    match v {
        EngineView::Null => JsonView::Null,
        EngineView::Bool(b) => JsonView::Bool(b),
        EngineView::I8(n) => integer_to_json(n as int),
        EngineView::I16(n) => integer_to_json(n as int),
        EngineView::I32(n) => integer_to_json(n as int),
        EngineView::I64(n) => integer_to_json(n as int),
        EngineView::I128(n) => wide_signed_to_json(n),
        EngineView::U8(n) => integer_to_json(n as int),
        EngineView::U16(n) => integer_to_json(n as int),
        EngineView::U32(n) => integer_to_json(n as int),
        EngineView::U64(n) => integer_to_json(n as int),
        EngineView::U128(n) => integer_to_json(n as int),
        EngineView::F32(bits) => float_to_json(bits),
        EngineView::F64(bits) => float_to_json(bits),
        EngineView::Decimal(s) => JsonView::Str(s),
        EngineView::Str(s) => JsonView::Str(s),
        EngineView::Bytea(bytes) => JsonView::Str(base64_of(bytes)),
        EngineView::Inet(s) => JsonView::Str(s),
        EngineView::Date(s) => JsonView::Str(s),
        EngineView::Timestamp(s) => JsonView::Str(s),
        EngineView::Time(s) => JsonView::Str(s),
        EngineView::Interval(s) => JsonView::Str(s),
        EngineView::Uuid(n) => JsonView::Str(decimal_text(n as int)),
        EngineView::Dict(fields) => JsonView::Object(fields_to_json_upto(fields, fields.len())),
        EngineView::List(items) => JsonView::Array(items_to_json_upto(items, items.len())),
        EngineView::Point(x, y) => JsonView::Object(
            seq![("x"@, float_to_json(x)), ("y"@, float_to_json(y))],
        ),
    }
}

/// The JSON values for the first `n` items.
pub open spec fn items_to_json_upto(items: Seq<EngineView>, n: nat) -> Seq<JsonView>
    decreases items, n,
{
    if n == 0 || n > items.len() {
        Seq::empty()
    } else {
        items_to_json_upto(items, (n - 1) as nat).push(engine_to_json(items[n - 1]))
    }
}

/// The JSON values for the first `n` named values, under their names.
pub open spec fn fields_to_json_upto(fields: Seq<(Seq<char>, EngineView)>, n: nat) -> Seq<
    (Seq<char>, JsonView),
>
    decreases fields, n,
{
    if n == 0 || n > fields.len() {
        Seq::empty()
    } else {
        fields_to_json_upto(fields, (n - 1) as nat).push(
            (fields[n - 1].0, engine_to_json(fields[n - 1].1)),
        )
    }
}

/// The JSON values for named values, under their names.
pub open spec fn fields_to_json(fields: Seq<(Seq<char>, EngineView)>) -> Seq<
    (Seq<char>, JsonView),
> {
    fields_to_json_upto(fields, fields.len())
}

/// `items_to_json_upto` converts item by item.
pub proof fn lemma_items_to_json(items: Seq<EngineView>, n: nat)
    requires
        n <= items.len(),
    ensures
        items_to_json_upto(items, n).len() == n,
        forall|i: int|
            0 <= i < n ==> #[trigger] items_to_json_upto(items, n)[i] == engine_to_json(items[i]),
    decreases n,
{
    if n > 0 {
        lemma_items_to_json(items, (n - 1) as nat);
    }
}

/// `fields_to_json_upto` converts value by value and keeps the names.
pub proof fn lemma_fields_to_json(fields: Seq<(Seq<char>, EngineView)>, n: nat)
    requires
        n <= fields.len(),
    ensures
        fields_to_json_upto(fields, n).len() == n,
        forall|i: int|
            0 <= i < n ==> #[trigger] fields_to_json_upto(fields, n)[i] == (
                fields[i].0,
                engine_to_json(fields[i].1),
            ),
    decreases n,
{
    if n > 0 {
        lemma_fields_to_json(fields, (n - 1) as nat);
    }
}

fn float_json(bits: u64) -> (r: JsonValue)
    ensures
        r@ == float_to_json(bits),
{
    if is_finite_bits(bits) {
        JsonValue::Number(JsonNumber::Float(bits))
    } else {
        JsonValue::Null
    }
}

fn signed_json(n: i64) -> (r: JsonValue)
    ensures
        r@ == integer_to_json(n as int),
{
    JsonValue::Number(JsonNumber::from_i64(n))
}

fn unsigned_json(n: u64) -> (r: JsonValue)
    ensures
        r@ == integer_to_json(n as int),
{
    JsonValue::Number(JsonNumber::PosInt(n))
}

/// The JSON values for named values of the engine, under their names.
#[verifier::loop_isolation(false)]
pub fn fields_to_json_members(fields: &Vec<(String, EngineValue)>) -> (r: Vec<(String, JsonValue)>)
    ensures
        json_members_view(r@) == fields_to_json(engine_fields_view(fields@)),
    decreases fields,
{
    let mut out: Vec<(String, JsonValue)> = Vec::new();
    let mut i: usize = 0;
    while i < fields.len()
        invariant
            i <= fields.len(),
            out@.len() == i,
            forall|k: int|
                0 <= k < i ==> (#[trigger] out@[k]).0@ == fields@[k].0@ && out@[k].1@
                    == engine_to_json(fields@[k].1@),
        decreases fields.len() - i,
    {
        let name = fields[i].0.clone();
        let converted = glue_value_to_json(&fields[i].1);
        out.push((name, converted));
        i += 1;
    }
    proof {
        lemma_fields_to_json(engine_fields_view(fields@), fields@.len());
        assert(json_members_view(out@) =~= fields_to_json_upto(
            engine_fields_view(fields@),
            fields@.len(),
        ));
    }
    out
}

/// The JSON value for a value of the engine.
#[verifier::loop_isolation(false)]
pub fn glue_value_to_json(value: &EngineValue) -> (r: JsonValue)
    ensures
        r@ == engine_to_json(value@),
    decreases value,
{
    match value {
        EngineValue::Null => JsonValue::Null,
        EngineValue::Bool(b) => JsonValue::Bool(*b),
        EngineValue::I8(n) => signed_json(*n as i64),
        EngineValue::I16(n) => signed_json(*n as i64),
        EngineValue::I32(n) => signed_json(*n as i64),
        EngineValue::I64(n) => signed_json(*n),
        EngineValue::I128(n) => {
            if *n >= i64::MIN as i128 && *n <= i64::MAX as i128 {
                signed_json(*n as i64)
            } else {
                JsonValue::Str(signed_decimal(*n))
            }
        },
        EngineValue::U8(n) => unsigned_json(*n as u64),
        EngineValue::U16(n) => unsigned_json(*n as u64),
        EngineValue::U32(n) => unsigned_json(*n as u64),
        EngineValue::U64(n) => unsigned_json(*n),
        EngineValue::U128(n) => {
            if *n <= u64::MAX as u128 {
                unsigned_json(*n as u64)
            } else {
                JsonValue::Str(unsigned_decimal(*n))
            }
        },
        EngineValue::F32(bits) => float_json(*bits),
        EngineValue::F64(bits) => float_json(*bits),
        EngineValue::Decimal(s) => JsonValue::Str(s.clone()),
        EngineValue::Str(s) => JsonValue::Str(s.clone()),
        EngineValue::Bytea(bytes) => JsonValue::Str(base64_encode(bytes)),
        EngineValue::Inet(s) => JsonValue::Str(s.clone()),
        EngineValue::Date(s) => JsonValue::Str(s.clone()),
        EngineValue::Timestamp(s) => JsonValue::Str(s.clone()),
        EngineValue::Time(s) => JsonValue::Str(s.clone()),
        EngineValue::Interval(s) => JsonValue::Str(s.clone()),
        EngineValue::Uuid(n) => JsonValue::Str(unsigned_decimal(*n)),
        EngineValue::Dict(fields) => {
            proof {
                lemma_engine_dict_view(*fields);
            }
            let members = fields_to_json_members(fields);
            proof {
                lemma_json_object_view(members);
            }
            JsonValue::Object(members)
        },
        EngineValue::List(items) => {
            let mut out: Vec<JsonValue> = Vec::new();
            let mut i: usize = 0;
            while i < items.len()
                invariant
                    i <= items.len(),
                    out@.len() == i,
                    forall|k: int| 0 <= k < i ==> (#[trigger] out@[k])@ == engine_to_json(items@[k]@),
                decreases items.len() - i,
            {
                let converted = glue_value_to_json(&items[i]);
                out.push(converted);
                i += 1;
            }
            proof {
                lemma_engine_list_view(*items);
                lemma_json_array_view(out);
                lemma_items_to_json(engine_items_view(items@), items@.len());
                assert(json_items_view(out@) =~= items_to_json_upto(
                    engine_items_view(items@),
                    items@.len(),
                ));
            }
            JsonValue::Array(out)
        },
        EngineValue::Point(x, y) => {
            let mut members: Vec<(String, JsonValue)> = Vec::new();
            members.push((owned("x"), float_json(*x)));
            members.push((owned("y"), float_json(*y)));
            proof {
                lemma_json_object_view(members);
                assert(json_members_view(members@) =~= seq![
                    ("x"@, float_to_json(*x)),
                    ("y"@, float_to_json(*y)),
                ]);
            }
            JsonValue::Object(members)
        },
    }
}

// ---------------------------------------------------------------------------
// There and back
// ---------------------------------------------------------------------------

/// A JSON value that is converted to the engine and back is unchanged,
/// where it is as a JSON reader makes it and every integer in it fits in a
/// signed 64-bit integer: null, booleans, texts, such integers, finite
/// binary64 numbers, and the arrays and objects made of them.
pub proof fn lemma_json_round_trip(v: JsonView)
    requires
        v.wf(),
        v.integers_in_range(),
    ensures
        engine_to_json(json_to_engine(v)) == v,
    decreases v,
{
    match v {
        JsonView::Array(items) => {
            let converted = items_to_engine_upto(items, items.len());
            lemma_items_to_engine(items, items.len());
            lemma_items_to_json(converted, converted.len());
            assert forall|i: int| 0 <= i < items.len() implies engine_to_json(
                json_to_engine(items[i]),
            ) == items[i] by {
                lemma_json_round_trip(items[i]);
            }
            assert(items_to_json_upto(converted, converted.len()) =~= items);
        },
        JsonView::Object(members) => {
            let converted = members_to_engine_upto(members, members.len());
            lemma_members_to_engine(members, members.len());
            lemma_fields_to_json(converted, converted.len());
            assert forall|i: int| 0 <= i < members.len() implies engine_to_json(
                json_to_engine(members[i].1),
            ) == members[i].1 by {
                lemma_json_round_trip(members[i].1);
            }
            assert(fields_to_json_upto(converted, converted.len()) =~= members);
        },
        _ => {},
    }
}

} // verus!
