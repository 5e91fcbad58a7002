//! The two value models that the library converts between: JSON values as
//! they are read from files, and the typed values of the SQL engine.
//!
//! A binary64 number is held as its bit pattern, in a `u64`.

use vstd::prelude::*;

verus! {

/// Whether the bit pattern is that of a finite binary64 number: its exponent
/// bits are not all set.
pub open spec fn float_bits_finite(bits: u64) -> bool {
    (bits >> 52) & 0x7ff != 0x7ff
}

/// Whether the bit pattern is that of a finite binary64 number.
pub fn is_finite_bits(bits: u64) -> (r: bool)
    ensures
        r == float_bits_finite(bits),
{
    (bits >> 52) & 0x7ff != 0x7ff
}

/// A JSON number, in the three forms that a JSON reader tells apart.
#[derive(Clone, Copy, Debug, PartialEq, Eq, Structural)]
pub enum JsonNumber {
    /// An integer that is not negative.
    PosInt(u64),
    /// A negative integer.
    NegInt(i64),
    /// A finite binary64 number, as its bit pattern.
    Float(u64),
}

impl JsonNumber {
    /// A number as a JSON reader makes it: a `NegInt` is negative, a `Float`
    /// is finite.
    pub open spec fn wf(self) -> bool {
        match self {
            JsonNumber::PosInt(_) => true,
            JsonNumber::NegInt(i) => i < 0,
            JsonNumber::Float(bits) => float_bits_finite(bits),
        }
    }

    /// The number for a signed integer.
    pub open spec fn of_int(i: int) -> JsonNumber {
        if i < 0 {
            JsonNumber::NegInt(i as i64)
        } else {
            JsonNumber::PosInt(i as u64)
        }
    }

    /// The number for a signed integer.
    pub fn from_i64(i: i64) -> (r: JsonNumber)
        ensures
            r == JsonNumber::of_int(i as int),
            r.wf(),
    {
        if i < 0 {
            JsonNumber::NegInt(i)
        } else {
            JsonNumber::PosInt(i as u64)
        }
    }

    /// The number of which a JSON reader says that it is the unsigned integer
    /// `unsigned`, the signed integer `signed` and the binary64 number with
    /// the bits `float_bits`, each where it can be one: the first of these
    /// that is given decides the form.
    pub fn from_parts(unsigned: Option<u64>, signed: Option<i64>, float_bits: Option<u64>) -> (r:
        JsonNumber)
        ensures
            r == match (unsigned, signed, float_bits) {
                (Some(u), _, _) => JsonNumber::PosInt(u),
                (None, Some(i), _) => JsonNumber::NegInt(i),
                (None, None, Some(bits)) => JsonNumber::Float(bits),
                (None, None, None) => JsonNumber::Float(0),
            },
    {
        match unsigned {
            Some(u) => JsonNumber::PosInt(u),
            None => match signed {
                Some(i) => JsonNumber::NegInt(i),
                None => match float_bits {
                    Some(bits) => JsonNumber::Float(bits),
                    None => JsonNumber::Float(0),
                },
            },
        }
    }

    /// The number as a signed 64-bit integer, where it is an integer in that
    /// range.
    pub open spec fn to_i64(self) -> Option<i64> {
        match self {
            JsonNumber::PosInt(u) => if u <= i64::MAX as u64 {
                Some(u as i64)
            } else {
                None
            },
            JsonNumber::NegInt(i) => Some(i),
            JsonNumber::Float(_) => None,
        }
    }

    /// The number as a signed 64-bit integer, where it is an integer in that
    /// range.
    pub fn as_i64(&self) -> (r: Option<i64>)
        ensures
            r == self.to_i64(),
    {
        match self {
            JsonNumber::PosInt(u) => if *u <= i64::MAX as u64 {
                Some(*u as i64)
            } else {
                None
            },
            JsonNumber::NegInt(i) => Some(*i),
            JsonNumber::Float(_) => None,
        }
    }
}

/// A JSON value. The members of an object are held in the order in which
/// they were read or added.
#[derive(Debug, PartialEq, Eq)]
pub enum JsonValue {
    Null,
    Bool(bool),
    Number(JsonNumber),
    Str(String),
    Array(Vec<JsonValue>),
    Object(Vec<(String, JsonValue)>),
}

/// The model of a `JsonValue`.
pub ghost enum JsonView {
    Null,
    Bool(bool),
    Number(JsonNumber),
    Str(Seq<char>),
    Array(Seq<JsonView>),
    Object(Seq<(Seq<char>, JsonView)>),
}

/// The model of a JSON value.
pub open spec fn json_view_of(v: JsonValue) -> JsonView
    decreases v, 0nat,
{
    match v {
        JsonValue::Null => JsonView::Null,
        JsonValue::Bool(b) => JsonView::Bool(b),
        JsonValue::Number(n) => JsonView::Number(n),
        JsonValue::Str(s) => JsonView::Str(s@),
        JsonValue::Array(items) => JsonView::Array(json_items_upto(items, items.len() as nat)),
        JsonValue::Object(members) => JsonView::Object(
            json_members_upto(members, members.len() as nat),
        ),
    }
}

/// The models of the first `n` items.
pub open spec fn json_items_upto(items: Vec<JsonValue>, n: nat) -> Seq<JsonView>
    decreases items, n,
{
    if n == 0 || n > items.len() {
        Seq::empty()
    } else {
        json_items_upto(items, (n - 1) as nat).push(json_view_of(items[n - 1]))
    }
}

/// The models of the first `n` members.
pub open spec fn json_members_upto(members: Vec<(String, JsonValue)>, n: nat) -> Seq<
    (Seq<char>, JsonView),
>
    decreases members, n,
{
    if n == 0 || n > members.len() {
        Seq::empty()
    } else {
        json_members_upto(members, (n - 1) as nat).push(
            (members[n - 1].0@, json_view_of(members[n - 1].1)),
        )
    }
}

impl View for JsonValue {
    type V = JsonView;

    open spec fn view(&self) -> JsonView {
        json_view_of(*self)
    }
}

/// The models of the items of an array.
pub open spec fn json_items_view(items: Seq<JsonValue>) -> Seq<JsonView> {
    Seq::new(items.len(), |i: int| items[i]@)
}

/// The models of the members of an object.
pub open spec fn json_members_view(members: Seq<(String, JsonValue)>) -> Seq<
    (Seq<char>, JsonView),
> {
    Seq::new(members.len(), |i: int| (members[i].0@, members[i].1@))
}

proof fn lemma_json_items_upto(items: Vec<JsonValue>, n: nat)
    requires
        n <= items.len(),
    ensures
        json_items_upto(items, n) == json_items_view(items@.take(n as int)),
    decreases n,
{
    if n > 0 {
        lemma_json_items_upto(items, (n - 1) as nat);
    }
    assert(json_items_upto(items, n) =~= json_items_view(items@.take(n as int)));
}

proof fn lemma_json_members_upto(members: Vec<(String, JsonValue)>, n: nat)
    requires
        n <= members.len(),
    ensures
        json_members_upto(members, n) == json_members_view(members@.take(n as int)),
    decreases n,
{
    if n > 0 {
        lemma_json_members_upto(members, (n - 1) as nat);
    }
    assert(json_members_upto(members, n) =~= json_members_view(members@.take(n as int)));
}

/// The model of an array is the array of its items' models.
pub proof fn lemma_json_array_view(items: Vec<JsonValue>)
    ensures
        JsonValue::Array(items)@ == JsonView::Array(json_items_view(items@)),
{
    lemma_json_items_upto(items, items.len() as nat);
    assert(items@.take(items.len() as int) == items@);
}

/// The model of an object is the sequence of its members' models.
pub proof fn lemma_json_object_view(members: Vec<(String, JsonValue)>)
    ensures
        JsonValue::Object(members)@ == JsonView::Object(json_members_view(members@)),
{
    lemma_json_members_upto(members, members.len() as nat);
    assert(members@.take(members.len() as int) == members@);
}

/// The value of the first member named `name` among the members from
/// position `from` on.
pub open spec fn member_from(members: Seq<(Seq<char>, JsonView)>, name: Seq<char>, from: nat)
    -> Option<JsonView>
    decreases members.len() - from,
{
    if from >= members.len() {
        None
    } else if members[from as int].0 == name {
        Some(members[from as int].1)
    } else {
        member_from(members, name, from + 1)
    }
}

/// The value of the first member named `name`.
pub fn find_member<'a>(members: &'a Vec<(String, JsonValue)>, name: &str) -> (r: Option<&'a JsonValue>)
    ensures
        match r {
            Some(v) => member_from(json_members_view(members@), name@, 0) == Some(v@),
            None => member_from(json_members_view(members@), name@, 0) is None,
        },
{
    let ghost views = json_members_view(members@);
    let wanted = crate::text::owned(name);
    let mut i: usize = 0;
    while i < members.len()
        invariant
            i <= members.len(),
            views == json_members_view(members@),
            wanted@ == name@,
            member_from(views, name@, 0) == member_from(views, name@, i as nat),
        decreases members.len() - i,
    {
        if members[i].0 == wanted {
            return Some(&members[i].1);
        }
        i += 1;
    }
    None
}

/// A copy of the value.
#[verifier::loop_isolation(false)]
pub fn clone_json(value: &JsonValue) -> (r: JsonValue)
    ensures
        r@ == value@,
    decreases value,
{
    match value {
        JsonValue::Null => JsonValue::Null,
        JsonValue::Bool(b) => JsonValue::Bool(*b),
        JsonValue::Number(n) => JsonValue::Number(*n),
        JsonValue::Str(s) => JsonValue::Str(s.clone()),
        JsonValue::Array(items) => {
            let mut out: Vec<JsonValue> = Vec::new();
            let mut i: usize = 0;
            while i < items.len()
                invariant
                    i <= items.len(),
                    out@.len() == i,
                    forall|k: int| 0 <= k < i ==> (#[trigger] out@[k])@ == items@[k]@,
                decreases items.len() - i,
            {
                let copy = clone_json(&items[i]);
                out.push(copy);
                i += 1;
            }
            proof {
                lemma_json_array_view(*items);
                lemma_json_array_view(out);
                assert(json_items_view(out@) =~= json_items_view(items@));
            }
            JsonValue::Array(out)
        },
        JsonValue::Object(members) => {
            let mut out: Vec<(String, JsonValue)> = Vec::new();
            let mut i: usize = 0;
            while i < members.len()
                invariant
                    i <= members.len(),
                    out@.len() == i,
                    forall|k: int|
                        0 <= k < i ==> (#[trigger] out@[k]).0@ == members@[k].0@ && out@[k].1@
                            == members@[k].1@,
                decreases members.len() - i,
            {
                let name = members[i].0.clone();
                let copy = clone_json(&members[i].1);
                out.push((name, copy));
                i += 1;
            }
            proof {
                lemma_json_object_view(*members);
                lemma_json_object_view(out);
                assert(json_members_view(out@) =~= json_members_view(members@));
            }
            JsonValue::Object(out)
        },
    }
}

impl JsonView {
    /// A value as a JSON reader makes it: every number in it is well formed,
    /// and no object in it holds a name twice.
    pub open spec fn wf(self) -> bool
        decreases self,
    {
        match self {
            JsonView::Number(n) => n.wf(),
            JsonView::Array(items) => forall|i: int|
                0 <= i < items.len() ==> (#[trigger] items[i]).wf(),
            JsonView::Object(members) => {
                &&& forall|i: int| 0 <= i < members.len() ==> (#[trigger] members[i]).1.wf()
                &&& forall|i: int, j: int|
                    0 <= i < j < members.len() ==> (#[trigger] members[i]).0 != (
                    #[trigger] members[j]).0
            },
            _ => true,
        }
    }

    /// Whether every integer in the value fits in a signed 64-bit integer.
    pub open spec fn integers_in_range(self) -> bool
        decreases self,
    {
        match self {
            JsonView::Number(JsonNumber::PosInt(u)) => u <= i64::MAX as u64,
            JsonView::Array(items) => forall|i: int|
                0 <= i < items.len() ==> (#[trigger] items[i]).integers_in_range(),
            JsonView::Object(members) => forall|i: int|
                0 <= i < members.len() ==> (#[trigger] members[i]).1.integers_in_range(),
            _ => true,
        }
    }
}

/// A value of the SQL engine.
///
/// A date, a time, a timestamp, an interval, a decimal and a network address
/// are held as the texts that stand for them. `F32` holds the bit pattern of
/// the binary64 number equal to the single-precision value.
#[derive(Debug, PartialEq, Eq)]
pub enum EngineValue {
    Null,
    Bool(bool),
    I8(i8),
    I16(i16),
    I32(i32),
    I64(i64),
    I128(i128),
    U8(u8),
    U16(u16),
    U32(u32),
    U64(u64),
    U128(u128),
    F32(u64),
    F64(u64),
    Decimal(String),
    Str(String),
    Bytea(Vec<u8>),
    Inet(String),
    Date(String),
    Timestamp(String),
    Time(String),
    Interval(String),
    Uuid(u128),
    Dict(Vec<(String, EngineValue)>),
    List(Vec<EngineValue>),
    Point(u64, u64),
}

/// The model of an `EngineValue`.
pub ghost enum EngineView {
    Null,
    Bool(bool),
    I8(i8),
    I16(i16),
    I32(i32),
    I64(i64),
    I128(i128),
    U8(u8),
    U16(u16),
    U32(u32),
    U64(u64),
    U128(u128),
    F32(u64),
    F64(u64),
    Decimal(Seq<char>),
    Str(Seq<char>),
    Bytea(Seq<u8>),
    Inet(Seq<char>),
    Date(Seq<char>),
    Timestamp(Seq<char>),
    Time(Seq<char>),
    Interval(Seq<char>),
    Uuid(u128),
    Dict(Seq<(Seq<char>, EngineView)>),
    List(Seq<EngineView>),
    Point(u64, u64),
}

/// The model of a value of the engine.
pub open spec fn engine_view_of(v: EngineValue) -> EngineView
    decreases v, 0nat,
{
    match v {
        EngineValue::Null => EngineView::Null,
        EngineValue::Bool(b) => EngineView::Bool(b),
        EngineValue::I8(n) => EngineView::I8(n),
        EngineValue::I16(n) => EngineView::I16(n),
        EngineValue::I32(n) => EngineView::I32(n),
        EngineValue::I64(n) => EngineView::I64(n),
        EngineValue::I128(n) => EngineView::I128(n),
        EngineValue::U8(n) => EngineView::U8(n),
        EngineValue::U16(n) => EngineView::U16(n),
        EngineValue::U32(n) => EngineView::U32(n),
        EngineValue::U64(n) => EngineView::U64(n),
        EngineValue::U128(n) => EngineView::U128(n),
        EngineValue::F32(bits) => EngineView::F32(bits),
        EngineValue::F64(bits) => EngineView::F64(bits),
        EngineValue::Decimal(s) => EngineView::Decimal(s@),
        EngineValue::Str(s) => EngineView::Str(s@),
        EngineValue::Bytea(bytes) => EngineView::Bytea(bytes@),
        EngineValue::Inet(s) => EngineView::Inet(s@),
        EngineValue::Date(s) => EngineView::Date(s@),
        EngineValue::Timestamp(s) => EngineView::Timestamp(s@),
        EngineValue::Time(s) => EngineView::Time(s@),
        EngineValue::Interval(s) => EngineView::Interval(s@),
        EngineValue::Uuid(n) => EngineView::Uuid(n),
        EngineValue::Dict(fields) => EngineView::Dict(
            engine_fields_upto(fields, fields.len() as nat),
        ),
        EngineValue::List(items) => EngineView::List(engine_items_upto(items, items.len() as nat)),
        EngineValue::Point(x, y) => EngineView::Point(x, y),
    }
}

/// The models of the first `n` items.
pub open spec fn engine_items_upto(items: Vec<EngineValue>, n: nat) -> Seq<EngineView>
    decreases items, n,
{
    if n == 0 || n > items.len() {
        Seq::empty()
    } else {
        engine_items_upto(items, (n - 1) as nat).push(engine_view_of(items[n - 1]))
    }
}

/// The models of the first `n` named values.
pub open spec fn engine_fields_upto(fields: Vec<(String, EngineValue)>, n: nat) -> Seq<
    (Seq<char>, EngineView),
>
    decreases fields, n,
{
    if n == 0 || n > fields.len() {
        Seq::empty()
    } else {
        engine_fields_upto(fields, (n - 1) as nat).push(
            (fields[n - 1].0@, engine_view_of(fields[n - 1].1)),
        )
    }
}

impl View for EngineValue {
    type V = EngineView;

    open spec fn view(&self) -> EngineView {
        engine_view_of(*self)
    }
}

/// The models of the items of a list.
pub open spec fn engine_items_view(items: Seq<EngineValue>) -> Seq<EngineView> {
    Seq::new(items.len(), |i: int| items[i]@)
}

/// The models of named values.
pub open spec fn engine_fields_view(fields: Seq<(String, EngineValue)>) -> Seq<
    (Seq<char>, EngineView),
> {
    Seq::new(fields.len(), |i: int| (fields[i].0@, fields[i].1@))
}

proof fn lemma_engine_items_upto(items: Vec<EngineValue>, n: nat)
    requires
        n <= items.len(),
    ensures
        engine_items_upto(items, n) == engine_items_view(items@.take(n as int)),
    decreases n,
{
    if n > 0 {
        lemma_engine_items_upto(items, (n - 1) as nat);
    }
    assert(engine_items_upto(items, n) =~= engine_items_view(items@.take(n as int)));
}

proof fn lemma_engine_fields_upto(fields: Vec<(String, EngineValue)>, n: nat)
    requires
        n <= fields.len(),
    ensures
        engine_fields_upto(fields, n) == engine_fields_view(fields@.take(n as int)),
    decreases n,
{
    if n > 0 {
        lemma_engine_fields_upto(fields, (n - 1) as nat);
    }
    assert(engine_fields_upto(fields, n) =~= engine_fields_view(fields@.take(n as int)));
}

/// The model of a list is the list of its items' models.
pub proof fn lemma_engine_list_view(items: Vec<EngineValue>)
    ensures
        EngineValue::List(items)@ == EngineView::List(engine_items_view(items@)),
{
    lemma_engine_items_upto(items, items.len() as nat);
    assert(items@.take(items.len() as int) == items@);
}

/// The model of a dictionary is the sequence of its fields' models.
pub proof fn lemma_engine_dict_view(fields: Vec<(String, EngineValue)>)
    ensures
        EngineValue::Dict(fields)@ == EngineView::Dict(engine_fields_view(fields@)),
{
    lemma_engine_fields_upto(fields, fields.len() as nat);
    assert(fields@.take(fields.len() as int) == fields@);
}

} // verus!
