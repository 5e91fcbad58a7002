//! Records: what a row of a virtual table holds. A record is a sequence of
//! named values; the columns told by the file's name come first and take
//! the place of members of the same name in what was read.

use vstd::prelude::*;
use crate::codec::{
    json_to_engine, json_value_to_glue_value, lemma_members_to_engine, members_to_engine,
};
use crate::text::owned;
use crate::value::{
    engine_fields_view, json_members_view, lemma_json_object_view, EngineValue, EngineView,
    JsonValue, JsonView,
};

verus! {

/// The model of a record: its named values, in order.
pub type RecordView = Seq<(Seq<char>, EngineView)>;

/// A row of a scan: the key that the scan gave it, and its record.
#[derive(Debug, PartialEq, Eq)]
pub struct Row {
    pub key: usize,
    pub record: Vec<(String, EngineValue)>,
}

impl Row {
    /// The model of the row's record.
    pub open spec fn record_view(&self) -> RecordView {
        engine_fields_view(self.record@)
    }
}

/// The rows hold the records, in order, and the key of each row is its
/// position: the first row has the key 0, and no key occurs twice.
pub open spec fn rows_hold(rows: Seq<Row>, records: Seq<RecordView>) -> bool {
    &&& rows.len() == records.len()
    &&& forall|i: int|
        0 <= i < rows.len() ==> (#[trigger] rows[i]).key == i && rows[i].record_view()
            == records[i]
}

/// Within one scan no key occurs twice.
pub proof fn lemma_keys_unique(rows: Seq<Row>, records: Seq<RecordView>)
    requires
        rows_hold(rows, records),
    ensures
        forall|i: int, j: int|
            0 <= i < j < rows.len() ==> (#[trigger] rows[i]).key != (#[trigger] rows[j]).key,
{
}

/// Whether one of the named values has the name `name`.
pub open spec fn has_name(fields: RecordView, name: Seq<char>) -> bool {
    exists|i: int| 0 <= i < fields.len() && (#[trigger] fields[i]).0 == name
}

/// Those of the first `n` of `fields` whose name does not occur in `taken`,
/// in order.
pub open spec fn fields_without_upto(fields: RecordView, taken: RecordView, n: nat) -> RecordView
    decreases n,
{
    if n == 0 || n > fields.len() {
        Seq::empty()
    } else {
        let before = fields_without_upto(fields, taken, (n - 1) as nat);
        if has_name(taken, fields[n - 1].0) {
            before
        } else {
            before.push(fields[n - 1])
        }
    }
}

/// Those of `fields` whose name does not occur in `taken`, in order.
pub open spec fn fields_without(fields: RecordView, taken: RecordView) -> RecordView {
    fields_without_upto(fields, taken, fields.len())
}

/// The record for a JSON value read from a file: the columns `meta`, then
/// the members of the value, where it is an object, as the engine's values,
/// without the members that have the name of a column of `meta`.
pub open spec fn record_with_meta(json: JsonView, meta: RecordView) -> RecordView {
    meta + match json {
        JsonView::Object(members) => fields_without(members_to_engine(members), meta),
        _ => Seq::empty(),
    }
}

/// What is kept of `fields` has no name that occurs in `taken`, and every
/// value kept is one of `fields`.
pub proof fn lemma_fields_without(fields: RecordView, taken: RecordView, n: nat)
    requires
        n <= fields.len(),
    ensures
        forall|i: int|
            0 <= i < fields_without_upto(fields, taken, n).len() ==> !has_name(
                taken,
                (#[trigger] fields_without_upto(fields, taken, n)[i]).0,
            ),
        forall|i: int|
            0 <= i < fields_without_upto(fields, taken, n).len() ==> exists|k: int|
                0 <= k < n && fields[k] == #[trigger] fields_without_upto(fields, taken, n)[i],
        forall|k: int|
            0 <= k < n && !has_name(taken, (#[trigger] fields[k]).0) ==> exists|i: int|
                0 <= i < fields_without_upto(fields, taken, n).len() && fields_without_upto(
                    fields,
                    taken,
                    n,
                )[i] == fields[k],
    decreases n,
{
    if n > 0 {
        lemma_fields_without(fields, taken, (n - 1) as nat);
        let before = fields_without_upto(fields, taken, (n - 1) as nat);
        let now = fields_without_upto(fields, taken, n);
        assert forall|i: int| 0 <= i < now.len() implies exists|k: int|
            0 <= k < n && fields[k] == #[trigger] now[i] by {
            if i < before.len() {
                let k = choose|k: int| 0 <= k < n - 1 && fields[k] == before[i];
                assert(fields[k] == now[i]);
            } else {
                assert(fields[n - 1] == now[i]);
            }
        }
        assert forall|k: int| 0 <= k < n && !has_name(taken, (#[trigger] fields[k]).0) implies exists|
            i: int,
        | 0 <= i < now.len() && now[i] == fields[k] by {
            if k < n - 1 {
                let i = choose|i: int| 0 <= i < before.len() && before[i] == fields[k];
                assert(now[i] == fields[k]);
            } else {
                assert(now[now.len() - 1] == fields[k]);
            }
        }
    }
}

/// A column of `meta` stands in the record with the value that `meta` gives
/// it, whatever was read: where the names of `meta` differ from each other,
/// the record holds each of them once.
pub proof fn lemma_meta_overrides(json: JsonView, meta: RecordView, i: int)
    requires
        0 <= i < meta.len(),
        forall|a: int, b: int| 0 <= a < b < meta.len() ==> meta[a].0 != meta[b].0,
    ensures
        record_with_meta(json, meta)[i] == meta[i],
        forall|k: int|
            0 <= k < record_with_meta(json, meta).len() && record_with_meta(json, meta)[k].0
                == meta[i].0 ==> k == i,
{
    let record = record_with_meta(json, meta);
    match json {
        JsonView::Object(members) => {
            let fields = members_to_engine(members);
            lemma_fields_without(fields, meta, fields.len());
            assert forall|k: int| 0 <= k < record.len() && record[k].0 == meta[i].0 implies k
                == i by {
                if k >= meta.len() {
                    let kept = fields_without(fields, meta);
                    assert(record[k] == kept[k - meta.len()]);
                    assert(!has_name(meta, kept[k - meta.len()].0));
                    assert(meta[i].0 == kept[k - meta.len()].0);
                } else if k != i {
                    if k < i {
                        assert(meta[k].0 != meta[i].0);
                    } else {
                        assert(meta[i].0 != meta[k].0);
                    }
                }
            }
        },
        _ => {
            assert(record =~= meta);
            assert forall|k: int| 0 <= k < record.len() && record[k].0 == meta[i].0 implies k
                == i by {
                if k < i {
                    assert(meta[k].0 != meta[i].0);
                } else if k > i {
                    assert(meta[i].0 != meta[k].0);
                }
            }
        },
    }
}

/// Whether one of the named values has the name `name`.
pub fn contains_name(fields: &Vec<(String, EngineValue)>, name: &String) -> (r: bool)
    ensures
        r == has_name(engine_fields_view(fields@), name@),
{
    let mut i: usize = 0;
    while i < fields.len()
        invariant
            i <= fields.len(),
            forall|k: int| 0 <= k < i ==> (#[trigger] fields@[k]).0@ != name@,
        decreases fields.len() - i,
    {
        if fields[i].0 == *name {
            assert(engine_fields_view(fields@)[i as int].0 == name@);
            return true;
        }
        i += 1;
    }
    assert(!has_name(engine_fields_view(fields@), name@)) by {
        assert forall|k: int| 0 <= k < engine_fields_view(fields@).len() implies (
        #[trigger] engine_fields_view(fields@)[k]).0 != name@ by {
            assert(fields@[k].0@ != name@);
        }
    }
    false
}

/// The record for a JSON value read from a file, with the columns `meta`
/// told by the file's name.
pub fn json_to_record(json: &JsonValue, meta: Vec<(String, EngineValue)>) -> (record: Vec<
    (String, EngineValue),
>)
    ensures
        engine_fields_view(record@) == record_with_meta(json@, engine_fields_view(meta@)),
{
    let ghost meta_view = engine_fields_view(meta@);
    let meta_len = meta.len();
    let mut record = meta;
    match json {
        JsonValue::Object(members) => {
            let ghost fields = members_to_engine(json_members_view(members@));
            proof {
                lemma_json_object_view(*members);
                lemma_members_to_engine(json_members_view(members@), members@.len());
            }
            let mut i: usize = 0;
            while i < members.len()
                invariant
                    i <= members.len(),
                    meta_len == meta_view.len(),
                    meta_len <= record.len(),
                    fields == members_to_engine(json_members_view(members@)),
                    fields.len() == members@.len(),
                    forall|k: int|
                        0 <= k < members@.len() ==> #[trigger] fields[k] == (
                            members@[k].0@,
                            json_to_engine(members@[k].1@),
                        ),
                    engine_fields_view(record@) == meta_view + fields_without_upto(
                        fields,
                        meta_view,
                        i as nat,
                    ),
                    engine_fields_view(record@).take(meta_len as int) == meta_view,
                decreases members.len() - i,
            {
                let ghost before = engine_fields_view(record@);
                let taken = name_taken(&record, meta_len, &members[i].0);
                if !taken {
                    let name = members[i].0.clone();
                    let value = json_value_to_glue_value(&members[i].1);
                    record.push((name, value));
                    assert(engine_fields_view(record@) =~= before.push(fields[i as int]));
                }
                assert(engine_fields_view(record@) =~= meta_view + fields_without_upto(
                    fields,
                    meta_view,
                    (i + 1) as nat,
                ));
                assert(engine_fields_view(record@).take(meta_len as int) =~= meta_view);
                i += 1;
            }
        },
        _ => {
            assert(engine_fields_view(record@) =~= meta_view + Seq::empty());
        },
    }
    record
}

/// Whether one of the first `n` named values has the name `name`.
fn name_taken(fields: &Vec<(String, EngineValue)>, n: usize, name: &String) -> (r: bool)
    requires
        n <= fields.len(),
    ensures
        r == has_name(engine_fields_view(fields@).take(n as int), name@),
{
    let ghost head = engine_fields_view(fields@).take(n as int);
    let mut i: usize = 0;
    while i < n
        invariant
            i <= n <= fields.len(),
            head == engine_fields_view(fields@).take(n as int),
            forall|k: int| 0 <= k < i ==> (#[trigger] head[k]).0 != name@,
        decreases n - i,
    {
        if fields[i].0 == *name {
            assert(head[i as int].0 == name@);
            return true;
        }
        i += 1;
    }
    false
}

/// A column that holds a text.
pub fn text_column(name: &str, value: &str) -> (r: (String, EngineValue))
    ensures
        r.0@ == name@,
        r.1@ == EngineView::Str(value@),
{
    (owned(name), EngineValue::Str(owned(value)))
}

} // verus!
