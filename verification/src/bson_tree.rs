//! The binary document tree, and the mapping between values and binary
//! document trees.
use crate::datetime::{datetime_parsed, datetime_rendered, parse_datetime, render_datetime};
use crate::table::{
    array_model, array_wf, datetime_free, datetime_free_entries, datetime_free_items, has_key,
    keys_unique, lemma_has_key_first, table_set, table_wf, value_wf, Array, Table, TableKeyCount,
    TableModel, TableSet, TomlValue, ValueModel,
};
use vstd::prelude::*;

verus! {

/// A binary document tree. A float is held by its binary64 bit pattern, a
/// datetime as milliseconds since 1970-01-01 00:00:00 UTC, a timestamp
/// counter as its seconds and its increment. `Unsupported` stands for every
/// kind of element that has no value: binary data, object ids, regular
/// expressions, code, and the like.
#[derive(Debug, PartialEq)]
pub enum BsonValue {
    FloatingPoint(u64),
    String(String),
    Array(Vec<BsonValue>),
    Document(Vec<(String, BsonValue)>),
    Boolean(bool),
    Null,
    I32(i32),
    I64(i64),
    TimeStamp(u32, u32),
    UtcDatetime(i64),
    Unsupported,
}

/// What a `BsonValue` denotes.
pub enum BsonModel {
    FloatingPoint(u64),
    String(Seq<char>),
    Array(Seq<BsonModel>),
    Document(Seq<(Seq<char>, BsonModel)>),
    Boolean(bool),
    Null,
    I32(i32),
    I64(i64),
    TimeStamp(u32, u32),
    UtcDatetime(i64),
    Unsupported,
}

impl View for BsonValue {
    type V = BsonModel;

    open spec fn view(&self) -> BsonModel
        decreases self,
    {
        match self {
            BsonValue::FloatingPoint(bits) => BsonModel::FloatingPoint(*bits),
            BsonValue::String(s) => BsonModel::String(s@),
            BsonValue::Array(a) => BsonModel::Array(bson_items_model(*a)),
            BsonValue::Document(d) => BsonModel::Document(bson_members_model(*d)),
            BsonValue::Boolean(b) => BsonModel::Boolean(*b),
            BsonValue::Null => BsonModel::Null,
            BsonValue::I32(i) => BsonModel::I32(*i),
            BsonValue::I64(i) => BsonModel::I64(*i),
            BsonValue::TimeStamp(time, increment) => BsonModel::TimeStamp(*time, *increment),
            BsonValue::UtcDatetime(millis) => BsonModel::UtcDatetime(*millis),
            BsonValue::Unsupported => BsonModel::Unsupported,
        }
    }
}

/// What the elements of a binary array denote.
pub open spec fn bson_items_model(a: Vec<BsonValue>) -> Seq<BsonModel>
    decreases a,
{
    Seq::new(
        a@.len(),
        |i: int|
            if 0 <= i < a@.len() {
                a@[i]@
            } else {
                BsonModel::Null
            },
    )
}

/// What the members of a binary document denote.
pub open spec fn bson_members_model(d: Vec<(String, BsonValue)>) -> Seq<(Seq<char>, BsonModel)>
    decreases d,
{
    Seq::new(
        d@.len(),
        |i: int|
            if 0 <= i < d@.len() {
                (d@[i].0@, d@[i].1@)
            } else {
                (Seq::empty(), BsonModel::Null)
            },
    )
}

/// The element that stands for a datetime: its timestamp where the text
/// was read as one, null where it was not.
pub open spec fn datetime_element(parsed: Option<i64>) -> BsonModel {
    match parsed {
        Some(millis) => BsonModel::UtcDatetime(millis),
        None => BsonModel::Null,
    }
}

/// The binary document tree of a value. Scalars keep their kind; a datetime
/// becomes the timestamp read from its text, or null where the text is no
/// datetime; arrays and tables keep their order.
pub open spec fn to_bson(v: ValueModel) -> BsonModel
    decreases v,
{
    match v {
        ValueModel::String(s) => BsonModel::String(s),
        ValueModel::Integer(i) => BsonModel::I64(i),
        ValueModel::Float(bits) => BsonModel::FloatingPoint(bits),
        ValueModel::Boolean(b) => BsonModel::Boolean(b),
        ValueModel::Datetime(text) => datetime_element(datetime_parsed(text)),
        ValueModel::Array(a) => BsonModel::Array(to_bson_items(a)),
        ValueModel::Table(t) => BsonModel::Document(to_bson_members(t)),
    }
}

/// The binary trees of the elements of an array, in order.
pub open spec fn to_bson_items(a: Seq<ValueModel>) -> Seq<BsonModel>
    decreases a,
{
    Seq::new(
        a.len(),
        |i: int|
            if 0 <= i < a.len() {
                to_bson(a[i])
            } else {
                BsonModel::Null
            },
    )
}

/// The members of the binary document of a table: its keys in iteration
/// order, each with the binary tree of its value.
pub open spec fn to_bson_members(t: TableModel) -> Seq<(Seq<char>, BsonModel)>
    decreases t,
{
    Seq::new(
        t.len(),
        |i: int|
            if 0 <= i < t.len() {
                (t[i].0, to_bson(t[i].1))
            } else {
                (Seq::empty(), BsonModel::Null)
            },
    )
}

/// The signed 64-bit integer with the bits of a timestamp counter: the
/// seconds in the upper half, the increment in the lower.
pub open spec fn timestamp_integer(time: u32, increment: u32) -> i64 {
    if time < 0x8000_0000 {
        (time * 0x1_0000_0000 + increment) as i64
    } else {
        (time * 0x1_0000_0000 + increment - 0x1_0000_0000_0000_0000) as i64
    }
}

/// The value that stands for a timestamp: a datetime of the text it was
/// written out as, or none where it could not be written out.
pub open spec fn datetime_value(rendered: Option<Seq<char>>) -> Option<ValueModel> {
    match rendered {
        Some(text) => Some(ValueModel::Datetime(text)),
        None => None,
    }
}

/// The value of a binary document tree, or `None` where it has none: for
/// null, for every unsupported kind, and for a timestamp beyond the
/// calendar. Arrays and documents lose the elements that have no value.
pub open spec fn from_bson(b: BsonModel) -> Option<ValueModel>
    decreases b, 0nat,
{
    match b {
        BsonModel::Document(d) => Some(ValueModel::Table(from_bson_members(d, d.len()))),
        BsonModel::Array(a) => Some(ValueModel::Array(from_bson_items(a, a.len()))),
        BsonModel::String(s) => Some(ValueModel::String(s)),
        BsonModel::UtcDatetime(millis) => datetime_value(datetime_rendered(millis)),
        BsonModel::FloatingPoint(bits) => Some(ValueModel::Float(bits)),
        BsonModel::I32(i) => Some(ValueModel::Integer(i as i64)),
        BsonModel::I64(i) => Some(ValueModel::Integer(i)),
        BsonModel::TimeStamp(time, increment) => Some(
            ValueModel::Integer(timestamp_integer(time, increment)),
        ),
        BsonModel::Boolean(b) => Some(ValueModel::Boolean(b)),
        BsonModel::Null => None,
        BsonModel::Unsupported => None,
    }
}

/// The values of the first `n` elements of a binary array, in order,
/// without the elements that have none.
pub open spec fn from_bson_items(a: Seq<BsonModel>, n: nat) -> Seq<ValueModel>
    decreases a, n,
{
    if n == 0 || n > a.len() {
        Seq::empty()
    } else {
        let before = from_bson_items(a, (n - 1) as nat);
        match from_bson(a[n - 1]) {
            Some(v) => before.push(v),
            None => before,
        }
    }
}

/// The table of the first `n` members of a binary document: each member
/// that has a value is set under its key, in order.
pub open spec fn from_bson_members(d: Seq<(Seq<char>, BsonModel)>, n: nat) -> TableModel
    decreases d, n,
{
    if n == 0 || n > d.len() {
        Seq::empty()
    } else {
        let before = from_bson_members(d, (n - 1) as nat);
        match from_bson(d[n - 1].1) {
            Some(v) => table_set(before, d[n - 1].0, v),
            None => before,
        }
    }
}

/// No element of `b`, at any depth, is of an unsupported kind.
pub open spec fn bson_supported(b: BsonModel) -> bool
    decreases b,
{
    match b {
        BsonModel::Unsupported => false,
        BsonModel::Array(a) => bson_supported_items(a),
        BsonModel::Document(d) => bson_supported_members(d),
        _ => true,
    }
}

/// No element of `a` is of an unsupported kind.
pub open spec fn bson_supported_items(a: Seq<BsonModel>) -> bool
    decreases a,
{
    forall|i: int| 0 <= i < a.len() ==> bson_supported(#[trigger] a[i])
}

/// No member of `d` is of an unsupported kind.
pub open spec fn bson_supported_members(d: Seq<(Seq<char>, BsonModel)>) -> bool
    decreases d,
{
    forall|i: int| 0 <= i < d.len() ==> bson_supported((#[trigger] d[i]).1)
}

/// The element for a datetime whose text was parsed, or was not.
pub fn datetime_to_bson(parsed: Option<i64>) -> (r: BsonValue)
    ensures
        r@ == datetime_element(parsed),
{
    match parsed {
        Some(millis) => BsonValue::UtcDatetime(millis),
        None => BsonValue::Null,
    }
}

/// The members of the binary document of a table.
pub fn table_to_bson(table: &Table) -> (doc: Vec<(String, BsonValue)>)
    ensures
        bson_members_model(doc) == to_bson_members(table@),
        bson_supported_members(bson_members_model(doc)),
    decreases table@,
{
    let mut doc: Vec<(String, BsonValue)> = Vec::new();
    let n = TableKeyCount(table);
    let mut i: usize = 0;
    while i < n
        invariant
            n == table@.len(),
            i <= n,
            doc@.len() == i,
            forall|j: int|
                0 <= j < i ==> (#[trigger] doc@[j]).0@ == table@[j].0 && doc@[j].1@ == to_bson(
                    table@[j].1,
                ) && bson_supported(doc@[j].1@),
        decreases n - i,
    {
        let (k, v) = table.entry(i);
        let item = toml_to_bson(v);
        doc.push((k.to_owned(), item));
        i += 1;
    }
    assert(bson_members_model(doc) =~= to_bson_members(table@));
    doc
}

/// The elements of the binary array of an array.
pub fn array_to_bson(array: &Array) -> (ary: Vec<BsonValue>)
    ensures
        bson_items_model(ary) == to_bson_items(array_model(*array)),
        bson_supported_items(bson_items_model(ary)),
    decreases array_model(*array),
{
    let mut ary: Vec<BsonValue> = Vec::new();
    let n = array.len();
    let mut i: usize = 0;
    while i < n
        invariant
            n == array@.len(),
            i <= n,
            ary@.len() == i,
            forall|j: int|
                0 <= j < i ==> (#[trigger] ary@[j])@ == to_bson(array@[j]@) && bson_supported(
                    ary@[j]@,
                ),
        decreases n - i,
    {
        assert(array_model(*array)[i as int] == array@[i as int]@);
        let item = toml_to_bson(&array[i]);
        ary.push(item);
        i += 1;
    }
    assert(bson_items_model(ary) =~= to_bson_items(array_model(*array)));
    ary
}

/// The binary document tree of a value.
pub fn toml_to_bson(value: &TomlValue) -> (r: BsonValue)
    ensures
        r@ == to_bson(value@),
        bson_supported(r@),
    decreases value@,
{
    match value {
        TomlValue::String(s) => BsonValue::String(s.clone()),
        TomlValue::Integer(i) => BsonValue::I64(*i),
        TomlValue::Float(bits) => BsonValue::FloatingPoint(*bits),
        TomlValue::Boolean(b) => BsonValue::Boolean(*b),
        TomlValue::Datetime(s) => datetime_to_bson(parse_datetime(s.as_str())),
        TomlValue::Array(a) => BsonValue::Array(array_to_bson(a)),
        TomlValue::Table(t) => BsonValue::Document(table_to_bson(t)),
    }
}

/// The table of a binary document's members; members without a value are
/// left out, and of two members with one key the later gives the value.
pub fn bson_to_table(table: &Vec<(String, BsonValue)>) -> (tab: Table)
    ensures
        tab@ == from_bson_members(bson_members_model(*table), table@.len()),
        tab.wf(),
    decreases table,
{
    let mut tab = Table::new();
    let n = table.len();
    let mut i: usize = 0;
    while i < n
        invariant
            n == table@.len(),
            i <= n,
            tab@ == from_bson_members(bson_members_model(*table), i as nat),
            tab.wf(),
        decreases n - i,
    {
        match bson_to_toml(&table[i].1) {
            Some(v) => {
                TableSet(&mut tab, table[i].0.as_str(), Box::new(v));
            },
            None => {},
        }
        i += 1;
    }
    tab
}

/// The array of a binary array's elements; elements without a value are
/// left out.
pub fn bson_to_array(array: &Vec<BsonValue>) -> (ary: Array)
    ensures
        array_model(ary) == from_bson_items(bson_items_model(*array), array@.len()),
        array_wf(array_model(ary)),
    decreases array,
{
    let mut ary: Array = Vec::new();
    let n = array.len();
    let mut i: usize = 0;
    assert(array_model(ary) =~= Seq::empty());
    while i < n
        invariant
            n == array@.len(),
            i <= n,
            array_model(ary) == from_bson_items(bson_items_model(*array), i as nat),
            array_wf(array_model(ary)),
        decreases n - i,
    {
        let ghost before = array_model(ary);
        match bson_to_toml(&array[i]) {
            Some(v) => {
                ary.push(v);
                assert(array_model(ary) =~= before.push(v@));
                assert forall|k: int| 0 <= k < array_model(ary).len() implies value_wf(
                    #[trigger] array_model(ary)[k],
                ) by {
                    if k < before.len() {
                        assert(array_model(ary)[k] == before[k]);
                    } else {
                        assert(array_model(ary)[k] == v@);
                    }
                }
            },
            None => {},
        }
        i += 1;
    }
    ary
}

/// The value for a timestamp that was written out as text, or was not.
pub fn datetime_from_bson(rendered: Option<String>) -> (r: Option<TomlValue>)
    ensures
        match r {
            Some(v) => datetime_value(option_text(rendered)) == Some(v@),
            None => datetime_value(option_text(rendered)).is_none(),
        },
{
    match rendered {
        Some(text) => Some(TomlValue::Datetime(text)),
        None => None,
    }
}

/// What an optional text denotes.
pub open spec fn option_text(text: Option<String>) -> Option<Seq<char>> {
    match text {
        Some(t) => Some(t@),
        None => None,
    }
}

/// Computes `timestamp_integer`.
pub fn timestamp_to_integer(time: u32, increment: u32) -> (r: i64)
    ensures
        r == timestamp_integer(time, increment),
{
    if time < 0x8000_0000 {
        (time as i64) * 0x1_0000_0000 + (increment as i64)
    } else {
        ((time as i64) - 0x1_0000_0000) * 0x1_0000_0000 + (increment as i64)
    }
}

/// The value of a binary document tree, or `None` where it has none.
pub fn bson_to_toml(value: &BsonValue) -> (r: Option<TomlValue>)
    ensures
        match r {
            Some(v) => from_bson(value@) == Some(v@) && value_wf(v@),
            None => from_bson(value@).is_none(),
        },
    decreases value,
{
    match value {
        BsonValue::Document(doc) => Some(TomlValue::Table(bson_to_table(doc))),
        BsonValue::Array(ary) => Some(TomlValue::Array(bson_to_array(ary))),
        BsonValue::String(s) => Some(TomlValue::String(s.clone())),
        BsonValue::UtcDatetime(millis) => datetime_from_bson(render_datetime(*millis)),
        BsonValue::FloatingPoint(bits) => Some(TomlValue::Float(*bits)),
        BsonValue::I32(i) => Some(TomlValue::Integer(*i as i64)),
        BsonValue::I64(i) => Some(TomlValue::Integer(*i)),
        BsonValue::TimeStamp(time, increment) => Some(
            TomlValue::Integer(timestamp_to_integer(*time, *increment)),
        ),
        BsonValue::Boolean(b) => Some(TomlValue::Boolean(*b)),
        _ => None,
    }
}

/// A value without datetimes, whose tables have unique keys, comes back
/// from its binary document tree exactly as it was.
pub proof fn law_bson_round_trip(v: ValueModel)
    requires
        value_wf(v),
        datetime_free(v),
    ensures
        from_bson(to_bson(v)) == Some(v),
    decreases v, 0nat,
{
    match v {
        ValueModel::Array(a) => {
            lemma_bson_items_round_trip(a, a.len());
            assert(to_bson_items(a).len() == a.len());
            assert(a.subrange(0, a.len() as int) =~= a);
        },
        ValueModel::Table(t) => {
            lemma_bson_members_round_trip(t, t.len());
            assert(to_bson_members(t).len() == t.len());
            assert(t.subrange(0, t.len() as int) =~= t);
        },
        _ => {},
    }
}

proof fn lemma_bson_items_round_trip(a: Seq<ValueModel>, n: nat)
    requires
        array_wf(a),
        datetime_free_items(a),
        n <= a.len(),
    ensures
        from_bson_items(to_bson_items(a), n) == a.subrange(0, n as int),
    decreases a, n,
{
    let b = to_bson_items(a);
    if n == 0 {
        assert(a.subrange(0, 0) =~= Seq::<ValueModel>::empty());
    } else {
        lemma_bson_items_round_trip(a, (n - 1) as nat);
        law_bson_round_trip(a[n - 1]);
        assert(b[n - 1] == to_bson(a[n - 1]));
        assert(a.subrange(0, n - 1).push(a[n - 1]) =~= a.subrange(0, n as int));
    }
}

proof fn lemma_bson_members_round_trip(t: TableModel, n: nat)
    requires
        table_wf(t),
        datetime_free_entries(t),
        n <= t.len(),
    ensures
        from_bson_members(to_bson_members(t), n) == t.subrange(0, n as int),
    decreases t, n,
{
    let d = to_bson_members(t);
    if n == 0 {
        assert(t.subrange(0, 0) =~= Seq::<(Seq<char>, ValueModel)>::empty());
    } else {
        lemma_bson_members_round_trip(t, (n - 1) as nat);
        law_bson_round_trip(t[n - 1].1);
        assert(d[n - 1] == (t[n - 1].0, to_bson(t[n - 1].1)));
        let before = t.subrange(0, n - 1);
        assert(!has_key(before, t[n - 1].0)) by {
            assert forall|i: int| 0 <= i < before.len() implies (#[trigger] before[i]).0 != t[n
                - 1].0 by {
                assert(before[i] == t[i]);
            }
        }
        assert(before.push(t[n - 1]) =~= t.subrange(0, n as int));
    }
}

/// A datetime whose text is no datetime is null in the binary document
/// tree, and has no value on the way back.
pub proof fn law_malformed_datetime_dropped(text: Seq<char>)
    requires
        datetime_parsed(text).is_none(),
    ensures
        to_bson(ValueModel::Datetime(text)) == BsonModel::Null,
        from_bson(to_bson(ValueModel::Datetime(text))).is_none(),
{
}

/// A key of the table that comes out of a document is the key of a member
/// that has a value.
pub proof fn lemma_from_bson_members_keys(d: Seq<(Seq<char>, BsonModel)>, n: nat, key: Seq<char>)
    requires
        n <= d.len(),
        has_key(from_bson_members(d, n), key),
    ensures
        exists|j: int| 0 <= j < n && (#[trigger] d[j]).0 == key && from_bson(d[j].1).is_some(),
    decreases n,
{
    if n > 0 {
        let before = from_bson_members(d, (n - 1) as nat);
        let last = d[n - 1];
        if last.0 == key && from_bson(last.1).is_some() {
        } else {
            if from_bson(last.1).is_some() {
                let after = table_set(before, last.0, from_bson(last.1).unwrap());
                let w = choose|i: int| 0 <= i < after.len() && (#[trigger] after[i]).0 == key;
                if has_key(before, last.0) {
                    lemma_has_key_first(before, last.0);
                    assert(after[w].0 == before[w].0);
                } else {
                    assert(w < before.len());
                    assert(after[w] == before[w]);
                }
                assert(has_key(before, key));
            }
            lemma_from_bson_members_keys(d, (n - 1) as nat, key);
        }
    }
}

/// In a table with unique keys, the key of a datetime whose text is no
/// datetime is absent from the table that comes back.
pub proof fn law_malformed_datetime_key_absent(t: TableModel, i: int)
    requires
        keys_unique(t),
        0 <= i < t.len(),
        t[i].1 is Datetime,
        datetime_parsed(t[i].1->Datetime_0).is_none(),
    ensures
        to_bson_members(t)[i].1 == BsonModel::Null,
        !has_key(from_bson_members(to_bson_members(t), t.len()), t[i].0),
{
    let d = to_bson_members(t);
    let back = from_bson_members(d, t.len());
    assert(d[i] == (t[i].0, to_bson(t[i].1)));
    if has_key(back, t[i].0) {
        lemma_from_bson_members_keys(d, t.len(), t[i].0);
        let j = choose|j: int|
            0 <= j < t.len() && (#[trigger] d[j]).0 == t[i].0 && from_bson(d[j].1).is_some();
        assert(d[j] == (t[j].0, to_bson(t[j].1)));
        if j < i {
            assert(t[j].0 != t[i].0);
        } else if i < j {
            assert(t[i].0 != t[j].0);
        }
    }
}

} // verus!
