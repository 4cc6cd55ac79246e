//! The JSON tree, and the mapping between values and JSON trees.
use crate::float_bits::{large_u64_float_bits, u64_to_float_bits};
use crate::table::{
    array_model, array_wf, datetime_free, datetime_free_entries, datetime_free_items, has_key,
    table_set, table_wf, value_wf, Array, Table, TableKeyCount, TableModel,
    TableSet, TomlValue, ValueModel,
};
use vstd::prelude::*;

verus! {

/// A JSON document tree. A float is held by its binary64 bit pattern. The
/// members of an object come in document order.
#[derive(Debug, PartialEq)]
pub enum JsonValue {
    Null,
    Bool(bool),
    I64(i64),
    U64(u64),
    F64(u64),
    String(String),
    Array(Vec<JsonValue>),
    Object(Vec<(String, JsonValue)>),
}

/// What a `JsonValue` denotes.
pub enum JsonModel {
    Null,
    Bool(bool),
    I64(i64),
    U64(u64),
    F64(u64),
    String(Seq<char>),
    Array(Seq<JsonModel>),
    Object(Seq<(Seq<char>, JsonModel)>),
}

impl View for JsonValue {
    type V = JsonModel;

    open spec fn view(&self) -> JsonModel
        decreases self,
    {
        match self {
            JsonValue::Null => JsonModel::Null,
            JsonValue::Bool(b) => JsonModel::Bool(*b),
            JsonValue::I64(i) => JsonModel::I64(*i),
            JsonValue::U64(u) => JsonModel::U64(*u),
            JsonValue::F64(bits) => JsonModel::F64(*bits),
            JsonValue::String(s) => JsonModel::String(s@),
            JsonValue::Array(a) => JsonModel::Array(json_items_model(*a)),
            JsonValue::Object(o) => JsonModel::Object(json_members_model(*o)),
        }
    }
}

/// What the elements of a JSON array denote.
pub open spec fn json_items_model(a: Vec<JsonValue>) -> Seq<JsonModel>
    decreases a,
{
    Seq::new(
        a@.len(),
        |i: int|
            if 0 <= i < a@.len() {
                a@[i]@
            } else {
                JsonModel::Null
            },
    )
}

/// What the members of a JSON object denote.
pub open spec fn json_members_model(o: Vec<(String, JsonValue)>) -> Seq<(Seq<char>, JsonModel)>
    decreases o,
{
    Seq::new(
        o@.len(),
        |i: int|
            if 0 <= i < o@.len() {
                (o@[i].0@, o@[i].1@)
            } else {
                (Seq::empty(), JsonModel::Null)
            },
    )
}

/// The JSON tree of a value: scalars keep their kind, a datetime becomes
/// the string of its text, arrays and tables keep their order.
pub open spec fn to_json(v: ValueModel) -> JsonModel
    decreases v,
{
    match v {
        ValueModel::String(s) => JsonModel::String(s),
        ValueModel::Integer(i) => JsonModel::I64(i),
        ValueModel::Float(bits) => JsonModel::F64(bits),
        ValueModel::Boolean(b) => JsonModel::Bool(b),
        ValueModel::Datetime(d) => JsonModel::String(d),
        ValueModel::Array(a) => JsonModel::Array(to_json_items(a)),
        ValueModel::Table(t) => JsonModel::Object(to_json_members(t)),
    }
}

/// The JSON trees of the elements of an array, in order.
pub open spec fn to_json_items(a: Seq<ValueModel>) -> Seq<JsonModel>
    decreases a,
{
    Seq::new(
        a.len(),
        |i: int|
            if 0 <= i < a.len() {
                to_json(a[i])
            } else {
                JsonModel::Null
            },
    )
}

/// The members of the JSON object of a table: its keys in iteration order,
/// each with the JSON tree of its value.
pub open spec fn to_json_members(t: TableModel) -> Seq<(Seq<char>, JsonModel)>
    decreases t,
{
    Seq::new(
        t.len(),
        |i: int|
            if 0 <= i < t.len() {
                (t[i].0, to_json(t[i].1))
            } else {
                (Seq::empty(), JsonModel::Null)
            },
    )
}

/// The value of a JSON tree, or `None` for null. An unsigned integer below
/// the largest signed 64-bit integer becomes an integer, any other a float.
/// Arrays and objects lose their nulls.
pub open spec fn from_json(j: JsonModel) -> Option<ValueModel>
    decreases j, 0nat,
{
    match j {
        JsonModel::Null => None,
        JsonModel::Bool(b) => Some(ValueModel::Boolean(b)),
        JsonModel::I64(i) => Some(ValueModel::Integer(i)),
        JsonModel::U64(u) => if u < 0x7FFF_FFFF_FFFF_FFFF {
            Some(ValueModel::Integer(u as i64))
        } else {
            Some(ValueModel::Float(large_u64_float_bits(u)))
        },
        JsonModel::F64(bits) => Some(ValueModel::Float(bits)),
        JsonModel::String(s) => Some(ValueModel::String(s)),
        JsonModel::Array(a) => Some(ValueModel::Array(from_json_items(a, a.len()))),
        JsonModel::Object(o) => Some(ValueModel::Table(from_json_members(o, o.len()))),
    }
}

/// The values of the first `n` elements of a JSON array, in order, with
/// the nulls left out.
pub open spec fn from_json_items(a: Seq<JsonModel>, n: nat) -> Seq<ValueModel>
    decreases a, n,
{
    if n == 0 || n > a.len() {
        Seq::empty()
    } else {
        let before = from_json_items(a, (n - 1) as nat);
        match from_json(a[n - 1]) {
            Some(v) => before.push(v),
            None => before,
        }
    }
}

/// The table of the first `n` members of a JSON object: each member that
/// is not null is set under its key, in order.
pub open spec fn from_json_members(o: Seq<(Seq<char>, JsonModel)>, n: nat) -> TableModel
    decreases o, n,
{
    if n == 0 || n > o.len() {
        Seq::empty()
    } else {
        let before = from_json_members(o, (n - 1) as nat);
        match from_json(o[n - 1].1) {
            Some(v) => table_set(before, o[n - 1].0, v),
            None => before,
        }
    }
}

/// The JSON object members of a table.
pub fn table_to_json(table: &Table) -> (json: Vec<(String, JsonValue)>)
    ensures
        json_members_model(json) == to_json_members(table@),
    decreases table@,
{
    let mut json: Vec<(String, JsonValue)> = Vec::new();
    let n = TableKeyCount(table);
    let mut i: usize = 0;
    while i < n
        invariant
            n == table@.len(),
            i <= n,
            json@.len() == i,
            forall|j: int|
                0 <= j < i ==> (#[trigger] json@[j]).0@ == table@[j].0 && json@[j].1@ == to_json(
                    table@[j].1,
                ),
        decreases n - i,
    {
        let (key, value) = table.entry(i);
        let item = toml_to_json(value);
        json.push((key.to_owned(), item));
        i += 1;
    }
    assert(json_members_model(json) =~= to_json_members(table@));
    json
}

/// The JSON array elements of an array.
pub fn array_to_json(array: &Array) -> (json: Vec<JsonValue>)
    ensures
        json_items_model(json) == to_json_items(array_model(*array)),
    decreases array_model(*array),
{
    let mut json: Vec<JsonValue> = Vec::new();
    let n = array.len();
    let mut i: usize = 0;
    while i < n
        invariant
            n == array@.len(),
            i <= n,
            json@.len() == i,
            forall|j: int| 0 <= j < i ==> (#[trigger] json@[j])@ == to_json(array@[j]@),
        decreases n - i,
    {
        assert(array_model(*array)[i as int] == array@[i as int]@);
        let item = toml_to_json(&array[i]);
        json.push(item);
        i += 1;
    }
    assert(json_items_model(json) =~= to_json_items(array_model(*array)));
    json
}

/// The JSON tree of a value.
pub fn toml_to_json(value: &TomlValue) -> (json: JsonValue)
    ensures
        json@ == to_json(value@),
    decreases value@,
{
    match value {
        TomlValue::String(s) => JsonValue::String(s.clone()),
        TomlValue::Integer(i) => JsonValue::I64(*i),
        TomlValue::Float(bits) => JsonValue::F64(*bits),
        TomlValue::Boolean(b) => JsonValue::Bool(*b),
        TomlValue::Datetime(d) => JsonValue::String(d.clone()),
        TomlValue::Array(ary) => JsonValue::Array(array_to_json(ary)),
        TomlValue::Table(table) => JsonValue::Object(table_to_json(table)),
    }
}

/// The table of a JSON object's members; null members are left out, and of
/// two members with one key the later gives the value.
pub fn json_to_table(json: &Vec<(String, JsonValue)>) -> (table: Table)
    ensures
        table@ == from_json_members(json_members_model(*json), json@.len()),
        table.wf(),
    decreases json,
{
    let mut table = Table::new();
    let n = json.len();
    let mut i: usize = 0;
    while i < n
        invariant
            n == json@.len(),
            i <= n,
            table@ == from_json_members(json_members_model(*json), i as nat),
            table.wf(),
        decreases n - i,
    {
        match json_to_toml(&json[i].1) {
            Some(value) => {
                TableSet(&mut table, json[i].0.as_str(), Box::new(value));
            },
            None => {},
        }
        i += 1;
    }
    table
}

/// The array of a JSON array's elements; null elements are left out.
pub fn json_to_array(json: &Vec<JsonValue>) -> (ary: Array)
    ensures
        array_model(ary) == from_json_items(json_items_model(*json), json@.len()),
        array_wf(array_model(ary)),
    decreases json,
{
    let mut ary: Array = Vec::new();
    let n = json.len();
    let mut i: usize = 0;
    assert(array_model(ary) =~= Seq::empty());
    while i < n
        invariant
            n == json@.len(),
            i <= n,
            array_model(ary) == from_json_items(json_items_model(*json), i as nat),
            array_wf(array_model(ary)),
        decreases n - i,
    {
        let ghost before = array_model(ary);
        match json_to_toml(&json[i]) {
            Some(value) => {
                ary.push(value);
                assert(array_model(ary) =~= before.push(value@));
                assert forall|k: int| 0 <= k < array_model(ary).len() implies value_wf(
                    #[trigger] array_model(ary)[k],
                ) by {
                    if k < before.len() {
                        assert(array_model(ary)[k] == before[k]);
                    } else {
                        assert(array_model(ary)[k] == value@);
                    }
                }
            },
            None => {},
        }
        i += 1;
    }
    ary
}

/// The value of a JSON tree, or `None` for null.
pub fn json_to_toml(json: &JsonValue) -> (r: Option<TomlValue>)
    ensures
        match r {
            Some(v) => from_json(json@) == Some(v@) && value_wf(v@),
            None => from_json(json@).is_none(),
        },
    decreases json,
{
    match json {
        JsonValue::Null => None,
        JsonValue::Bool(b) => Some(TomlValue::Boolean(*b)),
        JsonValue::I64(i) => Some(TomlValue::Integer(*i)),
        JsonValue::U64(u) => if *u < 0x7FFF_FFFF_FFFF_FFFF {
            Some(TomlValue::Integer(*u as i64))
        } else {
            Some(TomlValue::Float(u64_to_float_bits(*u)))
        },
        JsonValue::F64(bits) => Some(TomlValue::Float(*bits)),
        JsonValue::String(s) => Some(TomlValue::String(s.clone())),
        JsonValue::Array(items) => Some(TomlValue::Array(json_to_array(items))),
        JsonValue::Object(members) => Some(TomlValue::Table(json_to_table(members))),
    }
}

/// A value without datetimes, whose tables have unique keys, comes back
/// from its JSON tree exactly as it was.
pub proof fn law_json_round_trip(v: ValueModel)
    requires
        value_wf(v),
        datetime_free(v),
    ensures
        from_json(to_json(v)) == Some(v),
    decreases v, 0nat,
{
    match v {
        ValueModel::Array(a) => {
            lemma_items_round_trip(a, a.len());
            assert(to_json_items(a).len() == a.len());
            assert(a.subrange(0, a.len() as int) =~= a);
        },
        ValueModel::Table(t) => {
            lemma_members_round_trip(t, t.len());
            assert(to_json_members(t).len() == t.len());
            assert(t.subrange(0, t.len() as int) =~= t);
        },
        _ => {},
    }
}

proof fn lemma_items_round_trip(a: Seq<ValueModel>, n: nat)
    requires
        array_wf(a),
        datetime_free_items(a),
        n <= a.len(),
    ensures
        from_json_items(to_json_items(a), n) == a.subrange(0, n as int),
    decreases a, n,
{
    let j = to_json_items(a);
    if n == 0 {
        assert(a.subrange(0, 0) =~= Seq::<ValueModel>::empty());
    } else {
        lemma_items_round_trip(a, (n - 1) as nat);
        law_json_round_trip(a[n - 1]);
        assert(j[n - 1] == to_json(a[n - 1]));
        assert(a.subrange(0, n - 1).push(a[n - 1]) =~= a.subrange(0, n as int));
    }
}

proof fn lemma_members_round_trip(t: TableModel, n: nat)
    requires
        table_wf(t),
        datetime_free_entries(t),
        n <= t.len(),
    ensures
        from_json_members(to_json_members(t), n) == t.subrange(0, n as int),
    decreases t, n,
{
    let j = to_json_members(t);
    if n == 0 {
        assert(t.subrange(0, 0) =~= Seq::<(Seq<char>, ValueModel)>::empty());
    } else {
        lemma_members_round_trip(t, (n - 1) as nat);
        law_json_round_trip(t[n - 1].1);
        assert(j[n - 1] == (t[n - 1].0, to_json(t[n - 1].1)));
        let before = t.subrange(0, n - 1);
        assert(!has_key(before, t[n - 1].0)) by {
            assert forall|i: int| 0 <= i < before.len() implies (#[trigger] before[i]).0 != t[n
                - 1].0 by {
                assert(before[i] == t[i]);
            }
        }
        assert(before.push(t[n - 1]) =~= t.subrange(0, n as int));
    }
}

/// Only null has no value; every other JSON tree has one.
pub proof fn law_only_null_is_dropped(j: JsonModel)
    ensures
        from_json(j).is_none() <==> j is Null,
{
}

/// A null element adds nothing to the array that comes out: the values of
/// the first `n + 1` elements are those of the first `n` where element `n`
/// is null, and one more where it is not.
pub proof fn law_null_items_dropped(a: Seq<JsonModel>, n: nat)
    requires
        n < a.len(),
    ensures
        a[n as int] is Null ==> from_json_items(a, n + 1) == from_json_items(a, n),
        !(a[n as int] is Null) ==> from_json_items(a, n + 1) == from_json_items(a, n).push(
            from_json(a[n as int]).unwrap(),
        ),
{
}

/// A null member adds no key to the table that comes out; any other member
/// is set under its key.
pub proof fn law_null_members_dropped(o: Seq<(Seq<char>, JsonModel)>, n: nat)
    requires
        n < o.len(),
    ensures
        o[n as int].1 is Null ==> from_json_members(o, n + 1) == from_json_members(o, n),
        !(o[n as int].1 is Null) ==> from_json_members(o, n + 1) == table_set(
            from_json_members(o, n),
            o[n as int].0,
            from_json(o[n as int].1).unwrap(),
        ),
{
}

} // verus!
