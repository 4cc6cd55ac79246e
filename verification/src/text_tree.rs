//! The tree that structured text is parsed into and printed from, and the
//! mapping between values and such trees.
use crate::table::{
    array_model, array_wf, has_key, table_set, table_wf, value_wf, Array, Table, TableKeyCount,
    TableModel, TableSet, TomlValue, ValueModel,
};
use vstd::prelude::*;

verus! {

/// A tree of structured text: a value whose tables are plain lists of
/// members, as a parser hands them over and a printer takes them.
#[derive(Debug, PartialEq)]
pub enum TextValue {
    String(String),
    Integer(i64),
    Float(u64),
    Boolean(bool),
    Datetime(String),
    Array(Vec<TextValue>),
    Table(Vec<(String, TextValue)>),
}

/// What a `TextValue` denotes.
pub enum TextModel {
    String(Seq<char>),
    Integer(i64),
    Float(u64),
    Boolean(bool),
    Datetime(Seq<char>),
    Array(Seq<TextModel>),
    Table(Seq<(Seq<char>, TextModel)>),
}

impl View for TextValue {
    type V = TextModel;

    open spec fn view(&self) -> TextModel
        decreases self,
    {
        match self {
            TextValue::String(s) => TextModel::String(s@),
            TextValue::Integer(i) => TextModel::Integer(*i),
            TextValue::Float(bits) => TextModel::Float(*bits),
            TextValue::Boolean(b) => TextModel::Boolean(*b),
            TextValue::Datetime(s) => TextModel::Datetime(s@),
            TextValue::Array(a) => TextModel::Array(text_items_model(*a)),
            TextValue::Table(t) => TextModel::Table(text_members_model(*t)),
        }
    }
}

/// What the elements of a text array denote.
pub open spec fn text_items_model(a: Vec<TextValue>) -> Seq<TextModel>
    decreases a,
{
    Seq::new(
        a@.len(),
        |i: int|
            if 0 <= i < a@.len() {
                a@[i]@
            } else {
                TextModel::Boolean(false)
            },
    )
}

/// What the members of a text table denote.
pub open spec fn text_members_model(t: Vec<(String, TextValue)>) -> Seq<(Seq<char>, TextModel)>
    decreases t,
{
    Seq::new(
        t@.len(),
        |i: int|
            if 0 <= i < t@.len() {
                (t@[i].0@, t@[i].1@)
            } else {
                (Seq::empty(), TextModel::Boolean(false))
            },
    )
}

/// The text tree of a value: the same tree, each table as the list of its
/// entries in iteration order.
pub open spec fn to_text(v: ValueModel) -> TextModel
    decreases v,
{
    match v {
        ValueModel::String(s) => TextModel::String(s),
        ValueModel::Integer(i) => TextModel::Integer(i),
        ValueModel::Float(bits) => TextModel::Float(bits),
        ValueModel::Boolean(b) => TextModel::Boolean(b),
        ValueModel::Datetime(d) => TextModel::Datetime(d),
        ValueModel::Array(a) => TextModel::Array(to_text_items(a)),
        ValueModel::Table(t) => TextModel::Table(to_text_members(t)),
    }
}

/// The text trees of the elements of an array, in order.
pub open spec fn to_text_items(a: Seq<ValueModel>) -> Seq<TextModel>
    decreases a,
{
    Seq::new(
        a.len(),
        |i: int|
            if 0 <= i < a.len() {
                to_text(a[i])
            } else {
                TextModel::Boolean(false)
            },
    )
}

/// The members of the text table of a table.
pub open spec fn to_text_members(t: TableModel) -> Seq<(Seq<char>, TextModel)>
    decreases t,
{
    Seq::new(
        t.len(),
        |i: int|
            if 0 <= i < t.len() {
                (t[i].0, to_text(t[i].1))
            } else {
                (Seq::empty(), TextModel::Boolean(false))
            },
    )
}

/// The value of a text tree: the same tree, each list of members as the
/// table that setting them in order gives.
pub open spec fn from_text(x: TextModel) -> ValueModel
    decreases x, 0nat,
{
    match x {
        TextModel::String(s) => ValueModel::String(s),
        TextModel::Integer(i) => ValueModel::Integer(i),
        TextModel::Float(bits) => ValueModel::Float(bits),
        TextModel::Boolean(b) => ValueModel::Boolean(b),
        TextModel::Datetime(d) => ValueModel::Datetime(d),
        TextModel::Array(a) => ValueModel::Array(from_text_items(a)),
        TextModel::Table(t) => ValueModel::Table(from_text_members(t, t.len())),
    }
}

/// The values of the elements of a text array, in order.
pub open spec fn from_text_items(a: Seq<TextModel>) -> Seq<ValueModel>
    decreases a, 1nat,
{
    Seq::new(
        a.len(),
        |i: int|
            if 0 <= i < a.len() {
                from_text(a[i])
            } else {
                ValueModel::Boolean(false)
            },
    )
}

/// The table of the first `n` members of a text table, each set under its
/// key, in order.
pub open spec fn from_text_members(t: Seq<(Seq<char>, TextModel)>, n: nat) -> TableModel
    decreases t, n,
{
    if n == 0 || n > t.len() {
        Seq::empty()
    } else {
        table_set(from_text_members(t, (n - 1) as nat), t[n - 1].0, from_text(t[n - 1].1))
    }
}

/// The members of the text table of a table.
pub fn table_to_text(table: &Table) -> (members: Vec<(String, TextValue)>)
    ensures
        text_members_model(members) == to_text_members(table@),
    decreases table@,
{
    let mut members: Vec<(String, TextValue)> = Vec::new();
    let n = TableKeyCount(table);
    let mut i: usize = 0;
    while i < n
        invariant
            n == table@.len(),
            i <= n,
            members@.len() == i,
            forall|j: int|
                0 <= j < i ==> (#[trigger] members@[j]).0@ == table@[j].0 && members@[j].1@
                    == to_text(table@[j].1),
        decreases n - i,
    {
        let (key, value) = table.entry(i);
        let item = value_to_text(value);
        members.push((key.to_owned(), item));
        i += 1;
    }
    assert(text_members_model(members) =~= to_text_members(table@));
    members
}

/// The elements of the text array of an array.
pub fn array_to_text(array: &Array) -> (items: Vec<TextValue>)
    ensures
        text_items_model(items) == to_text_items(array_model(*array)),
    decreases array_model(*array),
{
    let mut items: Vec<TextValue> = Vec::new();
    let n = array.len();
    let mut i: usize = 0;
    while i < n
        invariant
            n == array@.len(),
            i <= n,
            items@.len() == i,
            forall|j: int| 0 <= j < i ==> (#[trigger] items@[j])@ == to_text(array@[j]@),
        decreases n - i,
    {
        assert(array_model(*array)[i as int] == array@[i as int]@);
        let item = value_to_text(&array[i]);
        items.push(item);
        i += 1;
    }
    assert(text_items_model(items) =~= to_text_items(array_model(*array)));
    items
}

/// The text tree of a value.
pub fn value_to_text(value: &TomlValue) -> (r: TextValue)
    ensures
        r@ == to_text(value@),
    decreases value@,
{
    match value {
        TomlValue::String(s) => TextValue::String(s.clone()),
        TomlValue::Integer(i) => TextValue::Integer(*i),
        TomlValue::Float(bits) => TextValue::Float(*bits),
        TomlValue::Boolean(b) => TextValue::Boolean(*b),
        TomlValue::Datetime(d) => TextValue::Datetime(d.clone()),
        TomlValue::Array(a) => TextValue::Array(array_to_text(a)),
        TomlValue::Table(t) => TextValue::Table(table_to_text(t)),
    }
}

/// The table of a list of members: each set under its key, in order.
pub fn text_to_table(members: &Vec<(String, TextValue)>) -> (table: Table)
    ensures
        table@ == from_text_members(text_members_model(*members), members@.len()),
        table.wf(),
    decreases members,
{
    let mut table = Table::new();
    let n = members.len();
    let mut i: usize = 0;
    while i < n
        invariant
            n == members@.len(),
            i <= n,
            table@ == from_text_members(text_members_model(*members), i as nat),
            table.wf(),
        decreases n - i,
    {
        let value = text_to_value(&members[i].1);
        TableSet(&mut table, members[i].0.as_str(), Box::new(value));
        i += 1;
    }
    table
}

/// The array of a list of elements.
pub fn text_to_array(items: &Vec<TextValue>) -> (ary: Array)
    ensures
        array_model(ary) == from_text_items(text_items_model(*items)),
        array_wf(array_model(ary)),
    decreases items,
{
    let mut ary: Array = Vec::new();
    let n = items.len();
    let mut i: usize = 0;
    while i < n
        invariant
            n == items@.len(),
            i <= n,
            ary@.len() == i,
            forall|j: int|
                0 <= j < i ==> (#[trigger] ary@[j])@ == from_text(items@[j]@) && value_wf(
                    ary@[j]@,
                ),
        decreases n - i,
    {
        let value = text_to_value(&items[i]);
        ary.push(value);
        i += 1;
    }
    assert(array_model(ary) =~= from_text_items(text_items_model(*items)));
    assert forall|k: int| 0 <= k < array_model(ary).len() implies value_wf(
        #[trigger] array_model(ary)[k],
    ) by {
        assert(array_model(ary)[k] == ary@[k]@);
    }
    ary
}

/// The value of a text tree.
pub fn text_to_value(x: &TextValue) -> (r: TomlValue)
    ensures
        r@ == from_text(x@),
        value_wf(r@),
    decreases x,
{
    match x {
        TextValue::String(s) => TomlValue::String(s.clone()),
        TextValue::Integer(i) => TomlValue::Integer(*i),
        TextValue::Float(bits) => TomlValue::Float(*bits),
        TextValue::Boolean(b) => TomlValue::Boolean(*b),
        TextValue::Datetime(d) => TomlValue::Datetime(d.clone()),
        TextValue::Array(a) => TomlValue::Array(text_to_array(a)),
        TextValue::Table(t) => TomlValue::Table(text_to_table(t)),
    }
}

/// A value whose tables have unique keys comes back from its text tree
/// exactly as it was.
pub proof fn law_text_tree_round_trip(v: ValueModel)
    requires
        value_wf(v),
    ensures
        from_text(to_text(v)) == v,
    decreases v, 0nat,
{
    match v {
        ValueModel::Array(a) => {
            assert forall|i: int| 0 <= i < a.len() implies from_text_items(to_text_items(a))[i]
                == a[i] by {
                law_text_tree_round_trip(a[i]);
            }
            assert(from_text_items(to_text_items(a)) =~= a);
        },
        ValueModel::Table(t) => {
            lemma_text_members_round_trip(t, t.len());
            assert(to_text_members(t).len() == t.len());
            assert(t.subrange(0, t.len() as int) =~= t);
        },
        _ => {},
    }
}

proof fn lemma_text_members_round_trip(t: TableModel, n: nat)
    requires
        table_wf(t),
        n <= t.len(),
    ensures
        from_text_members(to_text_members(t), n) == t.subrange(0, n as int),
    decreases t, n,
{
    let x = to_text_members(t);
    if n == 0 {
        assert(t.subrange(0, 0) =~= Seq::<(Seq<char>, ValueModel)>::empty());
    } else {
        lemma_text_members_round_trip(t, (n - 1) as nat);
        law_text_tree_round_trip(t[n - 1].1);
        assert(x[n - 1] == (t[n - 1].0, to_text(t[n - 1].1)));
        let before = t.subrange(0, n - 1);
        assert(!has_key(before, t[n - 1].0)) by {
            assert forall|i: int| 0 <= i < before.len() implies (#[trigger] before[i]).0 != t[n
                - 1].0 by {
                assert(before[i] == t[i]);
            }
        }
        assert(before.push(t[n - 1]) =~= t.subrange(0, n as int));
    }
}

} // verus!
