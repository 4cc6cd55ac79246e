//! The document tree: values, and tables that keep their entries in
//! insertion order under unique keys.
use crate::strings::str_eq;
use vstd::prelude::*;

verus! {

/// A document value: one of seven variants. A float is held by its
/// IEEE-754 binary64 bit pattern, a datetime as the text it was given.
#[derive(Debug, PartialEq)]
pub enum TomlValue {
    String(String),
    Integer(i64),
    Float(u64),
    Boolean(bool),
    Datetime(String),
    Array(Array),
    Table(Table),
}

/// An ordered sequence of values; duplicates and mixed variants are allowed.
pub type Array = Vec<TomlValue>;

/// A key/value mapping that iterates in insertion order.
#[derive(Debug, PartialEq)]
pub struct Table {
    entries: Vec<(String, TomlValue)>,
}

/// What a `TomlValue` denotes.
pub enum ValueModel {
    String(Seq<char>),
    Integer(i64),
    Float(u64),
    Boolean(bool),
    Datetime(Seq<char>),
    Array(Seq<ValueModel>),
    Table(TableModel),
}

/// What a `Table` denotes: its entries, first inserted first.
pub type TableModel = Seq<(Seq<char>, ValueModel)>;

/// Some entry of `m` has the key `key`.
pub open spec fn has_key(m: TableModel, key: Seq<char>) -> bool {
    exists|i: int| 0 <= i < m.len() && (#[trigger] m[i]).0 == key
}

/// `i` is the position of the first entry of `m` whose key is `key`.
pub open spec fn is_first_index(m: TableModel, key: Seq<char>, i: int) -> bool {
    &&& 0 <= i < m.len()
    &&& m[i].0 == key
    &&& forall|j: int| 0 <= j < i ==> (#[trigger] m[j]).0 != key
}

/// The position of the first entry of `m` whose key is `key`.
pub open spec fn first_index(m: TableModel, key: Seq<char>) -> int {
    choose|i: int| is_first_index(m, key, i)
}

/// The value stored under `key`, if any.
pub open spec fn table_get(m: TableModel, key: Seq<char>) -> Option<ValueModel> {
    if has_key(m, key) {
        Some(m[first_index(m, key)].1)
    } else {
        None
    }
}

/// Insert-or-overwrite: an existing entry keeps its place and takes the new
/// value, a new key goes to the end.
pub open spec fn table_set(m: TableModel, key: Seq<char>, value: ValueModel) -> TableModel {
    if has_key(m, key) {
        m.update(first_index(m, key), (key, value))
    } else {
        m.push((key, value))
    }
}

/// The table without its entry for `key`; unchanged if there is none.
pub open spec fn table_remove(m: TableModel, key: Seq<char>) -> TableModel {
    if has_key(m, key) {
        m.remove(first_index(m, key))
    } else {
        m
    }
}

/// No key occurs twice.
pub open spec fn keys_unique(m: TableModel) -> bool {
    forall|i: int, j: int| 0 <= i < j < m.len() ==> (#[trigger] m[i]).0 != (#[trigger] m[j]).0
}

/// Every table inside `v`, at any depth, has unique keys.
pub open spec fn value_wf(v: ValueModel) -> bool
    decreases v,
{
    match v {
        ValueModel::Array(a) => array_wf(a),
        ValueModel::Table(t) => table_wf(t),
        _ => true,
    }
}

/// Every table inside the elements of `a` has unique keys.
pub open spec fn array_wf(a: Seq<ValueModel>) -> bool
    decreases a,
{
    forall|i: int| 0 <= i < a.len() ==> value_wf(#[trigger] a[i])
}

/// `m` has unique keys, and so has every table inside its values.
pub open spec fn table_wf(m: TableModel) -> bool
    decreases m,
{
    &&& keys_unique(m)
    &&& forall|i: int| 0 <= i < m.len() ==> value_wf((#[trigger] m[i]).1)
}

/// No datetime occurs in `v`, at any depth.
pub open spec fn datetime_free(v: ValueModel) -> bool
    decreases v,
{
    match v {
        ValueModel::Datetime(_) => false,
        ValueModel::Array(a) => datetime_free_items(a),
        ValueModel::Table(t) => datetime_free_entries(t),
        _ => true,
    }
}

/// No datetime occurs in the elements of `a`.
pub open spec fn datetime_free_items(a: Seq<ValueModel>) -> bool
    decreases a,
{
    forall|i: int| 0 <= i < a.len() ==> datetime_free(#[trigger] a[i])
}

/// No datetime occurs in the values of `t`.
pub open spec fn datetime_free_entries(t: TableModel) -> bool
    decreases t,
{
    forall|i: int| 0 <= i < t.len() ==> datetime_free((#[trigger] t[i]).1)
}

impl View for TomlValue {
    type V = ValueModel;

    open spec fn view(&self) -> ValueModel
        decreases self,
    {
        match self {
            TomlValue::String(s) => ValueModel::String(s@),
            TomlValue::Integer(i) => ValueModel::Integer(*i),
            TomlValue::Float(bits) => ValueModel::Float(*bits),
            TomlValue::Boolean(b) => ValueModel::Boolean(*b),
            TomlValue::Datetime(s) => ValueModel::Datetime(s@),
            TomlValue::Array(a) => ValueModel::Array(array_model(*a)),
            TomlValue::Table(t) => ValueModel::Table(t@),
        }
    }
}

/// What an array of values denotes, element by element.
pub open spec fn array_model(a: Array) -> Seq<ValueModel>
    decreases a,
{
    Seq::new(
        a@.len(),
        |i: int|
            if 0 <= i < a@.len() {
                a@[i]@
            } else {
                ValueModel::Boolean(false)
            },
    )
}

impl View for Table {
    type V = TableModel;

    closed spec fn view(&self) -> TableModel
        decreases self,
    {
        Seq::new(
            self.entries@.len(),
            |i: int|
                if 0 <= i < self.entries@.len() {
                    (self.entries@[i].0@, self.entries@[i].1@)
                } else {
                    (Seq::empty(), ValueModel::Boolean(false))
                },
        )
    }
}

/// The first index is the only index that `is_first_index` accepts.
pub proof fn lemma_first_index_unique(m: TableModel, key: Seq<char>, i: int)
    requires
        is_first_index(m, key, i),
    ensures
        has_key(m, key),
        first_index(m, key) == i,
{
    let c = first_index(m, key);
    assert(is_first_index(m, key, c));
    if c < i {
        assert(m[c].0 != key);
    } else if i < c {
        assert(m[i].0 != key);
    }
}

/// A key that occurs has a first occurrence.
pub proof fn lemma_has_key_first(m: TableModel, key: Seq<char>)
    requires
        has_key(m, key),
    ensures
        is_first_index(m, key, first_index(m, key)),
{
    let w = choose|i: int| 0 <= i < m.len() && (#[trigger] m[i]).0 == key;
    lemma_first_below(m, key, w);
}

proof fn lemma_first_below(m: TableModel, key: Seq<char>, w: int)
    requires
        0 <= w < m.len(),
        m[w].0 == key,
    ensures
        exists|i: int| is_first_index(m, key, i),
    decreases w,
{
    if forall|j: int| 0 <= j < w ==> (#[trigger] m[j]).0 != key {
        assert(is_first_index(m, key, w));
    } else {
        let j = choose|j: int| 0 <= j < w && (#[trigger] m[j]).0 == key;
        lemma_first_below(m, key, j);
    }
}

impl Table {
    /// A table has unique keys at every depth.
    pub open spec fn wf(&self) -> bool {
        table_wf(self@)
    }

    /// The empty table.
    pub fn new() -> (t: Table)
        ensures
            t@ == Seq::<(Seq<char>, ValueModel)>::empty(),
            t.wf(),
    {
        let t = Table { entries: Vec::new() };
        assert(t@ =~= Seq::<(Seq<char>, ValueModel)>::empty());
        t
    }

    fn find(&self, key: &str) -> (r: Option<usize>)
        ensures
            match r {
                Some(i) => is_first_index(self@, key@, i as int) && i < self.entries@.len(),
                None => !has_key(self@, key@),
            },
    {
        let n = self.entries.len();
        let mut i: usize = 0;
        while i < n
            invariant
                n == self.entries@.len(),
                i <= n,
                forall|j: int| 0 <= j < i ==> (#[trigger] self@[j]).0 != key@,
            decreases n - i,
        {
            if str_eq(self.entries[i].0.as_str(), key) {
                return Some(i);
            }
            i += 1;
        }
        None
    }
}

/// The number of entries.
pub fn TableKeyCount(table: &Table) -> (n: usize)
    ensures
        n == table@.len(),
{
    table.entries.len()
}

/// The value stored under `key`, or `None` where the table has no such key.
pub fn TableGet<'a, 'b>(table: &'a Table, key: &'b str) -> (r: Option<&'a TomlValue>)
    ensures
        match r {
            Some(v) => table_get(table@, key@) == Some(v@),
            None => table_get(table@, key@).is_none(),
        },
{
    match table.find(key) {
        Some(i) => {
            proof {
                lemma_first_index_unique(table@, key@, i as int);
            }
            Some(&table.entries[i].1)
        },
        None => None,
    }
}

/// The value stored under `key`, for changing in place. The table keeps its
/// keys and its other values; the entry's value is whatever the caller
/// leaves behind the reference.
pub fn TableGetMut<'a, 'b>(table: &'a mut Table, key: &'b str) -> (r: Option<&'a mut TomlValue>)
    ensures
        match r {
            Some(v) => {
                &&& has_key(old(table)@, key@)
                &&& table_get(old(table)@, key@) == Some(v@)
                &&& final(table)@ == table_set(old(table)@, key@, final(v)@)
            },
            None => !has_key(old(table)@, key@) && final(table)@ == old(table)@,
        },
{
    match table.find(key) {
        Some(i) => {
            proof {
                lemma_first_index_unique(table@, key@, i as int);
            }
            Some(&mut table.entries[i].1)
        },
        None => None,
    }
}

/// Stores `value` under `key`: an existing entry keeps its place and takes
/// the new value, a new key is appended.
pub fn TableSet(table: &mut Table, key: &str, value: Box<TomlValue>)
    ensures
        final(table)@ == table_set(old(table)@, key@, (*value)@),
        old(table).wf() && value_wf((*value)@) ==> final(table).wf(),
{
    let ghost before = table@;
    match table.find(key) {
        Some(i) => {
            proof {
                lemma_first_index_unique(table@, key@, i as int);
            }
            table.entries.set(i, (key.to_owned(), *value));
            assert(table@ =~= before.update(i as int, (key@, (*value)@)));
        },
        None => {
            table.entries.push((key.to_owned(), *value));
            assert(table@ =~= before.push((key@, (*value)@)));
        },
    }
    proof {
        if table_wf(before) && value_wf((*value)@) {
            lemma_set_keeps_wf(before, key@, (*value)@);
        }
    }
}

/// Removes the entry for `key`; a table without that key is left as it is.
pub fn TableRemove(table: &mut Table, key: &str)
    ensures
        final(table)@ == table_remove(old(table)@, key@),
        old(table).wf() ==> final(table).wf(),
{
    let ghost before = table@;
    match table.find(key) {
        Some(i) => {
            proof {
                lemma_first_index_unique(table@, key@, i as int);
            }
            table.entries.remove(i);
            assert(table@ =~= before.remove(i as int));
        },
        None => {},
    }
    proof {
        if table_wf(before) {
            lemma_remove_keeps_wf(before, key@);
        }
    }
}

/// Insert-or-overwrite keeps keys unique at every depth.
pub proof fn lemma_set_keeps_wf(m: TableModel, key: Seq<char>, value: ValueModel)
    requires
        table_wf(m),
        value_wf(value),
    ensures
        table_wf(table_set(m, key, value)),
{
    let r = table_set(m, key, value);
    if has_key(m, key) {
        lemma_has_key_first(m, key);
        let k = first_index(m, key);
        assert forall|i: int| 0 <= i < r.len() implies value_wf((#[trigger] r[i]).1) by {
            if i != k {
                assert(r[i] == m[i]);
            }
        }
        assert forall|i: int, j: int| 0 <= i < j < r.len() implies (#[trigger] r[i]).0 != (
        #[trigger] r[j]).0 by {
            assert(r[i].0 == m[i].0);
            assert(r[j].0 == m[j].0);
        }
    } else {
        assert forall|i: int| 0 <= i < r.len() implies value_wf((#[trigger] r[i]).1) by {
            if i < m.len() {
                assert(r[i] == m[i]);
            }
        }
        assert forall|i: int, j: int| 0 <= i < j < r.len() implies (#[trigger] r[i]).0 != (
        #[trigger] r[j]).0 by {
            assert(r[i] == m[i]);
            if j < m.len() {
                assert(r[j] == m[j]);
            }
        }
    }
}

/// Removing an entry keeps keys unique at every depth.
pub proof fn lemma_remove_keeps_wf(m: TableModel, key: Seq<char>)
    requires
        table_wf(m),
    ensures
        table_wf(table_remove(m, key)),
{
    let r = table_remove(m, key);
    if has_key(m, key) {
        lemma_has_key_first(m, key);
        let k = first_index(m, key);
        assert forall|i: int| 0 <= i < r.len() implies value_wf((#[trigger] r[i]).1) by {
            if i < k {
                assert(r[i] == m[i]);
            } else {
                assert(r[i] == m[i + 1]);
            }
        }
        assert forall|i: int, j: int| 0 <= i < j < r.len() implies (#[trigger] r[i]).0 != (
        #[trigger] r[j]).0 by {
            let a = if i < k { i } else { i + 1 };
            let b = if j < k { j } else { j + 1 };
            assert(r[i] == m[a]);
            assert(r[j] == m[b]);
        }
    }
}

/// Writes the keys, in iteration order, into the front of `keys`: as many
/// as both the table and the slice have room for. The rest of the slice is
/// left as it was.
pub fn TableKeys<'a>(table: &'a Table, keys: &mut [&'a str])
    ensures
        final(keys)@.len() == old(keys)@.len(),
        forall|i: int|
            0 <= i < old(keys)@.len() ==> (#[trigger] final(keys)@[i])@ == (if i < table@.len() {
                table@[i].0
            } else {
                old(keys)@[i]@
            }),
{
    let n = table.entries.len();
    let m = keys.len();
    let mut i: usize = 0;
    while i < n && i < m
        invariant
            n == table.entries@.len(),
            m == keys@.len(),
            m == old(keys)@.len(),
            i <= n,
            i <= m,
            forall|j: int| 0 <= j < i ==> (#[trigger] keys@[j])@ == table@[j].0,
            forall|j: int| i <= j < m ==> (#[trigger] keys@[j])@ == old(keys)@[j]@,
        decreases n - i,
    {
        keys[i] = table.entries[i].0.as_str();
        i += 1;
    }
}

impl Table {
    /// The key and the value at position `index` of the iteration order.
    pub fn entry(&self, index: usize) -> (r: (&str, &TomlValue))
        requires
            index < self@.len(),
        ensures
            r.0@ == self@[index as int].0,
            r.1@ == self@[index as int].1,
    {
        (self.entries[index].0.as_str(), &self.entries[index].1)
    }
}

/// Gives up a table that may be absent; the table and all it holds end here.
pub fn FreeTable(table: Option<Box<Table>>) {
    let _ = table;
}

/// Setting a key twice leaves one entry for it, which holds the second
/// value: the table is what a single `set` of the second value gives, the
/// key occurs in it, and no key occurs twice.
pub proof fn law_set_overwrites(m: TableModel, key: Seq<char>, v1: ValueModel, v2: ValueModel)
    requires
        keys_unique(m),
    ensures
        table_set(table_set(m, key, v1), key, v2) == table_set(m, key, v2),
        table_set(table_set(m, key, v1), key, v2).len() == table_set(m, key, v1).len(),
        table_get(table_set(table_set(m, key, v1), key, v2), key) == Some(v2),
        has_key(table_set(table_set(m, key, v1), key, v2), key),
        keys_unique(table_set(table_set(m, key, v1), key, v2)),
{
    let once = table_set(m, key, v1);
    lemma_set_first_index(m, key, v1);
    let k = first_index(once, key);
    let twice = table_set(once, key, v2);
    assert(twice == once.update(k, (key, v2)));
    if has_key(m, key) {
        lemma_has_key_first(m, key);
        assert(twice =~= m.update(first_index(m, key), (key, v2)));
    } else {
        assert(twice =~= m.push((key, v2)));
    }
    assert(twice == table_set(m, key, v2));
    lemma_set_first_index(once, key, v2);
    lemma_set_keeps_keys_unique(m, key, v2);
}

/// After a `set`, the key is present, and its first position is where the
/// key first stood before, or the new last position.
pub proof fn lemma_set_first_index(m: TableModel, key: Seq<char>, value: ValueModel)
    ensures
        has_key(table_set(m, key, value), key),
        is_first_index(table_set(m, key, value), key, first_index(table_set(m, key, value), key)),
        first_index(table_set(m, key, value), key) == (if has_key(m, key) {
            first_index(m, key)
        } else {
            m.len() as int
        }),
        table_get(table_set(m, key, value), key) == Some(value),
{
    let r = table_set(m, key, value);
    if has_key(m, key) {
        lemma_has_key_first(m, key);
        let k = first_index(m, key);
        assert(r[k].0 == key);
        assert forall|j: int| 0 <= j < k implies (#[trigger] r[j]).0 != key by {
            assert(r[j] == m[j]);
        }
        assert(is_first_index(r, key, k));
        lemma_first_index_unique(r, key, k);
    } else {
        let k = m.len() as int;
        assert(r[k].0 == key);
        assert forall|j: int| 0 <= j < k implies (#[trigger] r[j]).0 != key by {
            assert(r[j] == m[j]);
        }
        assert(is_first_index(r, key, k));
        lemma_first_index_unique(r, key, k);
    }
}

/// Insert-or-overwrite never makes a key occur twice.
pub proof fn lemma_set_keeps_keys_unique(m: TableModel, key: Seq<char>, value: ValueModel)
    requires
        keys_unique(m),
    ensures
        keys_unique(table_set(m, key, value)),
{
    let r = table_set(m, key, value);
    if has_key(m, key) {
        lemma_has_key_first(m, key);
        assert forall|i: int, j: int| 0 <= i < j < r.len() implies (#[trigger] r[i]).0 != (
        #[trigger] r[j]).0 by {
            assert(r[i].0 == m[i].0);
            assert(r[j].0 == m[j].0);
        }
    } else {
        assert forall|i: int, j: int| 0 <= i < j < r.len() implies (#[trigger] r[i]).0 != (
        #[trigger] r[j]).0 by {
            assert(r[i] == m[i]);
            if j < m.len() {
                assert(r[j] == m[j]);
            }
        }
    }
}

/// Removing a key that the table does not hold changes nothing, the number
/// of entries included.
pub proof fn law_remove_missing(m: TableModel, key: Seq<char>)
    requires
        !has_key(m, key),
    ensures
        table_remove(m, key) == m,
        table_remove(m, key).len() == m.len(),
{
}

/// After a removal the key is gone, where keys were unique.
pub proof fn law_remove_then_absent(m: TableModel, key: Seq<char>)
    requires
        keys_unique(m),
    ensures
        !has_key(table_remove(m, key), key),
        table_get(table_remove(m, key), key).is_none(),
        has_key(m, key) ==> table_remove(m, key).len() == m.len() - 1,
{
    let r = table_remove(m, key);
    if has_key(m, key) {
        lemma_has_key_first(m, key);
        let k = first_index(m, key);
        assert forall|i: int| 0 <= i < r.len() implies (#[trigger] r[i]).0 != key by {
            if i < k {
                assert(r[i] == m[i]);
            } else {
                assert(r[i] == m[i + 1]);
                assert(m[k].0 != m[i + 1].0);
            }
        }
    }
}

} // verus!
