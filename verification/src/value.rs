//! Values: construction, inspection, and lookup by dotted path.
use crate::strings::string_push;
use crate::table::{array_model, table_get, value_wf, Array, Table, TableGet, TomlValue, ValueModel};
use vstd::prelude::*;

verus! {

/// The tag of a value's variant.
#[derive(Clone, Copy, Debug, PartialEq, Eq, Structural)]
pub enum TomlType {
    String,
    Integer,
    Float,
    Boolean,
    Datetime,
    Array,
    Table,
}

/// The tag that belongs to each variant.
pub open spec fn type_of(v: ValueModel) -> TomlType {
    match v {
        ValueModel::String(_) => TomlType::String,
        ValueModel::Integer(_) => TomlType::Integer,
        ValueModel::Float(_) => TomlType::Float,
        ValueModel::Boolean(_) => TomlType::Boolean,
        ValueModel::Datetime(_) => TomlType::Datetime,
        ValueModel::Array(_) => TomlType::Array,
        ValueModel::Table(_) => TomlType::Table,
    }
}

/// Which variant a value is.
pub fn ValueType(value: &TomlValue) -> (t: TomlType)
    ensures
        t == type_of(value@),
{
    match value {
        TomlValue::String(_) => TomlType::String,
        TomlValue::Integer(_) => TomlType::Integer,
        TomlValue::Float(_) => TomlType::Float,
        TomlValue::Boolean(_) => TomlType::Boolean,
        TomlValue::Datetime(_) => TomlType::Datetime,
        TomlValue::Array(_) => TomlType::Array,
        TomlValue::Table(_) => TomlType::Table,
    }
}

/// Gives up a value that may be absent; the value and all it holds end here.
pub fn FreeValue(value: Option<Box<TomlValue>>) {
    let _ = value;
}

/// A new value that is an empty table.
pub fn CreateTable() -> (r: Box<TomlValue>)
    ensures
        (*r)@ == ValueModel::Table(Seq::empty()),
        value_wf((*r)@),
{
    Box::new(TomlValue::Table(Table::new()))
}

/// The table inside a value, or `None` for any other variant.
pub fn ValueTable(value: &TomlValue) -> (r: Option<&Table>)
    ensures
        match r {
            Some(t) => value@ == ValueModel::Table(t@),
            None => !(value@ is Table),
        },
{
    match value {
        TomlValue::Table(tbl) => Some(tbl),
        _ => None,
    }
}

/// The table inside a value, for changing in place; `None`, and nothing
/// changed, for any other variant.
pub fn ValueTableMut(value: &mut TomlValue) -> (r: Option<&mut Table>)
    ensures
        match r {
            Some(t) => old(value)@ == ValueModel::Table(t@) && final(value)@ == ValueModel::Table(
                final(t)@,
            ),
            None => !(old(value)@ is Table) && final(value)@ == old(value)@,
        },
{
    match value {
        TomlValue::Table(tbl) => Some(tbl),
        _ => None,
    }
}

/// A new value that is an empty array.
pub fn CreateArray() -> (r: Box<TomlValue>)
    ensures
        (*r)@ == ValueModel::Array(Seq::empty()),
        value_wf((*r)@),
{
    let a: Array = Vec::new();
    assert(array_model(a) =~= Seq::empty());
    Box::new(TomlValue::Array(a))
}

/// The array inside a value, or `None` for any other variant.
pub fn ValueArray(value: &TomlValue) -> (r: Option<&Array>)
    ensures
        match r {
            Some(a) => value@ == ValueModel::Array(array_model(*a)),
            None => !(value@ is Array),
        },
{
    match value {
        TomlValue::Array(ary) => Some(ary),
        _ => None,
    }
}

/// The array inside a value, for changing in place; `None`, and nothing
/// changed, for any other variant.
pub fn ValueArrayMut(value: &mut TomlValue) -> (r: Option<&mut Array>)
    ensures
        match r {
            Some(a) => old(value)@ == ValueModel::Array(array_model(*a)) && final(value)@
                == ValueModel::Array(array_model(*final(a))),
            None => !(old(value)@ is Array) && final(value)@ == old(value)@,
        },
{
    match value {
        TomlValue::Array(ary) => Some(ary),
        _ => None,
    }
}

/// A new string value holding a copy of `input`.
pub fn CreateString(input: &str) -> (r: Box<TomlValue>)
    ensures
        (*r)@ == ValueModel::String(input@),
{
    Box::new(TomlValue::String(input.to_owned()))
}

/// The text of a string value; the empty text for any other variant.
pub fn ValueString(value: &TomlValue) -> (r: &str)
    ensures
        r@ == (match value@ {
            ValueModel::String(s) => s,
            _ => Seq::empty(),
        }),
{
    match value {
        TomlValue::String(string) => string.as_str(),
        _ => {
            proof {
                reveal_strlit("");
            }
            assert(""@ =~= Seq::<char>::empty());
            ""
        },
    }
}

/// A new integer value.
pub fn CreateInteger(i: i64) -> (r: Box<TomlValue>)
    ensures
        (*r)@ == ValueModel::Integer(i),
{
    Box::new(TomlValue::Integer(i))
}

/// The number of an integer value; 0 for any other variant.
pub fn ValueInteger(value: &TomlValue) -> (r: i64)
    ensures
        r == (match value@ {
            ValueModel::Integer(i) => i,
            _ => 0,
        }),
{
    match value {
        TomlValue::Integer(i) => *i,
        _ => 0,
    }
}

/// A new float value from the bit pattern of a binary64 number.
pub fn CreateFloat(bits: u64) -> (r: Box<TomlValue>)
    ensures
        (*r)@ == ValueModel::Float(bits),
{
    Box::new(TomlValue::Float(bits))
}

/// The bit pattern of a float value; the pattern of positive zero, which
/// is 0, for any other variant.
pub fn ValueFloat(value: &TomlValue) -> (r: u64)
    ensures
        r == (match value@ {
            ValueModel::Float(bits) => bits,
            _ => 0,
        }),
{
    match value {
        TomlValue::Float(bits) => *bits,
        _ => 0,
    }
}

/// A new boolean value.
pub fn CreateBoolean(b: bool) -> (r: Box<TomlValue>)
    ensures
        (*r)@ == ValueModel::Boolean(b),
{
    Box::new(TomlValue::Boolean(b))
}

/// The truth value of a boolean value; `false` for any other variant.
pub fn ValueBoolean(value: &TomlValue) -> (r: bool)
    ensures
        r == (match value@ {
            ValueModel::Boolean(b) => b,
            _ => false,
        }),
{
    match value {
        TomlValue::Boolean(b) => *b,
        _ => false,
    }
}

/// A new datetime value holding a copy of `input`, which is not examined.
pub fn CreateDatetime(input: &str) -> (r: Box<TomlValue>)
    ensures
        (*r)@ == ValueModel::Datetime(input@),
{
    Box::new(TomlValue::Datetime(input.to_owned()))
}

/// The text of a datetime value; the empty text for any other variant.
pub fn ValueDatetime(value: &TomlValue) -> (r: &str)
    ensures
        r@ == (match value@ {
            ValueModel::Datetime(s) => s,
            _ => Seq::empty(),
        }),
{
    match value {
        TomlValue::Datetime(dt) => dt.as_str(),
        _ => {
            proof {
                reveal_strlit("");
            }
            assert(""@ =~= Seq::<char>::empty());
            ""
        },
    }
}

/// Turns a table into the value that holds it.
pub fn WrapTable(table: Box<Table>) -> (r: Box<TomlValue>)
    ensures
        (*r)@ == ValueModel::Table((*table)@),
{
    Box::new(TomlValue::Table(*table))
}

/// Stores an error message, as a string value, where the caller asked for
/// it; without a slot the message is dropped.
pub fn report_error(errors: Option<&mut Option<Box<TomlValue>>>, message: String)
    ensures
        match errors {
            Some(slot) => match *final(slot) {
                Some(value) => (*value)@ == ValueModel::String(message@),
                None => false,
            },
            None => true,
        },
{
    match errors {
        Some(slot) => {
            *slot = Some(Box::new(TomlValue::String(message)));
        },
        None => {},
    }
}

/// `s` holds a dot.
pub open spec fn has_dot(s: Seq<char>) -> bool {
    exists|i: int| 0 <= i < s.len() && s[i] == '.'
}

/// `i` is the position of the first dot of `s`.
pub open spec fn is_first_dot(s: Seq<char>, i: int) -> bool {
    &&& 0 <= i < s.len()
    &&& s[i] == '.'
    &&& forall|j: int| 0 <= j < i ==> s[j] != '.'
}

/// The position of the first dot of `s`.
pub open spec fn first_dot(s: Seq<char>) -> int {
    choose|i: int| is_first_dot(s, i)
}

/// The pieces of `s` between its dots; a text without a dot is one piece.
pub open spec fn split_path(s: Seq<char>) -> Seq<Seq<char>>
    decreases s.len(),
{
    if has_dot(s) && 0 <= first_dot(s) < s.len() {
        seq![s.subrange(0, first_dot(s))] + split_path(
            s.subrange(first_dot(s) + 1, s.len() as int),
        )
    } else {
        seq![s]
    }
}

/// The segments of a lookup path: none for the empty path, else the pieces
/// between its dots.
pub open spec fn path_segments(path: Seq<char>) -> Seq<Seq<char>> {
    if path.len() == 0 {
        Seq::empty()
    } else {
        split_path(path)
    }
}

/// One step down: the child under `segment` where `v` is a table that has
/// that key.
pub open spec fn child(v: ValueModel, segment: Seq<char>) -> Option<ValueModel> {
    match v {
        ValueModel::Table(t) => table_get(t, segment),
        _ => None,
    }
}

/// Follows the segments down from `v`; absent as soon as a step fails.
pub open spec fn walk(v: ValueModel, segments: Seq<Seq<char>>) -> Option<ValueModel>
    decreases segments.len(),
{
    if segments.len() == 0 {
        Some(v)
    } else {
        match child(v, segments[0]) {
            Some(c) => walk(c, segments.drop_first()),
            None => None,
        }
    }
}

/// What a dotted path finds in `v`.
pub open spec fn lookup(v: ValueModel, path: Seq<char>) -> Option<ValueModel> {
    walk(v, path_segments(path))
}

/// A text without a dot is its own single piece.
pub proof fn lemma_split_no_dot(s: Seq<char>)
    requires
        !has_dot(s),
    ensures
        split_path(s) == seq![s],
{
}

/// A piece without a dot, a dot, and a rest split into that piece and the
/// pieces of the rest.
pub proof fn lemma_split_at_dot(piece: Seq<char>, rest: Seq<char>)
    requires
        !has_dot(piece),
    ensures
        split_path(piece + seq!['.'] + rest) == seq![piece] + split_path(rest),
{
    let s = piece + seq!['.'] + rest;
    let k = piece.len() as int;
    assert(s[k] == '.');
    assert forall|j: int| 0 <= j < k implies s[j] != '.' by {
        assert(s[j] == piece[j]);
    }
    assert(is_first_dot(s, k));
    let c = first_dot(s);
    assert(is_first_dot(s, c));
    if c < k {
        assert(s[c] != '.');
    } else if k < c {
        assert(s[k] != '.');
    }
    assert(s.subrange(0, k) =~= piece);
    assert(s.subrange(k + 1, s.len() as int) =~= rest);
}

fn step<'a, 'b>(cur: &'a TomlValue, segment: &'b str) -> (r: Option<&'a TomlValue>)
    ensures
        match r {
            Some(v) => child(cur@, segment@) == Some(v@),
            None => child(cur@, segment@).is_none(),
        },
{
    match cur {
        TomlValue::Table(t) => TableGet(t, segment),
        _ => None,
    }
}

/// Looks up a dotted path such as `a.b.c`: each segment must name a key of
/// the table reached so far. The empty path finds the value itself. A
/// missing key, or a segment met at anything but a table, finds nothing.
pub fn ValueLookup<'a>(value: &'a TomlValue, key: &'a str) -> (r: Option<&'a TomlValue>)
    ensures
        match r {
            Some(v) => lookup(value@, key@) == Some(v@),
            None => lookup(value@, key@).is_none(),
        },
{
    let n = key.unicode_len();
    if n == 0 {
        return Some(value);
    }
    let mut cur: &'a TomlValue = value;
    let mut segment = String::new();
    let mut i: usize = 0;
    assert(segment@ + key@.subrange(0, n as int) =~= key@);
    while i < n
        invariant
            n == key@.len(),
            0 < n,
            i <= n,
            !has_dot(segment@),
            lookup(value@, key@) == walk(
                cur@,
                split_path(segment@ + key@.subrange(i as int, n as int)),
            ),
        decreases n - i,
    {
        let c = key.get_char(i);
        let ghost before = segment@;
        let ghost rest = key@.subrange(i as int + 1, n as int);
        assert(key@.subrange(i as int, n as int) =~= seq![c] + rest);
        if c == '.' {
            proof {
                lemma_split_at_dot(before, rest);
                assert(before + key@.subrange(i as int, n as int) =~= before + seq!['.'] + rest);
                let pieces = seq![before] + split_path(rest);
                assert(pieces[0] == before);
                assert(pieces.drop_first() =~= split_path(rest));
            }
            match step(cur, segment.as_str()) {
                Some(next) => {
                    cur = next;
                },
                None => {
                    return None;
                },
            }
            segment = String::new();
            assert(segment@ + rest =~= rest);
        } else {
            string_push(&mut segment, c);
            assert(segment@ + rest =~= before + key@.subrange(i as int, n as int));
            assert forall|j: int| 0 <= j < segment@.len() implies segment@[j] != '.' by {
                if j < before.len() {
                    assert(before[j] != '.');
                }
            }
        }
        i += 1;
    }
    let r = step(cur, segment.as_str());
    proof {
        assert(segment@ + key@.subrange(n as int, n as int) =~= segment@);
        lemma_split_no_dot(segment@);
        let pieces = seq![segment@];
        assert(pieces[0] == segment@);
        assert(pieces.drop_first().len() == 0);
        if let Some(v) = r {
            assert(walk(v@, pieces.drop_first()) == Some(v@));
        }
    }
    r
}

} // verus!
