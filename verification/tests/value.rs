use doc_value::{
    ArrayCount, ArrayPush, CreateArray, CreateBoolean, CreateDatetime, CreateFloat, CreateInteger,
    CreateString, CreateTable, FreeValue, Table, TableGet, TableKeyCount, TableSet, TomlType,
    TomlValue, ValueArray, ValueArrayMut, ValueBoolean, ValueDatetime, ValueFloat, ValueInteger,
    ValueLookup, ValueString, ValueTable, ValueTableMut, ValueType, WrapTable,
};

fn nested() -> TomlValue {
    let mut c = Table::new();
    TableSet(&mut c, "c", Box::new(TomlValue::Integer(5)));
    let mut b = Table::new();
    TableSet(&mut b, "b", Box::new(TomlValue::Table(c)));
    let mut a = Table::new();
    TableSet(&mut a, "a", Box::new(TomlValue::Table(b)));
    TableSet(&mut a, "n", Box::new(TomlValue::Integer(1)));
    TableSet(&mut a, "", Box::new(TomlValue::Boolean(true)));
    TomlValue::Table(a)
}

#[test]
fn type_of_each_variant() {
    assert_eq!(ValueType(&CreateString("s")), TomlType::String);
    assert_eq!(ValueType(&CreateInteger(1)), TomlType::Integer);
    assert_eq!(ValueType(&CreateFloat(0)), TomlType::Float);
    assert_eq!(ValueType(&CreateBoolean(true)), TomlType::Boolean);
    assert_eq!(ValueType(&CreateDatetime("x")), TomlType::Datetime);
    assert_eq!(ValueType(&CreateArray()), TomlType::Array);
    assert_eq!(ValueType(&CreateTable()), TomlType::Table);
}

#[test]
fn constructors_hold_their_payload() {
    assert_eq!(*CreateString("héllo"), TomlValue::String("héllo".to_string()));
    assert_eq!(*CreateInteger(-7), TomlValue::Integer(-7));
    assert_eq!(*CreateFloat(2.5f64.to_bits()), TomlValue::Float(2.5f64.to_bits()));
    assert_eq!(*CreateBoolean(true), TomlValue::Boolean(true));
    assert_eq!(*CreateDatetime("not-a-date"), TomlValue::Datetime("not-a-date".to_string()));
    assert_eq!(*CreateArray(), TomlValue::Array(Vec::new()));
    assert_eq!(*CreateTable(), TomlValue::Table(Table::new()));
}

#[test]
fn accessors_of_the_right_variant() {
    assert_eq!(ValueString(&CreateString("abc")), "abc");
    assert_eq!(ValueInteger(&CreateInteger(i64::MIN)), i64::MIN);
    assert_eq!(f64::from_bits(ValueFloat(&CreateFloat(3.25f64.to_bits()))), 3.25);
    assert!(ValueBoolean(&CreateBoolean(true)));
    assert_eq!(ValueDatetime(&CreateDatetime("1979-05-27T07:32:00Z")), "1979-05-27T07:32:00Z");
}

#[test]
fn accessors_default_on_other_variants() {
    let other = CreateInteger(9);
    assert_eq!(ValueString(&other), "");
    assert_eq!(ValueDatetime(&other), "");
    assert_eq!(f64::from_bits(ValueFloat(&other)), 0.0);
    assert!(!ValueBoolean(&other));
    assert_eq!(ValueInteger(&CreateString("9")), 0);
    assert!(ValueTable(&other).is_none());
    assert!(ValueArray(&other).is_none());
    // a datetime is no string, and a string no datetime
    assert_eq!(ValueString(&CreateDatetime("d")), "");
    assert_eq!(ValueDatetime(&CreateString("s")), "");
}

#[test]
fn table_and_array_inside_a_value() {
    let mut t = CreateTable();
    assert_eq!(TableKeyCount(ValueTable(&t).unwrap()), 0);
    TableSet(ValueTableMut(&mut t).unwrap(), "k", CreateInteger(3));
    assert_eq!(TableGet(ValueTable(&t).unwrap(), "k"), Some(&TomlValue::Integer(3)));
    assert!(ValueArrayMut(&mut t).is_none());

    let mut a = CreateArray();
    ArrayPush(ValueArrayMut(&mut a).unwrap(), CreateBoolean(true));
    assert_eq!(ArrayCount(ValueArray(&a).unwrap()), 1);
    assert!(ValueTableMut(&mut a).is_none());
    assert_eq!(*a, TomlValue::Array(vec![TomlValue::Boolean(true)]));
}

#[test]
fn wrap_table_keeps_the_entries() {
    let mut t = Table::new();
    TableSet(&mut t, "x", CreateString("y"));
    let mut same = Table::new();
    TableSet(&mut same, "x", CreateString("y"));
    assert_eq!(*WrapTable(Box::new(t)), TomlValue::Table(same));
}

#[test]
fn free_takes_absent_and_present() {
    FreeValue(None);
    FreeValue(Some(CreateTable()));
}

#[test]
fn lookup_follows_the_path() {
    let v = nested();
    assert_eq!(ValueLookup(&v, "a.b.c"), Some(&TomlValue::Integer(5)));
    assert_eq!(ValueLookup(&v, "n"), Some(&TomlValue::Integer(1)));
}

#[test]
fn lookup_missing_key_is_absent() {
    let v = nested();
    assert_eq!(ValueLookup(&v, "a.x.c"), None);
    assert_eq!(ValueLookup(&v, "x"), None);
    assert_eq!(ValueLookup(&v, "A"), None);
}

#[test]
fn lookup_through_a_scalar_is_absent() {
    let v = nested();
    assert_eq!(ValueLookup(&v, "a.b.c.d"), None);
    assert_eq!(ValueLookup(&v, "n.x"), None);
    assert_eq!(ValueLookup(&TomlValue::Integer(1), "a"), None);
}

#[test]
fn lookup_of_a_table_gives_the_table() {
    let v = nested();
    let mut c = Table::new();
    TableSet(&mut c, "c", Box::new(TomlValue::Integer(5)));
    let mut b = Table::new();
    TableSet(&mut b, "b", Box::new(TomlValue::Table(c)));
    assert_eq!(ValueLookup(&v, "a"), Some(&TomlValue::Table(b)));
}

#[test]
fn lookup_empty_path_and_empty_segments() {
    let v = nested();
    assert_eq!(ValueLookup(&v, ""), Some(&v));
    assert_eq!(ValueLookup(&TomlValue::Integer(1), ""), Some(&TomlValue::Integer(1)));
    // a trailing dot asks for the key "" of what was reached
    assert_eq!(ValueLookup(&v, "a."), None);
    assert_eq!(ValueLookup(&v, "."), None);
    assert_eq!(ValueLookup(&v, "a..b"), None);
}

#[test]
fn lookup_does_not_index_arrays() {
    let mut t = Table::new();
    TableSet(&mut t, "list", Box::new(TomlValue::Array(vec![TomlValue::Integer(1)])));
    let v = TomlValue::Table(t);
    assert_eq!(ValueLookup(&v, "list.0"), None);
    assert_eq!(ValueLookup(&v, "list"), Some(&TomlValue::Array(vec![TomlValue::Integer(1)])));
}
