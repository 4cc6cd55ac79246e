use doc_value::{
    ArrayCount, ArrayGet, ArrayGetMut, ArrayPop, ArrayPush, FreeTable, Table, TableGet,
    TableGetMut, TableKeyCount, TableKeys, TableRemove, TableSet, TomlValue,
};

fn integer(i: i64) -> Box<TomlValue> {
    Box::new(TomlValue::Integer(i))
}

#[test]
fn new_table_is_empty() {
    let t = Table::new();
    assert_eq!(TableKeyCount(&t), 0);
    assert_eq!(TableGet(&t, "k"), None);
}

#[test]
fn set_twice_leaves_one_entry_with_the_second_value() {
    let mut t = Table::new();
    TableSet(&mut t, "k", integer(1));
    TableSet(&mut t, "k", integer(2));
    assert_eq!(TableKeyCount(&t), 1);
    assert_eq!(TableGet(&t, "k"), Some(&TomlValue::Integer(2)));
    let mut keys = [""; 2];
    TableKeys(&t, &mut keys);
    assert_eq!(keys, ["k", ""]);
}

#[test]
fn overwrite_keeps_the_place() {
    let mut t = Table::new();
    TableSet(&mut t, "b", integer(1));
    TableSet(&mut t, "a", integer(2));
    TableSet(&mut t, "c", integer(3));
    TableSet(&mut t, "a", integer(4));
    let mut keys = [""; 3];
    TableKeys(&t, &mut keys);
    assert_eq!(keys, ["b", "a", "c"]);
    assert_eq!(t.entry(1), ("a", &TomlValue::Integer(4)));
    assert_eq!(t.entry(2), ("c", &TomlValue::Integer(3)));
}

#[test]
fn remove_missing_changes_nothing() {
    let mut t = Table::new();
    TableSet(&mut t, "a", integer(1));
    TableRemove(&mut t, "missing");
    assert_eq!(TableKeyCount(&t), 1);
    assert_eq!(TableGet(&t, "a"), Some(&TomlValue::Integer(1)));
    let mut empty = Table::new();
    TableRemove(&mut empty, "missing");
    assert_eq!(TableKeyCount(&empty), 0);
}

#[test]
fn remove_takes_the_entry_out() {
    let mut t = Table::new();
    TableSet(&mut t, "a", integer(1));
    TableSet(&mut t, "b", integer(2));
    TableSet(&mut t, "c", integer(3));
    TableRemove(&mut t, "b");
    assert_eq!(TableKeyCount(&t), 2);
    assert_eq!(TableGet(&t, "b"), None);
    let mut keys = [""; 2];
    TableKeys(&t, &mut keys);
    assert_eq!(keys, ["a", "c"]);
}

#[test]
fn keys_fill_only_what_fits() {
    let mut t = Table::new();
    TableSet(&mut t, "x", integer(1));
    TableSet(&mut t, "y", integer(2));
    let mut one = ["?"; 1];
    TableKeys(&t, &mut one);
    assert_eq!(one, ["x"]);
    let mut four = ["?"; 4];
    TableKeys(&t, &mut four);
    assert_eq!(four, ["x", "y", "?", "?"]);
    let mut none: [&str; 0] = [];
    TableKeys(&t, &mut none);
}

#[test]
fn keys_are_case_sensitive() {
    let mut t = Table::new();
    TableSet(&mut t, "Key", integer(1));
    TableSet(&mut t, "key", integer(2));
    assert_eq!(TableKeyCount(&t), 2);
    assert_eq!(TableGet(&t, "Key"), Some(&TomlValue::Integer(1)));
    assert_eq!(TableGet(&t, "KEY"), None);
}

#[test]
fn get_mut_changes_in_place() {
    let mut t = Table::new();
    TableSet(&mut t, "a", integer(1));
    TableSet(&mut t, "b", integer(2));
    *TableGetMut(&mut t, "a").unwrap() = TomlValue::Boolean(true);
    assert_eq!(TableGet(&t, "a"), Some(&TomlValue::Boolean(true)));
    assert_eq!(TableGet(&t, "b"), Some(&TomlValue::Integer(2)));
    assert_eq!(TableKeyCount(&t), 2);
    assert!(TableGetMut(&mut t, "c").is_none());
}

#[test]
fn free_table_takes_absent_and_present() {
    FreeTable(None);
    FreeTable(Some(Box::new(Table::new())));
}

#[test]
fn array_push_get_pop() {
    let mut a = Vec::new();
    assert_eq!(ArrayCount(&a), 0);
    ArrayPop(&mut a);
    assert_eq!(ArrayCount(&a), 0);
    ArrayPush(&mut a, integer(1));
    ArrayPush(&mut a, Box::new(TomlValue::String("s".to_string())));
    ArrayPush(&mut a, integer(1));
    assert_eq!(ArrayCount(&a), 3);
    assert_eq!(ArrayGet(&a, 0), &TomlValue::Integer(1));
    assert_eq!(ArrayGet(&a, 1), &TomlValue::String("s".to_string()));
    assert_eq!(ArrayGet(&a, 2), &TomlValue::Integer(1));
    *ArrayGetMut(&mut a, 1) = TomlValue::Boolean(false);
    assert_eq!(a, vec![TomlValue::Integer(1), TomlValue::Boolean(false), TomlValue::Integer(1)]);
    ArrayPop(&mut a);
    assert_eq!(a, vec![TomlValue::Integer(1), TomlValue::Boolean(false)]);
}
