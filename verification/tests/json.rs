use doc_value::{
    json_to_toml, toml_to_json, JsonValue, ParseTableJSON, SerializeTableJSON, TableGet,
    TableKeyCount, TomlValue,
};

#[test]
fn unsigned_below_signed_max_is_integer() {
    let v = json_to_toml(&JsonValue::U64(9223372036854775806));
    assert_eq!(v, Some(TomlValue::Integer(9223372036854775806)));
}

#[test]
fn unsigned_signed_max_is_float() {
    let v = json_to_toml(&JsonValue::U64(9223372036854775807));
    assert_eq!(v, Some(TomlValue::Float((9223372036854775807u64 as f64).to_bits())));
}

#[test]
fn unsigned_above_signed_max_is_float() {
    let v = json_to_toml(&JsonValue::U64(9223372036854775808));
    assert_eq!(v, Some(TomlValue::Float((9223372036854775808u64 as f64).to_bits())));
}

#[test]
fn large_unsigned_rounds_like_the_machine() {
    let samples: [u64; 12] = [
        9223372036854775807,
        9223372036854775808,
        9223372036854776832,
        9223372036854776833,
        9223372036854777856,
        9223372036854778880,
        9223372036854778879,
        0xFFFF_FFFF_FFFF_FBFF,
        0xFFFF_FFFF_FFFF_FC00,
        0xFFFF_FFFF_FFFF_FFFF,
        0xC000_0000_0000_0400,
        0xC000_0000_0000_0C00,
    ];
    for u in samples {
        let v = json_to_toml(&JsonValue::U64(u));
        assert_eq!(v, Some(TomlValue::Float((u as f64).to_bits())));
    }
}

#[test]
fn parse_json_object_root() {
    let mut slot = None;
    let table = ParseTableJSON(b"{\"a\": 1, \"b\": null, \"c\": [1, null, 2.5]}", Some(&mut slot));
    let table = table.unwrap();
    assert!(slot.is_none());
    assert_eq!(TableKeyCount(&table), 2);
    assert_eq!(TableGet(&table, "a"), Some(&TomlValue::Integer(1)));
    assert_eq!(TableGet(&table, "b"), None);
    assert_eq!(
        TableGet(&table, "c"),
        Some(&TomlValue::Array(vec![TomlValue::Integer(1), TomlValue::Float(2.5f64.to_bits())]))
    );
}

#[test]
fn parse_json_root_not_object() {
    let mut slot = None;
    let table = ParseTableJSON(b"[1, 2]", Some(&mut slot));
    assert!(table.is_none());
    assert_eq!(
        slot,
        Some(Box::new(TomlValue::String(
            "Json document was not an object at its root".to_string()
        )))
    );
}

#[test]
fn serialize_json_keeps_order() {
    let table = ParseTableJSON(b"{\"z\": true, \"a\": \"x\"}", None).unwrap();
    let bytes = SerializeTableJSON(&table).unwrap();
    assert_eq!(&*bytes, b"{\"z\":true,\"a\":\"x\"}");
    let tree = toml_to_json(&TomlValue::Boolean(true));
    assert_eq!(tree, JsonValue::Bool(true));
}

#[test]
fn json_tree_round_trip_without_datetimes() {
    let mut inner = doc_value::Table::new();
    doc_value::TableSet(&mut inner, "z", Box::new(TomlValue::Integer(i64::MIN)));
    doc_value::TableSet(&mut inner, "a", Box::new(TomlValue::Float(f64::NAN.to_bits())));
    let mut table = doc_value::Table::new();
    doc_value::TableSet(&mut table, "s", Box::new(TomlValue::String("x".to_string())));
    doc_value::TableSet(&mut table, "b", Box::new(TomlValue::Boolean(true)));
    doc_value::TableSet(
        &mut table,
        "l",
        Box::new(TomlValue::Array(vec![TomlValue::Integer(1), TomlValue::Table(inner)])),
    );
    let v = TomlValue::Table(table);
    let back = json_to_toml(&toml_to_json(&v));
    assert_eq!(back.as_ref(), Some(&v));
}

#[test]
fn json_bytes_round_trip_keeps_the_table() {
    let table = ParseTableJSON(
        b"{\"n\": -3, \"f\": 0.5, \"s\": \"t\", \"l\": [true, {\"k\": []}], \"o\": {}}",
        None,
    )
    .unwrap();
    let bytes = SerializeTableJSON(&table).unwrap();
    assert_eq!(&*bytes, &b"{\"n\":-3,\"f\":0.5,\"s\":\"t\",\"l\":[true,{\"k\":[]}],\"o\":{}}"[..]);
    let again = ParseTableJSON(&bytes, None).unwrap();
    assert_eq!(again, table);
}

#[test]
fn datetime_reaches_json_as_a_string() {
    let v = TomlValue::Datetime("1979-05-27T07:32:00Z".to_string());
    assert_eq!(toml_to_json(&v), JsonValue::String("1979-05-27T07:32:00Z".to_string()));
    assert_eq!(
        json_to_toml(&toml_to_json(&v)),
        Some(TomlValue::String("1979-05-27T07:32:00Z".to_string()))
    );
}

#[test]
fn scalar_mapping_to_json() {
    assert_eq!(toml_to_json(&TomlValue::Integer(-1)), JsonValue::I64(-1));
    assert_eq!(toml_to_json(&TomlValue::Float(7)), JsonValue::F64(7));
    assert_eq!(toml_to_json(&TomlValue::String("s".to_string())), JsonValue::String("s".to_string()));
}

#[test]
fn nulls_are_dropped_and_order_is_kept() {
    assert_eq!(json_to_toml(&JsonValue::Null), None);
    let array = JsonValue::Array(vec![
        JsonValue::Null,
        JsonValue::I64(1),
        JsonValue::Null,
        JsonValue::I64(2),
        JsonValue::Array(vec![JsonValue::Null]),
    ]);
    assert_eq!(
        json_to_toml(&array),
        Some(TomlValue::Array(vec![
            TomlValue::Integer(1),
            TomlValue::Integer(2),
            TomlValue::Array(Vec::new()),
        ]))
    );
    let object = JsonValue::Object(vec![
        ("b".to_string(), JsonValue::Bool(true)),
        ("gone".to_string(), JsonValue::Null),
        ("a".to_string(), JsonValue::I64(0)),
    ]);
    let mut expected = doc_value::Table::new();
    doc_value::TableSet(&mut expected, "b", Box::new(TomlValue::Boolean(true)));
    doc_value::TableSet(&mut expected, "a", Box::new(TomlValue::Integer(0)));
    assert_eq!(json_to_toml(&object), Some(TomlValue::Table(expected)));
}

#[test]
fn json_object_with_a_repeated_key_keeps_the_later_value() {
    let object = JsonValue::Object(vec![
        ("k".to_string(), JsonValue::I64(1)),
        ("k".to_string(), JsonValue::I64(2)),
    ]);
    let mut expected = doc_value::Table::new();
    doc_value::TableSet(&mut expected, "k", Box::new(TomlValue::Integer(2)));
    assert_eq!(json_to_toml(&object), Some(TomlValue::Table(expected)));
}

#[test]
fn parse_json_numbers_by_kind() {
    let table = ParseTableJSON(
        b"{\"p\": 5, \"n\": -5, \"f\": 5.0, \"big\": 9223372036854775807, \"huge\": 18446744073709551615}",
        None,
    )
    .unwrap();
    assert_eq!(TableGet(&table, "p"), Some(&TomlValue::Integer(5)));
    assert_eq!(TableGet(&table, "n"), Some(&TomlValue::Integer(-5)));
    assert_eq!(TableGet(&table, "f"), Some(&TomlValue::Float(5.0f64.to_bits())));
    assert_eq!(
        TableGet(&table, "big"),
        Some(&TomlValue::Float(9223372036854775808.0f64.to_bits()))
    );
    assert_eq!(
        TableGet(&table, "huge"),
        Some(&TomlValue::Float(18446744073709551616.0f64.to_bits()))
    );
}

#[test]
fn parse_json_syntax_error_fills_the_slot() {
    let mut slot = None;
    assert!(ParseTableJSON(b"{\"a\": ", Some(&mut slot)).is_none());
    assert_eq!(
        slot,
        Some(Box::new(TomlValue::String(
            "EOF while parsing a value at line 1 column 6".to_string()
        )))
    );
    assert!(ParseTableJSON(b"\"\xff\"", None).is_none());
    assert!(ParseTableJSON(b"null", None).is_none());
}

#[test]
fn serialize_json_writes_non_finite_floats_as_null() {
    let mut table = doc_value::Table::new();
    doc_value::TableSet(&mut table, "x", Box::new(TomlValue::Float(f64::INFINITY.to_bits())));
    let bytes = SerializeTableJSON(&table).unwrap();
    assert_eq!(&*bytes, &b"{\"x\":null}"[..]);
}
