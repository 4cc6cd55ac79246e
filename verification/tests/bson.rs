use doc_value::{
    bson_to_toml, toml_to_bson, BsonValue, ParseTableBSON, SerializeTableBSON, Table, TableGet,
    TableKeyCount, TableSet, TomlValue, ValueString,
};

fn sample() -> Table {
    let mut inner = Table::new();
    TableSet(&mut inner, "deep", Box::new(TomlValue::Boolean(true)));
    let mut t = Table::new();
    TableSet(&mut t, "s", Box::new(TomlValue::String("text".to_string())));
    TableSet(&mut t, "i", Box::new(TomlValue::Integer(-42)));
    TableSet(&mut t, "f", Box::new(TomlValue::Float(0.1f64.to_bits())));
    TableSet(&mut t, "b", Box::new(TomlValue::Boolean(false)));
    TableSet(
        &mut t,
        "a",
        Box::new(TomlValue::Array(vec![TomlValue::Integer(1), TomlValue::String("x".to_string())])),
    );
    TableSet(&mut t, "t", Box::new(TomlValue::Table(inner)));
    t
}

#[test]
fn tree_round_trip_without_datetimes() {
    let v = TomlValue::Table(sample());
    assert_eq!(bson_to_toml(&toml_to_bson(&v)), Some(TomlValue::Table(sample())));
}

#[test]
fn bytes_round_trip_without_datetimes() {
    let bytes = SerializeTableBSON(&sample()).unwrap();
    let mut slot = None;
    let back = ParseTableBSON(&bytes, Some(&mut slot)).unwrap();
    assert!(slot.is_none());
    assert_eq!(*back, sample());
}

#[test]
fn scalar_mapping_to_the_tree() {
    assert_eq!(toml_to_bson(&TomlValue::Integer(7)), BsonValue::I64(7));
    assert_eq!(
        toml_to_bson(&TomlValue::Float(1.5f64.to_bits())),
        BsonValue::FloatingPoint(1.5f64.to_bits())
    );
    assert_eq!(toml_to_bson(&TomlValue::Boolean(true)), BsonValue::Boolean(true));
    assert_eq!(
        toml_to_bson(&TomlValue::String("s".to_string())),
        BsonValue::String("s".to_string())
    );
}

#[test]
fn malformed_datetime_is_dropped() {
    let v = TomlValue::Datetime("not-a-date".to_string());
    assert_eq!(toml_to_bson(&v), BsonValue::Null);
    assert_eq!(bson_to_toml(&toml_to_bson(&v)), None);

    let mut t = Table::new();
    TableSet(&mut t, "when", Box::new(TomlValue::Datetime("not-a-date".to_string())));
    TableSet(&mut t, "n", Box::new(TomlValue::Integer(1)));
    assert_eq!(TableKeyCount(&t), 2);
    assert_eq!(
        toml_to_bson(&TomlValue::Table(Table::new())),
        BsonValue::Document(Vec::new())
    );
    let tree = toml_to_bson(&TomlValue::Table(sample()));
    assert!(matches!(tree, BsonValue::Document(_)));
    let bytes = SerializeTableBSON(&t).unwrap();
    let back = ParseTableBSON(&bytes, None).unwrap();
    assert_eq!(TableKeyCount(&back), 1);
    assert_eq!(TableGet(&back, "when"), None);
    assert_eq!(TableGet(&back, "n"), Some(&TomlValue::Integer(1)));
}

#[test]
fn datetime_is_parsed_and_written_out_again() {
    let v = TomlValue::Datetime("2000-01-12T01:02:03.004Z".to_string());
    assert_eq!(toml_to_bson(&v), BsonValue::UtcDatetime(947638923004));
    assert_eq!(
        bson_to_toml(&BsonValue::UtcDatetime(947638923004)),
        Some(TomlValue::Datetime("2000-01-12 01:02:03.004 UTC".to_string()))
    );
    assert_eq!(
        bson_to_toml(&BsonValue::UtcDatetime(0)),
        Some(TomlValue::Datetime("1970-01-01 00:00:00 UTC".to_string()))
    );
    let with_offset = TomlValue::Datetime("1979-05-27T00:32:00-07:00".to_string());
    assert_eq!(toml_to_bson(&with_offset), BsonValue::UtcDatetime(296638320000));
}

#[test]
fn timestamp_beyond_the_calendar_has_no_value() {
    assert_eq!(bson_to_toml(&BsonValue::UtcDatetime(i64::MAX)), None);
    assert_eq!(bson_to_toml(&BsonValue::UtcDatetime(i64::MIN)), None);
}

#[test]
fn integers_widen_and_timestamps_combine() {
    assert_eq!(bson_to_toml(&BsonValue::I32(-3)), Some(TomlValue::Integer(-3)));
    assert_eq!(bson_to_toml(&BsonValue::I32(i32::MAX)), Some(TomlValue::Integer(2147483647)));
    assert_eq!(bson_to_toml(&BsonValue::I64(i64::MIN)), Some(TomlValue::Integer(i64::MIN)));
    assert_eq!(bson_to_toml(&BsonValue::TimeStamp(0, 0)), Some(TomlValue::Integer(0)));
    assert_eq!(bson_to_toml(&BsonValue::TimeStamp(1, 2)), Some(TomlValue::Integer(4294967298)));
    assert_eq!(
        bson_to_toml(&BsonValue::TimeStamp(0x7FFF_FFFF, 0xFFFF_FFFF)),
        Some(TomlValue::Integer(i64::MAX))
    );
    assert_eq!(bson_to_toml(&BsonValue::TimeStamp(0x8000_0000, 0)), Some(TomlValue::Integer(i64::MIN)));
    assert_eq!(
        bson_to_toml(&BsonValue::TimeStamp(0xFFFF_FFFF, 0xFFFF_FFFF)),
        Some(TomlValue::Integer(-1))
    );
}

#[test]
fn null_and_unsupported_are_dropped_from_containers() {
    assert_eq!(bson_to_toml(&BsonValue::Null), None);
    assert_eq!(bson_to_toml(&BsonValue::Unsupported), None);
    let array = BsonValue::Array(vec![
        BsonValue::I32(1),
        BsonValue::Null,
        BsonValue::Unsupported,
        BsonValue::I32(2),
    ]);
    assert_eq!(
        bson_to_toml(&array),
        Some(TomlValue::Array(vec![TomlValue::Integer(1), TomlValue::Integer(2)]))
    );
    let doc = BsonValue::Document(vec![
        ("a".to_string(), BsonValue::Unsupported),
        ("b".to_string(), BsonValue::Boolean(true)),
        ("c".to_string(), BsonValue::Null),
    ]);
    let mut expected = Table::new();
    TableSet(&mut expected, "b", Box::new(TomlValue::Boolean(true)));
    assert_eq!(bson_to_toml(&doc), Some(TomlValue::Table(expected)));
}

#[test]
fn document_with_a_repeated_key_keeps_the_later_value() {
    let doc = BsonValue::Document(vec![
        ("k".to_string(), BsonValue::I32(1)),
        ("j".to_string(), BsonValue::I32(5)),
        ("k".to_string(), BsonValue::I32(2)),
    ]);
    let mut expected = Table::new();
    TableSet(&mut expected, "k", Box::new(TomlValue::Integer(2)));
    TableSet(&mut expected, "j", Box::new(TomlValue::Integer(5)));
    assert_eq!(bson_to_toml(&doc), Some(TomlValue::Table(expected)));
}

#[test]
fn parse_reads_every_kind_of_element() {
    let mut doc = bson::Document::new();
    doc.insert("d", bson::Bson::Double(2.5));
    doc.insert("i32", bson::Bson::Int32(7));
    doc.insert("i64", bson::Bson::Int64(-8));
    doc.insert("ts", bson::Bson::Timestamp(bson::Timestamp { time: 3, increment: 4 }));
    doc.insert("when", bson::Bson::DateTime(bson::DateTime::from_millis(947638923004)));
    doc.insert("bin", bson::Bson::Binary(bson::Binary {
        subtype: bson::spec::BinarySubtype::Generic,
        bytes: vec![1, 2, 3],
    }));
    doc.insert("oid", bson::Bson::ObjectId(bson::oid::ObjectId::from_bytes([0; 12])));
    doc.insert("re", bson::Bson::RegularExpression(bson::Regex {
        pattern: "a".to_string(),
        options: "i".to_string(),
    }));
    doc.insert("js", bson::Bson::JavaScriptCode("x".to_string()));
    doc.insert("min", bson::Bson::MinKey);
    doc.insert("max", bson::Bson::MaxKey);
    doc.insert("null", bson::Bson::Null);
    doc.insert("last", bson::Bson::Boolean(true));
    let mut bytes = Vec::new();
    doc.to_writer(&mut bytes).unwrap();

    let table = ParseTableBSON(&bytes, None).unwrap();
    let mut expected = Table::new();
    TableSet(&mut expected, "d", Box::new(TomlValue::Float(2.5f64.to_bits())));
    TableSet(&mut expected, "i32", Box::new(TomlValue::Integer(7)));
    TableSet(&mut expected, "i64", Box::new(TomlValue::Integer(-8)));
    TableSet(&mut expected, "ts", Box::new(TomlValue::Integer(3 * 4294967296 + 4)));
    TableSet(
        &mut expected,
        "when",
        Box::new(TomlValue::Datetime("2000-01-12 01:02:03.004 UTC".to_string())),
    );
    TableSet(&mut expected, "last", Box::new(TomlValue::Boolean(true)));
    assert_eq!(*table, expected);
}

#[test]
fn parse_failure_fills_the_slot() {
    let mut slot = None;
    assert!(ParseTableBSON(&[1, 2, 3], Some(&mut slot)).is_none());
    let message = slot.unwrap();
    assert!(!ValueString(&message).is_empty());
    assert!(ParseTableBSON(&[], None).is_none());
}

#[test]
fn serialize_writes_the_wire_format() {
    let mut t = Table::new();
    TableSet(&mut t, "a", Box::new(TomlValue::Integer(1)));
    let bytes = SerializeTableBSON(&t).unwrap();
    assert_eq!(
        &*bytes,
        &[16, 0, 0, 0, 0x12, b'a', 0, 1, 0, 0, 0, 0, 0, 0, 0, 0][..]
    );
}
