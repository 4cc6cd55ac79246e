//! JSON documents as bytes: parsing them into tables and writing tables out.
use crate::json_tree::{
    from_json, json_to_toml, table_to_json, to_json_members, JsonModel, JsonValue,
};
use crate::table::{Table, TableModel, TomlValue, ValueModel};
use crate::value::report_error;
use num_traits::FromBytes;
use serde_json::{Number, Value};
use vstd::prelude::*;

verus! {

/// The JSON tree type of `serde_json`, carried through as it is.
#[verifier::external_type_specification]
#[verifier::external_body]
pub struct ExSerdeJsonValue(serde_json::Value);

/// What `serde_json::from_slice` makes of a byte string: the tree it
/// parsed, or the text of its error.
pub uninterp spec fn json_decoded(input: Seq<u8>) -> Result<JsonModel, Seq<char>>;

/// What `serde_json::to_vec` writes for a tree, or `None` where it fails.
pub uninterp spec fn json_encoded(tree: JsonModel) -> Option<Seq<u8>>;

/// Copies a `serde_json::Value` into a `JsonValue`, variant by variant. A
/// number that `as_u64` accepts is unsigned, one that only `as_i64`
/// accepts is signed, any other a float.
#[verifier::external_body]
fn json_from_outside(v: &Value) -> JsonValue {
    match v {
        Value::Null => JsonValue::Null,
        Value::Bool(b) => JsonValue::Bool(*b),
        Value::Number(n) => match (n.as_u64(), n.as_i64()) {
            (Some(u), _) => JsonValue::U64(u),
            (_, Some(i)) => JsonValue::I64(i),
            _ => JsonValue::F64(n.as_f64().unwrap_or_default().to_bits()),
        },
        Value::String(s) => JsonValue::String(s.clone()),
        Value::Array(a) => JsonValue::Array(a.iter().map(json_from_outside).collect()),
        Value::Object(o) => JsonValue::Object(
            o.iter().map(|(k, x)| (k.clone(), json_from_outside(x))).collect(),
        ),
    }
}

/// Copies a `JsonValue` into a `serde_json::Value`, variant by variant. A
/// float goes through `Number::from_f64`, which has no number for NaN and
/// the infinities; those become null.
#[verifier::external_body]
fn json_to_outside(v: &JsonValue) -> Value {
    match v {
        JsonValue::Null => Value::Null,
        JsonValue::Bool(b) => Value::Bool(*b),
        JsonValue::I64(i) => Value::from(*i),
        JsonValue::U64(u) => Value::from(*u),
        JsonValue::F64(bits) => Number::from_f64(FromBytes::from_le_bytes(&bits.to_le_bytes()))
            .map_or(Value::Null, Value::Number),
        JsonValue::String(s) => Value::String(s.clone()),
        JsonValue::Array(a) => Value::Array(a.iter().map(json_to_outside).collect()),
        JsonValue::Object(o) => Value::Object(
            o.iter().map(|m| (m.0.clone(), json_to_outside(&m.1))).collect(),
        ),
    }
}

/// Parses JSON text with `serde_json::from_slice`. The result is the tree
/// that `json_decoded` names for these bytes, or its error text.
#[verifier::external_body]
fn decode_json(input: &[u8]) -> (r: Result<JsonValue, String>)
    ensures
        match r {
            Ok(tree) => json_decoded(input@) == Ok::<JsonModel, Seq<char>>(tree@),
            Err(message) => json_decoded(input@) == Err::<JsonModel, Seq<char>>(message@),
        },
{
    match serde_json::from_slice::<Value>(input) {
        Ok(v) => Ok(json_from_outside(&v)),
        Err(e) => Err(e.to_string()),
    }
}

/// Writes a tree as JSON text with `serde_json::to_vec`. The result is the
/// byte string that `json_encoded` names for this tree.
#[verifier::external_body]
fn encode_json(tree: &JsonValue) -> (r: Option<Box<[u8]>>)
    ensures
        match r {
            Some(bytes) => json_encoded(tree@) == Some(bytes@),
            None => json_encoded(tree@).is_none(),
        },
{
    serde_json::to_vec(&json_to_outside(tree)).ok().map(Vec::into_boxed_slice)
}

/// The message for a document whose root is not an object.
pub open spec fn root_not_object() -> Seq<char> {
    "Json document was not an object at its root"@
}

/// The table of a parsed JSON document: the table of its root object. A
/// parse error stays as it is; any other root is an error of its own.
pub open spec fn json_document_table(decoded: Result<JsonModel, Seq<char>>) -> Result<
    TableModel,
    Seq<char>,
> {
    match decoded {
        Ok(tree) => match from_json(tree) {
            Some(ValueModel::Table(t)) => Ok(t),
            _ => Err(root_not_object()),
        },
        Err(message) => Err(message),
    }
}

/// Turns the outcome of parsing a JSON document into a table, or into the
/// message that says why there is none.
pub fn table_from_json_document(decoded: Result<JsonValue, String>) -> (r: Result<Table, String>)
    ensures
        match r {
            Ok(table) => json_document_table(result_model(decoded)) == Ok::<
                TableModel,
                Seq<char>,
            >(table@) && table.wf(),
            Err(message) => json_document_table(result_model(decoded)) == Err::<
                TableModel,
                Seq<char>,
            >(message@),
        },
{
    match decoded {
        Ok(tree) => match json_to_toml(&tree) {
            Some(TomlValue::Table(table)) => Ok(table),
            _ => Err("Json document was not an object at its root".to_owned()),
        },
        Err(message) => Err(message),
    }
}

/// What the outcome of parsing denotes.
pub open spec fn result_model(decoded: Result<JsonValue, String>) -> Result<JsonModel, Seq<char>> {
    match decoded {
        Ok(tree) => Ok(tree@),
        Err(message) => Err(message@),
    }
}

/// Parses a JSON document into the table of its root object. On failure
/// the result is `None`, and the slot, where one is given, holds the
/// message: the parser's own, or that the root is not an object. On
/// success the slot is left alone.
pub fn ParseTableJSON(input: &[u8], errors: Option<&mut Option<Box<TomlValue>>>) -> (r: Option<
    Box<Table>,
>)
    ensures
        match json_document_table(json_decoded(input@)) {
            Ok(t) => match r {
                Some(table) => (*table)@ == t && table.wf(),
                None => false,
            },
            Err(message) => r.is_none() && match errors {
                Some(slot) => match *final(slot) {
                    Some(value) => (*value)@ == ValueModel::String(message),
                    None => false,
                },
                None => true,
            },
        },
        r.is_some() ==> match errors {
            Some(slot) => *final(slot) == *slot,
            None => true,
        },
{
    match table_from_json_document(decode_json(input)) {
        Ok(table) => Some(Box::new(table)),
        Err(message) => {
            report_error(errors, message);
            None
        },
    }
}

/// Writes a table as a JSON document whose root object has the table's
/// keys in iteration order. `None` where the encoder fails.
pub fn SerializeTableJSON(table: &Table) -> (r: Option<Box<[u8]>>)
    ensures
        match r {
            Some(bytes) => json_encoded(JsonModel::Object(to_json_members(table@))) == Some(bytes@),
            None => json_encoded(JsonModel::Object(to_json_members(table@))).is_none(),
        },
{
    let json = JsonValue::Object(table_to_json(table));
    encode_json(&json)
}

/// Gives up a byte buffer that may be absent.
pub fn FreeJSONData(data: Option<Box<[u8]>>) {
    let _ = data;
}

} // verus!
