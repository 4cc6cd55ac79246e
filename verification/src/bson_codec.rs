//! Binary documents as bytes: reading them into tables and writing tables
//! out.
use crate::bson_tree::{
    bson_members_model, bson_supported, bson_supported_members, bson_to_table, from_bson_members,
    table_to_bson, to_bson_members, BsonModel, BsonValue,
};
use crate::table::{Table, TableModel, TomlValue, ValueModel};
use crate::value::report_error;
use bson::{Bson, DateTime, Document, Timestamp};
use num_traits::FromBytes;
use vstd::prelude::*;

verus! {

/// The element type of `bson`, carried through as it is.
#[verifier::external_type_specification]
#[verifier::external_body]
pub struct ExBson(Bson);

/// The document type of `bson`, carried through as it is.
#[verifier::external_type_specification]
#[verifier::external_body]
pub struct ExBsonDocument(Document);

/// What `bson::Document::from_reader` makes of a byte string: the members
/// of the document it read, or the text of its error.
pub uninterp spec fn bson_decoded(input: Seq<u8>) -> Result<Seq<(Seq<char>, BsonModel)>, Seq<char>>;

/// What `bson::Document::to_writer` writes for a document with these
/// members, or `None` where it fails.
pub uninterp spec fn bson_encoded(members: Seq<(Seq<char>, BsonModel)>) -> Option<Seq<u8>>;

/// Copies a `bson::Bson` into a `BsonValue`, variant by variant; every
/// variant that `BsonValue` does not have becomes `Unsupported`.
#[verifier::external_body]
fn bson_from_outside(v: &Bson) -> BsonValue {
    match v {
        Bson::Double(f) => BsonValue::FloatingPoint(f.to_bits()),
        Bson::String(s) => BsonValue::String(s.clone()),
        Bson::Array(a) => BsonValue::Array(a.iter().map(bson_from_outside).collect()),
        Bson::Document(d) => BsonValue::Document(document_from_outside(d)),
        Bson::Boolean(b) => BsonValue::Boolean(*b),
        Bson::Null => BsonValue::Null,
        Bson::Int32(i) => BsonValue::I32(*i),
        Bson::Int64(i) => BsonValue::I64(*i),
        Bson::Timestamp(t) => BsonValue::TimeStamp(t.time, t.increment),
        Bson::DateTime(d) => BsonValue::UtcDatetime(d.timestamp_millis()),
        _ => BsonValue::Unsupported,
    }
}

/// Copies the members of a `bson::Document`, in its order.
#[verifier::external_body]
fn document_from_outside(d: &Document) -> Vec<(String, BsonValue)> {
    d.iter().map(|(k, v)| (k.clone(), bson_from_outside(v))).collect()
}

/// Copies a `BsonValue` into a `bson::Bson`, variant by variant.
#[verifier::external_body]
fn bson_to_outside(v: &BsonValue) -> Bson
    requires
        bson_supported(v@),
{
    match v {
        BsonValue::FloatingPoint(bits) => Bson::Double(
            FromBytes::from_le_bytes(&bits.to_le_bytes()),
        ),
        BsonValue::String(s) => Bson::String(s.clone()),
        BsonValue::Array(a) => Bson::Array(a.iter().map(bson_to_outside).collect()),
        BsonValue::Document(d) => Bson::Document(document_to_outside(d)),
        BsonValue::Boolean(b) => Bson::Boolean(*b),
        BsonValue::Null => Bson::Null,
        BsonValue::I32(i) => Bson::Int32(*i),
        BsonValue::I64(i) => Bson::Int64(*i),
        BsonValue::TimeStamp(t, i) => Bson::Timestamp(Timestamp { time: *t, increment: *i }),
        BsonValue::UtcDatetime(millis) => Bson::DateTime(DateTime::from_millis(*millis)),
        BsonValue::Unsupported => Bson::Undefined,
    }
}

/// Copies members into a `bson::Document`, in their order.
#[verifier::external_body]
fn document_to_outside(d: &Vec<(String, BsonValue)>) -> Document
    requires
        bson_supported_members(bson_members_model(*d)),
{
    d.iter().map(|m| (m.0.clone(), bson_to_outside(&m.1))).collect()
}

/// Reads a document with `bson::Document::from_reader`. The result is the
/// members that `bson_decoded` names for these bytes, or its error text.
#[verifier::external_body]
fn decode_bson(input: &[u8]) -> (r: Result<Vec<(String, BsonValue)>, String>)
    ensures
        match r {
            Ok(members) => bson_decoded(input@) == Ok::<Seq<(Seq<char>, BsonModel)>, Seq<char>>(
                bson_members_model(members),
            ),
            Err(message) => bson_decoded(input@) == Err::<Seq<(Seq<char>, BsonModel)>, Seq<char>>(
                message@,
            ),
        },
{
    match Document::from_reader(input) {
        Ok(data) => Ok(document_from_outside(&data)),
        Err(err) => Err(err.to_string()),
    }
}

/// Writes a document with `bson::Document::to_writer`. The result is the
/// byte string that `bson_encoded` names for these members.
#[verifier::external_body]
fn encode_bson(members: &Vec<(String, BsonValue)>) -> (r: Option<Box<[u8]>>)
    requires
        bson_supported_members(bson_members_model(*members)),
    ensures
        match r {
            Some(bytes) => bson_encoded(bson_members_model(*members)) == Some(bytes@),
            None => bson_encoded(bson_members_model(*members)).is_none(),
        },
{
    let mut buf = Vec::new();
    match document_to_outside(members).to_writer(&mut buf) {
        Ok(_) => Some(buf.into_boxed_slice()),
        Err(_) => None,
    }
}

/// The table of a binary document that was read: the table of its
/// members. A read error stays as it is.
pub open spec fn bson_document_table(
    decoded: Result<Seq<(Seq<char>, BsonModel)>, Seq<char>>,
) -> Result<TableModel, Seq<char>> {
    match decoded {
        Ok(members) => Ok(from_bson_members(members, members.len())),
        Err(message) => Err(message),
    }
}

/// What the outcome of reading a document denotes.
pub open spec fn decoded_model(decoded: Result<Vec<(String, BsonValue)>, String>) -> Result<
    Seq<(Seq<char>, BsonModel)>,
    Seq<char>,
> {
    match decoded {
        Ok(members) => Ok(bson_members_model(members)),
        Err(message) => Err(message@),
    }
}

/// Turns the outcome of reading a binary document into a table, or hands
/// on the message that says why there is none.
pub fn table_from_bson_document(decoded: Result<Vec<(String, BsonValue)>, String>) -> (r: Result<
    Table,
    String,
>)
    ensures
        match r {
            Ok(table) => bson_document_table(decoded_model(decoded)) == Ok::<
                TableModel,
                Seq<char>,
            >(table@) && table.wf(),
            Err(message) => bson_document_table(decoded_model(decoded)) == Err::<
                TableModel,
                Seq<char>,
            >(message@),
        },
{
    match decoded {
        Ok(members) => Ok(bson_to_table(&members)),
        Err(message) => Err(message),
    }
}

/// Reads a binary document into a table. On failure the result is `None`,
/// and the slot, where one is given, holds the reader's message. On
/// success the slot is left alone.
pub fn ParseTableBSON(input: &[u8], errors: Option<&mut Option<Box<TomlValue>>>) -> (r: Option<
    Box<Table>,
>)
    ensures
        match bson_document_table(bson_decoded(input@)) {
            Ok(t) => match r {
                Some(table) => (*table)@ == t && table.wf(),
                None => false,
            },
            Err(message) => r.is_none() && match errors {
                Some(slot) => match *final(slot) {
                    Some(value) => (*value)@ == ValueModel::String(message),
                    None => false,
                },
                None => true,
            },
        },
        r.is_some() ==> match errors {
            Some(slot) => *final(slot) == *slot,
            None => true,
        },
{
    match table_from_bson_document(decode_bson(input)) {
        Ok(table) => Some(Box::new(table)),
        Err(message) => {
            report_error(errors, message);
            None
        },
    }
}

/// Writes a table as a binary document with the table's keys in iteration
/// order. `None` where the writer fails.
pub fn SerializeTableBSON(table: &Table) -> (r: Option<Box<[u8]>>)
    ensures
        match r {
            Some(bytes) => bson_encoded(to_bson_members(table@)) == Some(bytes@),
            None => bson_encoded(to_bson_members(table@)).is_none(),
        },
{
    let doc = table_to_bson(table);
    encode_bson(&doc)
}

/// Gives up a byte buffer that may be absent.
pub fn FreeBSONData(data: Option<Box<[u8]>>) {
    let _ = data;
}

} // verus!
