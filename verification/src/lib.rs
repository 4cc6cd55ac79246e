//! A dynamically typed document tree with ordered tables, and its
//! transcoding to and from a JSON tree, a binary document tree and
//! structured text.
#![allow(non_snake_case)]

pub mod array;
pub mod bson_codec;
pub mod bson_tree;
pub mod datetime;
pub mod float_bits;
pub mod json_codec;
pub mod json_tree;
pub mod strings;
pub mod table;
pub mod text_codec;
pub mod text_tree;
pub mod value;

pub use table::{Array, Table, TableModel, TomlValue, ValueModel};
pub use table::{FreeTable, TableGet, TableGetMut, TableKeyCount, TableKeys, TableRemove, TableSet};
pub use array::{ArrayCount, ArrayGet, ArrayGetMut, ArrayPop, ArrayPush};
pub use value::{
    CreateArray, CreateBoolean, CreateDatetime, CreateFloat, CreateInteger, CreateString,
    CreateTable, FreeValue, TomlType, ValueArray, ValueArrayMut, ValueBoolean, ValueDatetime,
    ValueFloat, ValueInteger, ValueLookup, ValueString, ValueTable, ValueTableMut, ValueType,
    WrapTable,
};
pub use json_codec::{FreeJSONData, ParseTableJSON, SerializeTableJSON};
pub use json_tree::{
    array_to_json, json_to_array, json_to_table, json_to_toml, table_to_json, toml_to_json,
    JsonValue,
};
pub use bson_tree::{
    array_to_bson, bson_to_array, bson_to_table, bson_to_toml, table_to_bson, toml_to_bson,
    BsonValue,
};
pub use bson_codec::{FreeBSONData, ParseTableBSON, SerializeTableBSON};
pub use text_codec::{ParseTable, SerializeTable, TrySerializeTable};
pub use text_tree::TextValue;
