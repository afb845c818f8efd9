//! The Rust types that stand for types of the server.

use vstd::prelude::*;

verus! {

/// A type of the server with the Rust type that stands for it.
#[derive(Debug, Clone, Copy)]
pub struct TypeInfo {
    pub pg_name: &'static str,
    pub rust_type: &'static str,
}

/// The name of a supported type.
pub open spec fn supported_name(oid: u32) -> Option<Seq<char>> {
    if oid == 16 {
        Some("bool"@)
    } else if oid == 17 {
        Some("bytea"@)
    } else if oid == 20 {
        Some("int8"@)
    } else if oid == 21 {
        Some("int2"@)
    } else if oid == 23 {
        Some("int4"@)
    } else if oid == 25 {
        Some("text"@)
    } else if oid == 26 {
        Some("oid"@)
    } else if oid == 114 {
        Some("json"@)
    } else if oid == 700 {
        Some("float4"@)
    } else if oid == 701 {
        Some("float8"@)
    } else if oid == 1000 {
        Some("bool[]"@)
    } else if oid == 1005 {
        Some("int2[]"@)
    } else if oid == 1007 {
        Some("int4[]"@)
    } else if oid == 1009 {
        Some("text[]"@)
    } else if oid == 1016 {
        Some("int8[]"@)
    } else if oid == 1021 {
        Some("float4[]"@)
    } else if oid == 1022 {
        Some("float8[]"@)
    } else if oid == 1042 {
        Some("bpchar"@)
    } else if oid == 1043 {
        Some("varchar"@)
    } else if oid == 1082 {
        Some("date"@)
    } else if oid == 1083 {
        Some("time"@)
    } else if oid == 1114 {
        Some("timestamp"@)
    } else if oid == 1184 {
        Some("timestamptz"@)
    } else if oid == 2950 {
        Some("uuid"@)
    } else if oid == 2951 {
        Some("uuid[]"@)
    } else if oid == 3802 {
        Some("jsonb"@)
    } else if oid == 3807 {
        Some("jsonb[]"@)
    } else {
        None
    }
}

/// The Rust type that stands for a supported type.
pub open spec fn rust_name(oid: u32) -> Option<Seq<char>> {
    if oid == 16 {
        Some("bool"@)
    } else if oid == 17 {
        Some("Vec<u8>"@)
    } else if oid == 20 {
        Some("i64"@)
    } else if oid == 21 {
        Some("i16"@)
    } else if oid == 23 {
        Some("i32"@)
    } else if oid == 25 {
        Some("String"@)
    } else if oid == 26 {
        Some("u32"@)
    } else if oid == 114 {
        Some("serde_json::Value"@)
    } else if oid == 700 {
        Some("f32"@)
    } else if oid == 701 {
        Some("f64"@)
    } else if oid == 1000 {
        Some("Vec<bool>"@)
    } else if oid == 1005 {
        Some("Vec<i16>"@)
    } else if oid == 1007 {
        Some("Vec<i32>"@)
    } else if oid == 1009 {
        Some("Vec<String>"@)
    } else if oid == 1016 {
        Some("Vec<i64>"@)
    } else if oid == 1021 {
        Some("Vec<f32>"@)
    } else if oid == 1022 {
        Some("Vec<f64>"@)
    } else if oid == 1042 {
        Some("String"@)
    } else if oid == 1043 {
        Some("String"@)
    } else if oid == 1082 {
        Some("chrono::NaiveDate"@)
    } else if oid == 1083 {
        Some("chrono::NaiveTime"@)
    } else if oid == 1114 {
        Some("chrono::NaiveDateTime"@)
    } else if oid == 1184 {
        Some("chrono::DateTime<chrono::Utc>"@)
    } else if oid == 2950 {
        Some("uuid::Uuid"@)
    } else if oid == 2951 {
        Some("Vec<uuid::Uuid>"@)
    } else if oid == 3802 {
        Some("serde_json::Value"@)
    } else if oid == 3807 {
        Some("Vec<serde_json::Value>"@)
    } else {
        None
    }
}

/// The Rust type for a type of the server, where it is supported.
pub fn from_oid(oid: u32) -> (r: Option<TypeInfo>)
    ensures
        match r {
            Some(info) => supported_name(oid) == Some(info.pg_name@) && rust_name(oid) == Some(
                info.rust_type@,
            ),
            None => supported_name(oid) is None && rust_name(oid) is None,
        },
{
    if oid == 16 {
        Some(TypeInfo { pg_name: "bool", rust_type: "bool" })
    } else if oid == 17 {
        Some(TypeInfo { pg_name: "bytea", rust_type: "Vec<u8>" })
    } else if oid == 20 {
        Some(TypeInfo { pg_name: "int8", rust_type: "i64" })
    } else if oid == 21 {
        Some(TypeInfo { pg_name: "int2", rust_type: "i16" })
    } else if oid == 23 {
        Some(TypeInfo { pg_name: "int4", rust_type: "i32" })
    } else if oid == 25 {
        Some(TypeInfo { pg_name: "text", rust_type: "String" })
    } else if oid == 26 {
        Some(TypeInfo { pg_name: "oid", rust_type: "u32" })
    } else if oid == 114 {
        Some(TypeInfo { pg_name: "json", rust_type: "serde_json::Value" })
    } else if oid == 700 {
        Some(TypeInfo { pg_name: "float4", rust_type: "f32" })
    } else if oid == 701 {
        Some(TypeInfo { pg_name: "float8", rust_type: "f64" })
    } else if oid == 1000 {
        Some(TypeInfo { pg_name: "bool[]", rust_type: "Vec<bool>" })
    } else if oid == 1005 {
        Some(TypeInfo { pg_name: "int2[]", rust_type: "Vec<i16>" })
    } else if oid == 1007 {
        Some(TypeInfo { pg_name: "int4[]", rust_type: "Vec<i32>" })
    } else if oid == 1009 {
        Some(TypeInfo { pg_name: "text[]", rust_type: "Vec<String>" })
    } else if oid == 1016 {
        Some(TypeInfo { pg_name: "int8[]", rust_type: "Vec<i64>" })
    } else if oid == 1021 {
        Some(TypeInfo { pg_name: "float4[]", rust_type: "Vec<f32>" })
    } else if oid == 1022 {
        Some(TypeInfo { pg_name: "float8[]", rust_type: "Vec<f64>" })
    } else if oid == 1042 {
        Some(TypeInfo { pg_name: "bpchar", rust_type: "String" })
    } else if oid == 1043 {
        Some(TypeInfo { pg_name: "varchar", rust_type: "String" })
    } else if oid == 1082 {
        Some(TypeInfo { pg_name: "date", rust_type: "chrono::NaiveDate" })
    } else if oid == 1083 {
        Some(TypeInfo { pg_name: "time", rust_type: "chrono::NaiveTime" })
    } else if oid == 1114 {
        Some(TypeInfo { pg_name: "timestamp", rust_type: "chrono::NaiveDateTime" })
    } else if oid == 1184 {
        Some(TypeInfo { pg_name: "timestamptz", rust_type: "chrono::DateTime<chrono::Utc>" })
    } else if oid == 2950 {
        Some(TypeInfo { pg_name: "uuid", rust_type: "uuid::Uuid" })
    } else if oid == 2951 {
        Some(TypeInfo { pg_name: "uuid[]", rust_type: "Vec<uuid::Uuid>" })
    } else if oid == 3802 {
        Some(TypeInfo { pg_name: "jsonb", rust_type: "serde_json::Value" })
    } else if oid == 3807 {
        Some(TypeInfo { pg_name: "jsonb[]", rust_type: "Vec<serde_json::Value>" })
    } else {
        None
    }
}

/// The names of the supported types, by their numbers.
pub open spec fn supported_text() -> Seq<char> {
    "bool, bytea, int8, int2, int4, text, oid, json, float4, float8, bool[], int2[], int4[], text[], int8[], float4[], float8[], bpchar, varchar, date, time, timestamp, timestamptz, uuid, uuid[], jsonb, jsonb[]"@
}

/// The names of the supported types, by their numbers.
pub fn supported_type_names() -> (r: &'static str)
    ensures
        r@ == supported_text(),
{
    "bool, bytea, int8, int2, int4, text, oid, json, float4, float8, bool[], int2[], int4[], text[], int8[], float4[], float8[], bpchar, varchar, date, time, timestamp, timestamptz, uuid, uuid[], jsonb, jsonb[]"
}

} // verus!
