use mpe_plugin_grpc::definitions::{get_message_definitions, has_path_between};
use mpe_plugin_grpc::json::{JsonNumber, JsonValue};
use mpe_plugin_grpc::proto_parser::{generate_json_skeleton, parse_descriptor_set, ProtoParseError, generate_skeleton_from_pool, list_services};
use mpe_plugin_grpc::schema::{
    find_message, has_unique_message_names, locate_method, Cardinality, EnumDesc, FieldDesc, FieldKind, MessageDesc, MethodDesc, ProtoSchema, ServiceDesc,
};
use mpe_plugin_grpc::types::{GrpcEnumValue, GrpcMessageInfo, GrpcOneofInfo};
use mpe_plugin_grpc::validation::{validate_request_json, ValidationResult};

use prost_reflect::{DescriptorPool, Kind};
use protox::file::{ChainFileResolver, File, FileResolver, GoogleFileResolver};

const TEST_PROTO: &str = r#"
syntax = "proto3";

package test;

service TestService {
  rpc GetUser(GetUserRequest) returns (GetUserResponse);
  rpc ListUsers(ListUsersRequest) returns (stream User);
}

message GetUserRequest {
  string user_id = 1;
}

message GetUserResponse {
  string user_id = 1;
  string name = 2;
  int32 age = 3;
}

message ListUsersRequest {
  int32 page_size = 1;
}

message User {
  string id = 1;
  string name = 2;
}
"#;

const TEST_DEFINITIONS_PROTO: &str = r#"
syntax = "proto3";
package testdef;

import "google/protobuf/timestamp.proto";

enum Priority {
  PRIORITY_UNSPECIFIED = 0;
  LOW = 1;
  HIGH = 2;
}

message SimpleMessage {
  string name = 1;
  int32 age = 2;
  bool active = 3;
  double score = 4;
  bytes data = 5;
}

message WithEnum {
  Priority priority = 1;
}

message WithOneof {
  string name = 1;
  oneof payload {
    string text_value = 2;
    int32 number_value = 3;
  }
}

message WithMap {
  map<string, string> labels = 1;
}

message EmptyMessage {
}

message NestedOuter {
  string id = 1;
  message Inner {
    string value = 1;
    int32 count = 2;
  }
  Inner inner = 2;
}

message WithWkt {
  google.protobuf.Timestamp created_at = 1;
  string description = 2;
}
"#;

const TEST_CIRCULAR_PROTO: &str = r#"
syntax = "proto3";
package circref;

message CircularA {
  string name = 1;
  CircularB b = 2;
}

message CircularB {
  string name = 1;
  CircularA a = 2;
}
"#;

/// Proto sources held in memory.
struct MemoryFiles(Vec<(String, String)>);

impl FileResolver for MemoryFiles {
    fn open_file(&self, name: &str) -> Result<File, protox::Error> {
        match self.0.iter().find(|(n, _)| n == name) {
            Some((n, source)) => File::from_source(n, source),
            None => Err(protox::Error::file_not_found(name)),
        }
    }
}

fn compile(name: &str, source: &str) -> DescriptorPool {
    let mut resolver = ChainFileResolver::new();
    resolver.add(MemoryFiles(vec![(name.to_string(), source.to_string())]));
    resolver.add(GoogleFileResolver::new());
    let mut compiler = protox::Compiler::with_file_resolver(resolver);
    compiler.open_file(name).unwrap_or_else(|e| panic!("compiling {name} should succeed: {e}"));
    compiler.descriptor_pool()
}

fn kind_of(kind: Kind) -> FieldKind {
    match kind {
        Kind::Double => FieldKind::Double,
        Kind::Float => FieldKind::Float,
        Kind::Int32 => FieldKind::Int32,
        Kind::Int64 => FieldKind::Int64,
        Kind::Uint32 => FieldKind::Uint32,
        Kind::Uint64 => FieldKind::Uint64,
        Kind::Sint32 => FieldKind::Sint32,
        Kind::Sint64 => FieldKind::Sint64,
        Kind::Fixed32 => FieldKind::Fixed32,
        Kind::Fixed64 => FieldKind::Fixed64,
        Kind::Sfixed32 => FieldKind::Sfixed32,
        Kind::Sfixed64 => FieldKind::Sfixed64,
        Kind::Bool => FieldKind::Bool,
        Kind::String => FieldKind::Str,
        Kind::Bytes => FieldKind::Bytes,
        Kind::Enum(e) => FieldKind::Enum(e.full_name().to_string()),
        Kind::Message(m) => FieldKind::Message(m.full_name().to_string()),
    }
}

fn schema_of(pool: &DescriptorPool) -> ProtoSchema {
    let messages = pool
        .all_messages()
        .map(|m| MessageDesc {
            full_name: m.full_name().to_string(),
            fields: m
                .fields()
                .map(|f| FieldDesc {
                    name: f.name().to_string(),
                    number: f.number(),
                    cardinality: match f.cardinality() {
                        prost_reflect::Cardinality::Optional => Cardinality::Optional,
                        prost_reflect::Cardinality::Required => Cardinality::Required,
                        prost_reflect::Cardinality::Repeated => Cardinality::Repeated,
                    },
                    kind: kind_of(f.kind()),
                    is_map: f.is_map(),
                })
                .collect(),
            oneofs: m
                .oneofs()
                .map(|o| GrpcOneofInfo {
                    name: o.name().to_string(),
                    field_numbers: o.fields().map(|f| f.number()).collect(),
                })
                .collect(),
            is_map_entry: m.is_map_entry(),
        })
        .collect();
    let enums = pool
        .all_enums()
        .map(|e| EnumDesc {
            full_name: e.full_name().to_string(),
            values: e.values().map(|v| GrpcEnumValue { name: v.name().to_string(), number: v.number() }).collect(),
        })
        .collect();
    let services = pool
        .services()
        .map(|s| ServiceDesc {
            full_name: s.full_name().to_string(),
            methods: s
                .methods()
                .map(|m| MethodDesc {
                    name: m.name().to_string(),
                    input_type: m.input().full_name().to_string(),
                    output_type: m.output().full_name().to_string(),
                    is_client_streaming: m.is_client_streaming(),
                    is_server_streaming: m.is_server_streaming(),
                })
                .collect(),
        })
        .collect();
    ProtoSchema { messages, enums, services }
}

fn schema(name: &str, source: &str) -> ProtoSchema {
    schema_of(&compile(name, source))
}

fn test_pool() -> ProtoSchema {
    schema("test.proto", TEST_PROTO)
}

fn to_json(v: &serde_json::Value) -> JsonValue {
    match v {
        serde_json::Value::Null => JsonValue::Null,
        serde_json::Value::Bool(b) => JsonValue::Bool(*b),
        serde_json::Value::Number(n) => match (n.as_u64(), n.as_i64()) {
            (Some(u), _) => JsonValue::Number(JsonNumber::PosInt(u)),
            (None, Some(i)) => JsonValue::Number(JsonNumber::NegInt(i)),
            _ => JsonValue::Number(JsonNumber::Float(n.to_string())),
        },
        serde_json::Value::String(s) => JsonValue::Str(s.clone()),
        serde_json::Value::Array(a) => JsonValue::Array(a.iter().map(to_json).collect()),
        serde_json::Value::Object(m) => JsonValue::Object(m.iter().map(|(k, v)| (k.clone(), to_json(v))).collect()),
    }
}

/// The request text as the validator receives it: parsed, or the parser's error.
fn parsed(text: &str) -> Result<JsonValue, String> {
    serde_json::from_str::<serde_json::Value>(text).map(|v| to_json(&v)).map_err(|e| e.to_string())
}

fn validate(pool: &ProtoSchema, message: &str, text: &str) -> Result<ValidationResult, String> {
    validate_request_json(pool, message, parsed(text))
}

fn definition<'a>(defs: &'a [(String, GrpcMessageInfo)], name: &str) -> Option<&'a GrpcMessageInfo> {
    defs.iter().find(|(k, _)| k == name).map(|(_, v)| v)
}

fn to_serde(v: &JsonValue) -> serde_json::Value {
    match v {
        JsonValue::Null => serde_json::Value::Null,
        JsonValue::Bool(b) => serde_json::Value::Bool(*b),
        JsonValue::Number(JsonNumber::PosInt(u)) => serde_json::Value::from(*u),
        JsonValue::Number(JsonNumber::NegInt(i)) => serde_json::Value::from(*i),
        JsonValue::Number(JsonNumber::Float(s)) => serde_json::from_str(s).unwrap_or(serde_json::Value::Null),
        JsonValue::Str(s) => serde_json::Value::String(s.clone()),
        JsonValue::Array(items) => serde_json::Value::Array(items.iter().map(to_serde).collect()),
        JsonValue::Object(pairs) => {
            let mut m = serde_json::Map::new();
            for (k, v) in pairs {
                m.insert(k.clone(), to_serde(v));
            }
            serde_json::Value::Object(m)
        }
    }
}

fn members(v: &JsonValue) -> Vec<String> {
    match v {
        JsonValue::Object(pairs) => pairs.iter().map(|(k, _)| k.clone()).collect(),
        _ => panic!("expected a JSON object"),
    }
}

#[test]
fn test_list_services() {
    let pool = test_pool();
    let services = list_services(&pool);

    assert_eq!(services.len(), 1);
    let service = &services[0];
    assert_eq!(service.service_name, "test.TestService");
    assert_eq!(service.methods.len(), 2);

    let get_user = service.methods.iter().find(|m| m.method_name == "GetUser").expect("GetUser");
    assert_eq!(get_user.input_type, "test.GetUserRequest");
    assert_eq!(get_user.output_type, "test.GetUserResponse");
    assert!(!get_user.is_server_streaming);

    let list_users = service.methods.iter().find(|m| m.method_name == "ListUsers").expect("ListUsers");
    assert_eq!(list_users.input_type, "test.ListUsersRequest");
    assert_eq!(list_users.output_type, "test.User");
    assert!(list_users.is_server_streaming);
}

#[test]
fn test_generate_json_skeleton() {
    let pool = test_pool();
    let mi = find_message(&pool, "test.GetUserRequest").expect("GetUserRequest");
    let skeleton = generate_json_skeleton(&pool, mi);
    assert!(skeleton.is_object());
    assert!(members(&skeleton).contains(&"user_id".to_string()));
}

#[test]
fn test_multi_file_with_import() {
    let main_proto = r#"
syntax = "proto3";

package myapp;

service OrderService {
  rpc CreateOrder(CreateOrderRequest) returns (CreateOrderResponse);
}

message CreateOrderRequest {
  string product_id = 1;
  int32 quantity = 2;
}

message CreateOrderResponse {
  string order_id = 1;
  Status status = 2;
}

message Status {
  int32 code = 1;
  string message = 2;
}
"#;
    let pool = schema("order.proto", main_proto);
    let services = list_services(&pool);
    assert_eq!(services.len(), 1);
    assert_eq!(services[0].service_name, "myapp.OrderService");
    assert_eq!(services[0].methods.len(), 1);

    let mi = find_message(&pool, "myapp.CreateOrderResponse").expect("CreateOrderResponse");
    let skeleton = generate_json_skeleton(&pool, mi);
    assert!(skeleton.is_object());
    let keys = members(&skeleton);
    assert!(keys.contains(&"order_id".to_string()));
    assert!(keys.contains(&"status".to_string()));
}

#[test]
fn skeleton_placeholders_follow_field_types() {
    let pool = test_pool();
    let skeleton = generate_skeleton_from_pool(&pool, "test.TestService", "ListUsers").expect("skeleton");
    let expected: serde_json::Value = serde_json::from_str(r#"{"page_size": 0}"#).expect("json");
    assert_eq!(to_serde(&skeleton), expected);

    let nested = schema("order.proto", "syntax = \"proto3\"; package p; service S { rpc M(A) returns (A); } enum E { Z = 0; O = 1; } message B { repeated string tags = 1; bool ok = 2; } message A { B b = 1; E e = 2; map<string, int32> m = 3; bytes raw = 4; }");
    let skeleton = generate_skeleton_from_pool(&nested, "p.S", "M").expect("skeleton");
    let expected: serde_json::Value =
        serde_json::from_str(r#"{"b": {"tags": [], "ok": false}, "e": 0, "m": {}, "raw": ""}"#).expect("json");
    assert_eq!(to_serde(&skeleton), expected);
    assert_eq!(members(&skeleton), vec!["b", "e", "m", "raw"]);
}

#[test]
fn skeleton_lookup_errors() {
    let pool = test_pool();
    assert_eq!(
        generate_skeleton_from_pool(&pool, "test.Nope", "GetUser").err(),
        Some("service not found: test.Nope".to_string())
    );
    assert_eq!(
        generate_skeleton_from_pool(&pool, "test.TestService", "Nope").err(),
        Some("method not found in service test.TestService: Nope".to_string())
    );
}

#[test]
fn test_validate_valid_json() {
    let pool = test_pool();
    let vr = validate(&pool, "test.GetUserRequest", r#"{"user_id": "abc"}"#).expect("result");
    assert!(vr.valid);
    assert!(vr.errors.is_empty());
}

#[test]
fn test_validate_json_syntax_error() {
    let pool = test_pool();
    let result = validate(&pool, "test.GetUserRequest", r#"{invalid}"#);
    assert!(result.is_err());
}

#[test]
fn test_validate_unknown_message() {
    let pool = test_pool();
    let result = validate(&pool, "test.NonExistent", r#"{}"#);
    assert!(result.is_err());
    assert_eq!(result.err(), Some("message type not found: test.NonExistent".to_string()));
}

#[test]
fn test_validate_non_object() {
    let pool = test_pool();
    let vr = validate(&pool, "test.GetUserRequest", r#"[1,2,3]"#).expect("result");
    assert!(!vr.valid);
    assert_eq!(vr.errors.len(), 1);
    assert!(vr.errors[0].message.contains("expected JSON object"));
}

#[test]
fn test_validate_unknown_field() {
    let pool = test_pool();
    let vr = validate(&pool, "test.GetUserRequest", r#"{"user_id": "abc", "unknown_field": 123}"#).expect("result");
    assert!(!vr.valid);
    assert!(vr.errors.iter().any(|e| e.path == "unknown_field" && e.message.contains("unknown field")));
}

#[test]
fn test_validate_type_mismatch() {
    let pool = test_pool();
    let vr = validate(&pool, "test.GetUserResponse", r#"{"user_id": 123, "name": "test", "age": "not_a_number"}"#)
        .expect("result");
    assert!(!vr.valid);
    assert_eq!(vr.errors.len(), 2);
    assert!(vr.errors.iter().any(|e| e.path == "user_id"));
    assert!(vr.errors.iter().any(|e| e.path == "age"));
}

#[test]
fn test_validate_nested_message() {
    let proto = r#"
syntax = "proto3";
package nested;

message Address {
  string street = 1;
  int32 zip = 2;
}

message Person {
  string name = 1;
  Address address = 2;
}
"#;
    let pool = schema("nested.proto", proto);
    let vr = validate(&pool, "nested.Person", r#"{"name": "Alice", "address": {"street": 123, "zip": "abc"}}"#)
        .expect("result");
    assert!(!vr.valid);
    assert!(vr.errors.iter().any(|e| e.path == "address.street"));
    assert!(vr.errors.iter().any(|e| e.path == "address.zip"));

    let vr2 = validate(&pool, "nested.Person", r#"{"name": "Alice", "address": {"street": "Main St", "zip": 12345}}"#)
        .expect("result");
    assert!(vr2.valid);
}

#[test]
fn test_validate_empty_object() {
    let pool = test_pool();
    let vr = validate(&pool, "test.GetUserRequest", r#"{}"#).expect("result");
    assert!(vr.valid);
}

#[test]
fn test_validate_null_values() {
    let pool = test_pool();
    let vr = validate(&pool, "test.GetUserResponse", r#"{"user_id": null, "name": null, "age": null}"#).expect("result");
    assert!(vr.valid);
}

#[test]
fn test_validate_repeated_field() {
    let proto = r#"
syntax = "proto3";
package rep;

message ItemList {
  repeated string items = 1;
  repeated int32 counts = 2;
}
"#;
    let pool = schema("rep.proto", proto);
    let vr = validate(&pool, "rep.ItemList", r#"{"items": ["a", "b"], "counts": [1, 2]}"#).expect("result");
    assert!(vr.valid);
    let vr2 = validate(&pool, "rep.ItemList", r#"{"items": "not_array"}"#).expect("result");
    assert!(!vr2.valid);
}

#[test]
fn test_validate_map_field() {
    let proto = r#"
syntax = "proto3";
package maptest;

message Config {
  map<string, string> labels = 1;
}
"#;
    let pool = schema("maptest.proto", proto);
    let vr = validate(&pool, "maptest.Config", r#"{"labels": {"key": "value"}}"#).expect("result");
    assert!(vr.valid);
    let vr2 = validate(&pool, "maptest.Config", r#"{"labels": [1,2]}"#).expect("result");
    assert!(!vr2.valid);
}

#[test]
fn test_validate_enum_field() {
    let proto = r#"
syntax = "proto3";
package enumtest;

enum Status {
  UNKNOWN = 0;
  ACTIVE = 1;
}

message User {
  Status status = 1;
}
"#;
    let pool = schema("enumtest.proto", proto);
    assert!(validate(&pool, "enumtest.User", r#"{"status": "ACTIVE"}"#).expect("result").valid);
    assert!(validate(&pool, "enumtest.User", r#"{"status": 1}"#).expect("result").valid);
    assert!(!validate(&pool, "enumtest.User", r#"{"status": [1]}"#).expect("result").valid);
}

#[test]
fn validation_findings_are_exact() {
    let pool = test_pool();
    let vr = validate(&pool, "test.GetUserResponse", r#"{"age": "x", "zzz": 1}"#).expect("result");
    let found: Vec<(String, String)> = vr.errors.iter().map(|e| (e.path.clone(), e.message.clone())).collect();
    assert_eq!(found.len(), 2);
    assert_eq!(found[0].0, "age");
    assert_eq!(found[1].0, "zzz");
    assert!(found[1].1.contains("unknown field"));
}

#[test]
fn test_get_message_definitions_simple() {
    let pool = schema("testdef.proto", TEST_DEFINITIONS_PROTO);
    let defs = get_message_definitions(&pool);
    let simple = definition(&defs, "testdef.SimpleMessage").expect("SimpleMessage");
    assert_eq!(simple.fields.len(), 5);
    assert!(!simple.is_wkt);

    let name_f = simple.fields.iter().find(|f| f.name == "name").expect("name");
    assert_eq!(name_f.number, 1);
    assert_eq!(name_f.type_kind, "string");
    assert_eq!(name_f.type_display, "string");
    assert_eq!(name_f.label, "optional");
    assert!(!name_f.is_map);

    let age_f = simple.fields.iter().find(|f| f.name == "age").expect("age");
    assert_eq!(age_f.number, 2);
    assert_eq!(age_f.type_kind, "int32");
    assert_eq!(age_f.type_display, "int32");

    let active_f = simple.fields.iter().find(|f| f.name == "active").expect("active");
    assert_eq!(active_f.number, 3);
    assert_eq!(active_f.type_kind, "bool");

    let score_f = simple.fields.iter().find(|f| f.name == "score").expect("score");
    assert_eq!(score_f.number, 4);
    assert_eq!(score_f.type_kind, "double");

    let data_f = simple.fields.iter().find(|f| f.name == "data").expect("data");
    assert_eq!(data_f.number, 5);
    assert_eq!(data_f.type_kind, "bytes");
}

#[test]
fn test_get_message_definitions_enum() {
    let pool = schema("testdef.proto", TEST_DEFINITIONS_PROTO);
    let defs = get_message_definitions(&pool);
    let with_enum = definition(&defs, "testdef.WithEnum").expect("WithEnum");
    assert_eq!(with_enum.fields.len(), 1);

    let f = &with_enum.fields[0];
    assert_eq!(f.name, "priority");
    assert_eq!(f.number, 1);
    assert_eq!(f.type_kind, "enum");
    assert_eq!(f.type_full_name.as_deref(), Some("testdef.Priority"));
    assert_eq!(f.enum_values.len(), 3);
    assert_eq!(f.enum_values[0].name, "PRIORITY_UNSPECIFIED");
    assert_eq!(f.enum_values[0].number, 0);
    assert_eq!(f.enum_values[1].name, "LOW");
    assert_eq!(f.enum_values[1].number, 1);
    assert_eq!(f.enum_values[2].name, "HIGH");
    assert_eq!(f.enum_values[2].number, 2);
    assert!(f.enum_values.iter().all(|v| !v.name.is_empty()));
}

#[test]
fn test_get_message_definitions_oneof() {
    let pool = schema("testdef.proto", TEST_DEFINITIONS_PROTO);
    let defs = get_message_definitions(&pool);
    let with_oneof = definition(&defs, "testdef.WithOneof").expect("WithOneof");
    assert_eq!(with_oneof.oneof_groups.len(), 1);
    let payload = &with_oneof.oneof_groups[0];
    assert_eq!(payload.name, "payload");
    assert_eq!(payload.field_numbers.len(), 2);
    assert!(payload.field_numbers.contains(&2));
    assert!(payload.field_numbers.contains(&3));
    assert!(!payload.field_numbers.contains(&1));
}

#[test]
fn test_get_message_definitions_map() {
    let pool = schema("testdef.proto", TEST_DEFINITIONS_PROTO);
    let defs = get_message_definitions(&pool);
    let with_map = definition(&defs, "testdef.WithMap").expect("WithMap");
    assert_eq!(with_map.fields.len(), 1);
    let labels_f = &with_map.fields[0];
    assert_eq!(labels_f.name, "labels");
    assert!(labels_f.is_map);
    assert_eq!(labels_f.type_kind, "map");
    assert_eq!(labels_f.type_display, "map<string, string>");
    assert_eq!(labels_f.map_key_type.as_deref(), Some("string"));
    assert_eq!(labels_f.map_value_type.as_deref(), Some("string"));
    assert!(labels_f.enum_values.is_empty());
    assert!(labels_f.nested_message.is_none());
}

#[test]
fn test_get_message_definitions_wkt() {
    let pool = schema("testdef.proto", TEST_DEFINITIONS_PROTO);
    let defs = get_message_definitions(&pool);
    let with_wkt = definition(&defs, "testdef.WithWkt").expect("WithWkt");
    assert_eq!(with_wkt.fields.len(), 2);

    let ts_f = with_wkt.fields.iter().find(|f| f.name == "created_at").expect("created_at");
    assert_eq!(ts_f.type_kind, "message");
    assert_eq!(ts_f.type_full_name.as_deref(), Some("google.protobuf.Timestamp"));
    assert!(ts_f.nested_message.is_none());

    let desc_f = with_wkt.fields.iter().find(|f| f.name == "description").expect("description");
    assert_eq!(desc_f.type_kind, "string");

    let ts_msg = definition(&defs, "google.protobuf.Timestamp");
    assert!(ts_msg.is_some());
    assert!(ts_msg.expect("Timestamp").is_wkt);
}

#[test]
fn test_get_message_definitions_empty_message() {
    let pool = schema("testdef.proto", TEST_DEFINITIONS_PROTO);
    let defs = get_message_definitions(&pool);
    let empty = definition(&defs, "testdef.EmptyMessage").expect("EmptyMessage");
    assert!(empty.fields.is_empty());
    assert!(empty.oneof_groups.is_empty());
    assert!(!empty.is_wkt);
}

#[test]
fn test_get_message_definitions_nested_message() {
    let pool = schema("testdef.proto", TEST_DEFINITIONS_PROTO);
    let defs = get_message_definitions(&pool);
    let outer = definition(&defs, "testdef.NestedOuter").expect("NestedOuter");
    assert_eq!(outer.fields.len(), 2);

    let id_f = outer.fields.iter().find(|f| f.name == "id").expect("id");
    assert_eq!(id_f.type_kind, "string");

    let inner_f = outer.fields.iter().find(|f| f.name == "inner").expect("inner");
    assert_eq!(inner_f.type_kind, "message");
    assert_eq!(inner_f.type_full_name.as_deref(), Some("testdef.NestedOuter.Inner"));

    let nested = inner_f.nested_message.as_ref().expect("nested_message");
    assert_eq!(nested.full_name, "testdef.NestedOuter.Inner");
    assert_eq!(nested.fields.len(), 2);
    assert!(nested.fields.iter().any(|f| f.name == "value"));
    assert!(nested.fields.iter().any(|f| f.name == "count"));

    let inner_def = definition(&defs, "testdef.NestedOuter.Inner").expect("Inner");
    assert_eq!(inner_def.fields.len(), 2);
}

#[test]
fn test_get_message_definitions_filters_synthetic() {
    let reflected = compile("testdef.proto", TEST_DEFINITIONS_PROTO);
    let pool = schema_of(&reflected);
    let defs = get_message_definitions(&pool);
    assert!(definition(&defs, "testdef.WithMap").is_some());
    for msg in reflected.all_messages() {
        if msg.is_map_entry() {
            assert!(definition(&defs, msg.full_name()).is_none());
        }
    }
    assert!(definition(&defs, "testdef.WithMap.LabelsEntry").is_none());
}

#[test]
fn test_get_message_definitions_circular_ref() {
    let pool = schema("circular.proto", TEST_CIRCULAR_PROTO);
    let defs = get_message_definitions(&pool);

    let circular_a = definition(&defs, "circref.CircularA").expect("CircularA");
    assert_eq!(circular_a.fields.len(), 2);
    let name_f = circular_a.fields.iter().find(|f| f.name == "name").expect("name");
    assert_eq!(name_f.type_kind, "string");
    let b_f = circular_a.fields.iter().find(|f| f.name == "b").expect("b");
    assert_eq!(b_f.type_kind, "circular_ref");
    assert_eq!(b_f.type_full_name.as_deref(), Some("circref.CircularB"));
    assert!(b_f.nested_message.is_none());

    let circular_b = definition(&defs, "circref.CircularB").expect("CircularB");
    assert_eq!(circular_b.fields.len(), 2);
    let a_f = circular_b.fields.iter().find(|f| f.name == "a").expect("a");
    assert_eq!(a_f.type_kind, "circular_ref");
    assert_eq!(a_f.type_full_name.as_deref(), Some("circref.CircularA"));
    assert!(a_f.nested_message.is_none());
}

#[test]
fn definitions_keys_are_unique_and_in_pool_order() {
    let pool = schema("testdef.proto", TEST_DEFINITIONS_PROTO);
    let defs = get_message_definitions(&pool);
    let keys: Vec<&str> = defs.iter().map(|(k, _)| k.as_str()).collect();
    let mut sorted = keys.clone();
    sorted.sort();
    sorted.dedup();
    assert_eq!(sorted.len(), keys.len());
    let expected: Vec<&str> = pool
        .messages
        .iter()
        .filter(|m| !m.is_map_entry)
        .map(|m| m.full_name.as_str())
        .collect();
    assert_eq!(keys, expected);
    for (k, v) in &defs {
        assert_eq!(k, &v.full_name);
    }
}

#[test]
fn repeated_fields_carry_the_label_prefix() {
    let pool = schema("r.proto", "syntax = \"proto3\"; package r; enum E { A = 0; } message M { repeated E es = 1; repeated sint64 ns = 2; repeated M ms = 3; }");
    let defs = get_message_definitions(&pool);
    let m = definition(&defs, "r.M").expect("M");
    assert_eq!(m.fields[0].type_display, "repeated r.E");
    assert_eq!(m.fields[0].label, "repeated");
    assert_eq!(m.fields[1].type_kind, "int64");
    assert_eq!(m.fields[1].type_display, "repeated int64");
    assert_eq!(m.fields[2].type_kind, "circular_ref");
    assert_eq!(m.fields[2].type_display, "repeated r.M");
}

#[test]
fn message_names_are_unique_in_a_compiled_schema() {
    let mut pool = test_pool();
    assert!(has_unique_message_names(&pool));
    pool.messages.push(MessageDesc {
        full_name: "test.User".to_string(),
        fields: vec![],
        oneofs: vec![],
        is_map_entry: false,
    });
    assert!(!has_unique_message_names(&pool));
}

#[test]
fn methods_are_located_by_service_and_name() {
    let pool = test_pool();
    assert_eq!(locate_method(&pool, "test.TestService", "ListUsers"), Ok((0, 1)));
    assert_eq!(
        locate_method(&pool, "test.Missing", "ListUsers"),
        Err("service 'test.Missing' does not exist".to_string())
    );
    assert_eq!(
        locate_method(&pool, "test.TestService", "Nope"),
        Err("method 'Nope' does not exist in service 'test.TestService'".to_string())
    );
}

#[test]
fn test_parse_descriptor_set_invalid_data() {
    let result = parse_descriptor_set(b"not a valid descriptor set");
    assert!(result.is_err());
    match result {
        Err(ProtoParseError::ParseError(m)) => assert!(m.starts_with("failed to parse FileDescriptorSet: ")),
        _ => panic!("expected a parse error"),
    }
}

#[test]
fn test_parse_descriptor_set_empty_data() {
    let result = parse_descriptor_set(b"");
    assert!(result.is_ok());
    let pool = result.unwrap_or_else(|_| panic!("empty data decodes"));
    assert_eq!(pool.services().count(), 0);
}

#[test]
fn test_parse_descriptor_set_valid() {
    let mut resolver = ChainFileResolver::new();
    resolver.add(MemoryFiles(vec![("test.proto".to_string(), TEST_PROTO.to_string())]));
    resolver.add(GoogleFileResolver::new());
    let mut compiler = protox::Compiler::with_file_resolver(resolver);
    compiler.open_file("test.proto").unwrap_or_else(|e| panic!("compile: {e}"));
    let buf = compiler.encode_file_descriptor_set();
    let pool = parse_descriptor_set(&buf).unwrap_or_else(|_| panic!("decode should succeed"));
    let service = pool.get_service_by_name("test.TestService").expect("TestService");
    assert_eq!(service.name(), "TestService");
    assert_eq!(service.methods().count(), 2);
}

#[test]
fn skeleton_of_a_message_that_contains_itself() {
    let pool = schema(
        "node.proto",
        "syntax = \"proto3\"; package p; service S { rpc M(Node) returns (Node); } message Node { string id = 1; Node next = 2; repeated Node kids = 3; }",
    );
    let skeleton = generate_skeleton_from_pool(&pool, "p.S", "M").expect("skeleton");
    let expected: serde_json::Value = serde_json::from_str(r#"{"id": "", "next": {}, "kids": []}"#).expect("json");
    assert_eq!(to_serde(&skeleton), expected);

    let pair = schema(
        "pair.proto",
        "syntax = \"proto3\"; package q; message A { B b = 1; int32 x = 2; } message B { A a = 1; }",
    );
    let mi = find_message(&pair, "q.A").expect("A");
    let expected: serde_json::Value = serde_json::from_str(r#"{"b": {"a": {}}, "x": 0}"#).expect("json");
    assert_eq!(to_serde(&generate_json_skeleton(&pair, mi)), expected);
}

#[test]
fn paths_between_definitions_by_name() {
    let pool = schema(
        "paths.proto",
        "syntax = \"proto3\"; package q; message A { B b = 1; } message B { A a = 1; C c = 2; } message C { int32 x = 1; }",
    );
    let defs = get_message_definitions(&pool);
    assert!(has_path_between(&defs, "q.A", "q.B"));
    assert!(has_path_between(&defs, "q.A", "q.C"));
    assert!(has_path_between(&defs, "q.B", "q.A"));
    assert!(!has_path_between(&defs, "q.C", "q.A"));
    assert!(has_path_between(&defs, "q.Missing", "q.Missing"));
    assert!(!has_path_between(&defs, "q.Missing", "q.A"));
    assert!(!has_path_between(&defs, "q.A", "q.Missing"));
}
