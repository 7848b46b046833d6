use mpe_plugin_grpc::call::{build_error_output, fail_result};
use mpe_plugin_grpc::config::CallConfig;
use mpe_plugin_grpc::connect::build_close_output;
use mpe_plugin_grpc::json::{JsonNumber, JsonValue};
use mpe_plugin_grpc::plugin::{node_kind, unknown_node_message, validate, Locale};
use mpe_plugin_grpc::pool::GrpcPool;
use mpe_plugin_grpc::types::GrpcPattern;

fn to_json(v: &serde_json::Value) -> JsonValue {
    match v {
        serde_json::Value::Null => JsonValue::Null,
        serde_json::Value::Bool(b) => JsonValue::Bool(*b),
        serde_json::Value::Number(n) => match (n.as_u64(), n.as_i64()) {
            (Some(u), _) => JsonValue::Number(JsonNumber::PosInt(u)),
            (None, Some(i)) => JsonValue::Number(JsonNumber::NegInt(i)),
            _ => JsonValue::Number(JsonNumber::Float(n.to_string())),
        },
        serde_json::Value::String(s) => JsonValue::Str(s.clone()),
        serde_json::Value::Array(a) => JsonValue::Array(a.iter().map(to_json).collect()),
        serde_json::Value::Object(m) => JsonValue::Object(m.iter().map(|(k, v)| (k.clone(), to_json(v))).collect()),
    }
}

fn to_serde(v: &JsonValue) -> serde_json::Value {
    match v {
        JsonValue::Null => serde_json::Value::Null,
        JsonValue::Bool(b) => serde_json::Value::Bool(*b),
        JsonValue::Number(JsonNumber::PosInt(u)) => serde_json::Value::from(*u),
        JsonValue::Number(JsonNumber::NegInt(i)) => serde_json::Value::from(*i),
        JsonValue::Number(JsonNumber::Float(s)) => serde_json::from_str(s).unwrap_or(serde_json::Value::Null),
        JsonValue::Str(s) => serde_json::Value::String(s.clone()),
        JsonValue::Array(items) => serde_json::Value::Array(items.iter().map(to_serde).collect()),
        JsonValue::Object(pairs) => {
            let mut m = serde_json::Map::new();
            for (k, v) in pairs {
                m.insert(k.clone(), to_serde(v));
            }
            serde_json::Value::Object(m)
        }
    }
}

fn doc(text: &str) -> JsonValue {
    to_json(&serde_json::from_str(text).unwrap_or_else(|e| panic!("bad test JSON: {e}")))
}

#[test]
fn call_without_connect_fails_offline() {
    let pool: GrpcPool<(), ()> = GrpcPool::new();
    let config = match CallConfig::from_value(&doc(
        r#"{ "type": "grpc:call", "connection_id": "never-connected", "service_name": "echo.EchoService", "method_name": "Unary", "request_json": "{}" }"#,
    )) {
        Ok(c) => c,
        Err(e) => panic!("parse: {e}"),
    };
    let message = match pool.lookup("exec-1", config.connection_id.as_str()) {
        Ok(_) => panic!("nothing was connected"),
        Err(e) => e,
    };
    let report = build_error_output(&config, GrpcPattern::Unary, &message, vec![], 0, 0);
    let result = fail_result(message, report);
    assert!(!result.success);
    let serialized = serde_json::to_string(&to_serde(result.report_data.as_ref().expect("report"))).unwrap_or_default();
    assert!(serialized.contains("does not exist"));
    assert!(result.errors[0].contains("does not exist"));
}

#[test]
fn unknown_node_type_fails() {
    assert_eq!(node_kind("grpc:totally_unknown"), None);
    let message = unknown_node_message(Locale::En, "grpc:totally_unknown");
    assert!(message.contains("Unknown node type"));
}

#[test]
fn close_without_connect_fails() {
    let mut pool: GrpcPool<(), ()> = GrpcPool::new();
    let error = match pool.close("exec-1", "never-connected") {
        Ok(()) => panic!("nothing was connected"),
        Err(e) => e,
    };
    let report = to_serde(&build_close_output("never-connected", 0, 0, Some(error.as_str())));
    assert_eq!(report["success"], false);
    let serialized = serde_json::to_string(&report).unwrap_or_default();
    assert!(serialized.contains("does not exist"));
}

#[test]
fn roundtrip_validate_rules() {
    let l = Locale::En;
    assert!(validate(&doc(r#"{ "type": "grpc:connect", "url": "" }"#), l).is_err());
    assert!(validate(&doc(r#"{ "type": "grpc:connect", "url": "localhost:50051" }"#), l).is_ok());
    assert!(validate(&doc(r#"{ "type": "grpc:call", "connection_id": "", "service_name": "s", "method_name": "m" }"#), l).is_err());
    assert!(validate(&doc(r#"{ "type": "grpc:call", "connection_id": "c1", "service_name": "s", "method_name": "m" }"#), l).is_ok());
}
