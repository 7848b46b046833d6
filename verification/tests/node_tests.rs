use mpe_plugin_grpc::config::{metadata_from_value, CallConfig, ConnectConfig};
use mpe_plugin_grpc::connect::{
    additional_endpoints, build_close_output, build_connect_error_output, close_target_ok, proto_failure,
    schema_source, url_with_scheme, SchemaSource,
};
use mpe_plugin_grpc::helpers::{build_method_path, merge_metadata, parse_compression, resolve_compression, Compression};
use mpe_plugin_grpc::json::{JsonNumber, JsonValue};
use mpe_plugin_grpc::plugin::{node_kind, operation_ports, t, unknown_node_message, validate, Locale, NodeKind};
use mpe_plugin_grpc::tls::{balanced_endpoints, tls_mode, TlsMode};
use mpe_plugin_grpc::types::GrpcPattern;

fn to_json(v: &serde_json::Value) -> JsonValue {
    match v {
        serde_json::Value::Null => JsonValue::Null,
        serde_json::Value::Bool(b) => JsonValue::Bool(*b),
        serde_json::Value::Number(n) => match (n.as_u64(), n.as_i64()) {
            (Some(u), _) => JsonValue::Number(JsonNumber::PosInt(u)),
            (None, Some(i)) => JsonValue::Number(JsonNumber::NegInt(i)),
            _ => JsonValue::Number(JsonNumber::Float(n.to_string())),
        },
        serde_json::Value::String(s) => JsonValue::Str(s.clone()),
        serde_json::Value::Array(a) => JsonValue::Array(a.iter().map(to_json).collect()),
        serde_json::Value::Object(m) => JsonValue::Object(m.iter().map(|(k, v)| (k.clone(), to_json(v))).collect()),
    }
}

fn doc(text: &str) -> JsonValue {
    to_json(&serde_json::from_str(text).unwrap_or_else(|e| panic!("bad test JSON: {e}")))
}

fn to_serde(v: &JsonValue) -> serde_json::Value {
    match v {
        JsonValue::Null => serde_json::Value::Null,
        JsonValue::Bool(b) => serde_json::Value::Bool(*b),
        JsonValue::Number(JsonNumber::PosInt(u)) => serde_json::Value::from(*u),
        JsonValue::Number(JsonNumber::NegInt(i)) => serde_json::Value::from(*i),
        JsonValue::Number(JsonNumber::Float(s)) => serde_json::from_str(s).unwrap_or(serde_json::Value::Null),
        JsonValue::Str(s) => serde_json::Value::String(s.clone()),
        JsonValue::Array(items) => serde_json::Value::Array(items.iter().map(to_serde).collect()),
        JsonValue::Object(pairs) => {
            let mut m = serde_json::Map::new();
            for (k, v) in pairs {
                m.insert(k.clone(), to_serde(v));
            }
            serde_json::Value::Object(m)
        }
    }
}

fn connect(text: &str) -> ConnectConfig {
    match ConnectConfig::from_value(&doc(text)) {
        Ok(c) => c,
        Err(e) => panic!("parse: {e}"),
    }
}

fn call(text: &str) -> CallConfig {
    match CallConfig::from_value(&doc(text)) {
        Ok(c) => c,
        Err(e) => panic!("parse: {e}"),
    }
}

#[test]
fn test_connect_config_from_value_defaults() {
    let cfg = connect(r#"{ "url": "localhost:50051" }"#);
    assert_eq!(cfg.url, "localhost:50051");
    assert_eq!(cfg.connect_timeout_ms, 30_000);
    assert!(!cfg.use_tls);
    assert!(cfg.proto_files.is_empty());
    assert!(cfg.default_metadata.is_empty());
    assert_eq!(cfg.max_retries, None);
}

#[test]
fn test_connect_config_from_value_full() {
    let cfg = connect(
        r#"{
            "url": "localhost:50051",
            "use_tls": true,
            "enable_reflection": true,
            "proto_files": [{"path": "a.proto", "content": "syntax = \"proto3\";"}],
            "default_metadata": [{"key": "k", "value": "v"}],
            "connect_timeout_ms": 5000,
            "endpoints": ["localhost:50052"],
            "max_retries": 3,
            "initial_backoff_ms": 200
        }"#,
    );
    assert!(cfg.use_tls);
    assert!(cfg.enable_reflection);
    assert_eq!(cfg.proto_files.len(), 1);
    assert_eq!(cfg.default_metadata, vec![("k".to_string(), "v".to_string())]);
    assert_eq!(cfg.connect_timeout_ms, 5000);
    assert_eq!(cfg.endpoints, Some(vec!["localhost:50052".to_string()]));
    assert_eq!(cfg.max_retries, Some(3));
    assert_eq!(cfg.initial_backoff_ms, Some(200));
}

#[test]
fn test_call_config_from_value() {
    let cfg = call(
        r#"{
            "connection_id": "conn-1",
            "service_name": "echo.Echo",
            "method_name": "Unary",
            "request_json": "{}",
            "timeout_ms": 1000,
            "metadata": [{"key": "a", "value": "b"}],
            "request_messages": [
                {"content": "{\"n\":1}", "enabled": true},
                {"content": "{\"n\":2}", "enabled": false}
            ],
            "max_retries": 2
        }"#,
    );
    assert_eq!(cfg.connection_id, "conn-1");
    assert_eq!(cfg.timeout_ms, 1000);
    assert_eq!(cfg.metadata, vec![("a".to_string(), "b".to_string())]);
    assert_eq!(
        cfg.request_messages,
        vec![("{\"n\":1}".to_string(), true), ("{\"n\":2}".to_string(), false)]
    );
    assert_eq!(cfg.max_retries, Some(2));
}

#[test]
fn test_call_config_default_timeout() {
    let cfg = call("{}");
    assert_eq!(cfg.timeout_ms, 30_000);
}

#[test]
fn config_members_of_the_wrong_type_take_defaults() {
    let cfg = connect(
        r#"{"url": 5, "use_tls": "yes", "connect_timeout_ms": -1, "endpoints": "x",
           "proto_files": [{"path": "a.proto"}, {"path": "b.proto", "content": "c"}],
           "max_retries": 4294967297}"#,
    );
    assert_eq!(cfg.url, "");
    assert!(!cfg.use_tls);
    assert_eq!(cfg.connect_timeout_ms, 30_000);
    assert_eq!(cfg.endpoints, None);
    assert_eq!(cfg.proto_files, vec![("b.proto".to_string(), "c".to_string())]);
    assert_eq!(cfg.max_retries, Some(1));
    let c = call(r#"{"request_messages": [{"content": "x"}, {"enabled": false}]}"#);
    assert_eq!(c.request_messages, vec![("x".to_string(), true)]);
}

#[test]
fn metadata_entries_need_string_key_and_value() {
    let v = doc(r#"[{"key": "a", "value": "1"}, {"key": "b"}, {"key": 3, "value": "x"}, {"key": "c", "value": "2"}]"#);
    assert_eq!(
        metadata_from_value(Some(&v)),
        vec![("a".to_string(), "1".to_string()), ("c".to_string(), "2".to_string())]
    );
    assert!(metadata_from_value(None).is_empty());
    assert!(metadata_from_value(Some(&doc(r#"{"key": "a"}"#))).is_empty());
}

#[test]
fn lib_validate_rules() {
    let l = Locale::En;
    assert!(validate(&doc(r#"{ "type": "grpc:connect", "url": "" }"#), l).is_err());
    assert!(validate(&doc(r#"{ "type": "grpc:connect", "url": "localhost:50051" }"#), l).is_ok());
    assert!(validate(&doc(r#"{ "type": "grpc:call", "connection_id": "c1", "service_name": "s", "method_name": "m" }"#), l).is_ok());
    assert!(validate(&doc(r#"{ "type": "grpc:call", "connection_id": "", "service_name": "s", "method_name": "m" }"#), l).is_err());
    assert!(validate(&doc(r#"{ "type": "grpc:call", "connection_id": "c1", "service_name": "", "method_name": "m" }"#), l).is_err());
    assert!(validate(&doc(r#"{ "type": "grpc:call", "connection_id": "c1", "service_name": "s", "method_name": "" }"#), l).is_err());
    assert!(validate(&doc(r#"{ "type": "grpc:close", "connection_id": "c1" }"#), l).is_ok());
    assert!(validate(&doc(r#"{ "type": "grpc:close", "connection_id": "" }"#), l).is_err());
    assert!(validate(&doc(r#"{ "type": "grpc:nope" }"#), l).is_err());
}

#[test]
fn validation_messages_follow_the_locale() {
    let bad = doc(r#"{ "type": "grpc:connect", "url": "   " }"#);
    assert_eq!(validate(&bad, Locale::En), Err("server URL is required".to_string()));
    assert_eq!(validate(&bad, Locale::Zh), Err("请填写服务器地址".to_string()));
    assert_eq!(validate(&doc(r#"{ "type": "x" }"#), Locale::En), Err("Unknown node type: `x`".to_string()));
    assert_eq!(unknown_node_message(Locale::En, "y"), "Unknown node type `y`");
    assert_eq!(t(Locale::Zh, "中", "en"), "中");
    assert_eq!(node_kind("grpc:call"), Some(NodeKind::Call));
    assert_eq!(node_kind("grpc:other"), None);
    let ports = operation_ports(Locale::En);
    assert_eq!(ports.len(), 3);
    assert_eq!(ports[1].id, "true");
    assert_eq!(ports[2].label, "Failure");
}

#[test]
fn test_grpc_pattern_from_method_info() {
    assert_eq!(GrpcPattern::from_method_info(false, false), GrpcPattern::Unary);
    assert_eq!(GrpcPattern::from_method_info(false, true), GrpcPattern::ServerStreaming);
    assert_eq!(GrpcPattern::from_method_info(true, false), GrpcPattern::ClientStreaming);
    assert_eq!(GrpcPattern::from_method_info(true, true), GrpcPattern::BidiStreaming);
}

#[test]
fn pattern_names() {
    assert_eq!(GrpcPattern::BidiStreaming.wire_name(), "bidi_streaming");
    assert_eq!(GrpcPattern::ServerStreaming.debug_lower(), "serverstreaming");
}

#[test]
fn scheme_is_added_once() {
    assert_eq!(url_with_scheme("localhost:1", false), "http://localhost:1");
    assert_eq!(url_with_scheme("localhost:1", true), "https://localhost:1");
    assert_eq!(url_with_scheme("http://h:1", true), "http://h:1");
    let once = url_with_scheme("h", true);
    assert_eq!(url_with_scheme(&once, false), once);
}

#[test]
fn blank_endpoints_are_dropped() {
    let e = Some(vec!["a:1".to_string(), "  ".to_string(), "".to_string(), "b:2".to_string()]);
    assert_eq!(additional_endpoints(&e), vec!["a:1".to_string(), "b:2".to_string()]);
    assert!(additional_endpoints(&None).is_empty());
}

#[test]
fn schema_source_rules() {
    assert!(matches!(schema_source(true, 0), Ok(SchemaSource::Reflection)));
    assert!(matches!(schema_source(true, 2), Ok(SchemaSource::ProtoFiles)));
    assert!(matches!(schema_source(false, 1), Ok(SchemaSource::ProtoFiles)));
    let e = schema_source(false, 0).err().unwrap_or_default();
    assert_eq!(e, "no proto files provided and Server Reflection not enabled, cannot discover services");
    assert_eq!(proto_failure("x"), "failed to parse proto files: x");
}

#[test]
fn connect_and_close_reports() {
    let cfg = connect(r#"{ "url": "h:1", "use_tls": true }"#);
    let err = to_serde(&build_connect_error_output("h:1", 3, 4, &cfg, "boom"));
    assert_eq!(err["success"], false);
    assert!(err["connection_id"].is_null());
    assert_eq!(err["request"]["use_tls"], true);
    assert_eq!(err["request"]["connect_timeout_ms"], 30000);
    assert_eq!(err["timing"]["connect_ms"], 3);
    assert_eq!(err["error"], "boom");
    let ok = to_serde(&build_close_output("c1", 1, 2, None));
    assert_eq!(ok["success"], true);
    assert_eq!(ok["request"]["connection_id"], "c1");
    assert!(ok.get("error").is_none());
    let bad = to_serde(&build_close_output("c1", 1, 2, Some("gone")));
    assert_eq!(bad["success"], false);
    assert_eq!(bad["error"], "gone");
    assert!(close_target_ok("c"));
    assert!(!close_target_ok("  "));
}

#[test]
fn call_metadata_overrides_defaults() {
    let defaults = vec![("a".to_string(), "1".to_string()), ("b".to_string(), "2".to_string())];
    let calls = vec![("b".to_string(), "3".to_string()), ("c".to_string(), "4".to_string())];
    assert_eq!(
        merge_metadata(&defaults, calls),
        vec![
            ("a".to_string(), "1".to_string()),
            ("b".to_string(), "3".to_string()),
            ("c".to_string(), "4".to_string())
        ]
    );
}

#[test]
fn method_paths() {
    assert_eq!(build_method_path("pkg.Svc", "Do"), Ok("/pkg.Svc/Do".to_string()));
    let bad = build_method_path("pkg Svc", "Do");
    assert!(bad.is_err());
    assert!(bad.err().unwrap_or_default().starts_with("Invalid gRPC path '/pkg Svc/Do': "));
}

#[test]
fn compression_choice() {
    assert!(parse_compression("GZip").is_some());
    assert!(parse_compression("deflate").is_none());
    assert_eq!(resolve_compression(Some("none"), Some("gzip")), None);
    assert_eq!(resolve_compression(Some("gzip"), None), Some(Compression::Gzip));
    assert_eq!(resolve_compression(None, Some("GZIP")), Some(Compression::Gzip));
    assert_eq!(resolve_compression(None, None), None);
}

#[test]
fn tls_modes() {
    assert_eq!(tls_mode(false, true, Some("ca"), None, None, None), TlsMode::Plaintext);
    assert_eq!(tls_mode(true, true, Some("ca"), None, None, None), TlsMode::SkipVerify);
    assert_eq!(tls_mode(true, false, None, None, None, Some("sni")), TlsMode::Custom);
    assert_eq!(tls_mode(true, false, None, None, None, None), TlsMode::Standard);
    let eps = vec!["b:2".to_string(), "https://c:3".to_string()];
    assert_eq!(
        balanced_endpoints("a:1", &eps, false, false, None, None, None, None),
        Ok(vec!["http://a:1".to_string(), "http://b:2".to_string(), "https://c:3".to_string()])
    );
    assert!(balanced_endpoints("a:1", &eps, true, true, None, None, None, None).is_err());
    assert!(balanced_endpoints("a:1", &eps, false, true, None, None, None, None).is_ok());
}
