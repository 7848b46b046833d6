use mpe_plugin_grpc::call::{
    bidi_outcome, build_error_output, build_success_output, calculate_backoff_ms, client_streaming_outcome,
    collect_last_wins, detect_pattern, early_failure, enabled_messages, fail_result, is_retryable_error,
    make_call_id, ok_result, plan_call, retry_decision, server_streaming_outcome, unary_outcome,
};
use mpe_plugin_grpc::call::{grpc_code_name, CallIds};
use mpe_plugin_grpc::config::CallConfig;
use mpe_plugin_grpc::error_detail::format_grpc_error;
use mpe_plugin_grpc::json::{JsonNumber, JsonValue};
use mpe_plugin_grpc::types::{
    GrpcErrorDetail, GrpcMethodInfo, GrpcPattern, GrpcServiceInfo, GrpcStreamingResult, GrpcTimingInfo,
};

fn to_serde(v: &JsonValue) -> serde_json::Value {
    match v {
        JsonValue::Null => serde_json::Value::Null,
        JsonValue::Bool(b) => serde_json::Value::Bool(*b),
        JsonValue::Number(JsonNumber::PosInt(u)) => serde_json::Value::from(*u),
        JsonValue::Number(JsonNumber::NegInt(i)) => serde_json::Value::from(*i),
        JsonValue::Number(JsonNumber::Float(s)) => serde_json::from_str(s).unwrap_or(serde_json::Value::Null),
        JsonValue::Str(s) => serde_json::Value::String(s.clone()),
        JsonValue::Array(items) => serde_json::Value::Array(items.iter().map(to_serde).collect()),
        JsonValue::Object(pairs) => {
            let mut m = serde_json::Map::new();
            for (k, v) in pairs {
                m.insert(k.clone(), to_serde(v));
            }
            serde_json::Value::Object(m)
        }
    }
}

fn parse(text: &str) -> serde_json::Value {
    serde_json::from_str(text).unwrap_or(serde_json::Value::Null)
}

fn config() -> CallConfig {
    CallConfig {
        connection_id: "conn-1".to_string(),
        service_name: "echo.Echo".to_string(),
        method_name: "Unary".to_string(),
        request_json: "{}".to_string(),
        timeout_ms: 1000,
        metadata: vec![("a".to_string(), "b".to_string())],
        request_messages: vec![("m1".to_string(), true), ("m2".to_string(), false), ("m3".to_string(), true)],
        compression_encoding: None,
        max_retries: None,
        initial_backoff_ms: Some(50),
    }
}

fn services() -> Vec<GrpcServiceInfo> {
    let method = |name: &str, client: bool, server: bool| GrpcMethodInfo {
        method_name: name.to_string(),
        input_type: "echo.Req".to_string(),
        output_type: "echo.Resp".to_string(),
        is_server_streaming: server,
        is_client_streaming: client,
    };
    vec![GrpcServiceInfo {
        service_name: "echo.Echo".to_string(),
        methods: vec![
            method("Unary", false, false),
            method("Server", false, true),
            method("Client", true, false),
            method("Bidi", true, true),
        ],
        message_definitions: Vec::new(),
    }]
}

#[test]
fn test_is_retryable_error() {
    assert!(is_retryable_error("connect failed (UNAVAILABLE)"));
    assert!(is_retryable_error("deadline exceeded (DEADLINE_EXCEEDED)"));
    assert!(!is_retryable_error("not found (NOT_FOUND)"));
    assert!(!is_retryable_error("no parens here"));
    assert!(!is_retryable_error(""));
}

#[test]
fn retryable_code_is_trimmed_and_must_close_the_text() {
    assert!(is_retryable_error("x ( UNAVAILABLE )"));
    assert!(!is_retryable_error("x (UNAVAILABLE) trailing"));
    assert!(!is_retryable_error("x (UNAVAILABLE"));
    assert!(is_retryable_error("a (b) (UNAVAILABLE)"));
}

#[test]
fn test_calculate_backoff_caps_at_30s() {
    let backoff = calculate_backoff_ms(1000, 20);
    assert!(backoff >= 30_000 && backoff <= 45_000);
}

#[test]
fn test_calculate_backoff_grows_exponentially() {
    let b0 = calculate_backoff_ms(100, 0);
    assert!(b0 >= 100 && b0 <= 150);
    let b1 = calculate_backoff_ms(100, 1);
    assert!(b1 >= 200 && b1 <= 300);
}

#[test]
fn backoff_saturates_instead_of_overflowing() {
    let b = calculate_backoff_ms(u64::MAX, 200);
    assert!(b >= 30_000 && b <= 45_000);
    assert_eq!(calculate_backoff_ms(0, 5), 0);
}

#[test]
fn retry_decision_follows_budget_and_code() {
    assert!(retry_decision(0, 2, 100, "x (UNAVAILABLE)").is_some());
    assert!(retry_decision(2, 2, 100, "x (UNAVAILABLE)").is_none());
    assert!(retry_decision(0, 2, 100, "x (NOT_FOUND)").is_none());
    let w = retry_decision(1, 3, 100, "x (DEADLINE_EXCEEDED)").unwrap_or(0);
    assert!(w >= 200 && w <= 300);
}

#[test]
fn test_grpc_pattern_detection_from_services() {
    let s = services();
    assert_eq!(detect_pattern(Some(&s), "echo.Echo", "Unary"), GrpcPattern::Unary);
    assert_eq!(detect_pattern(Some(&s), "echo.Echo", "Server"), GrpcPattern::ServerStreaming);
    assert_eq!(detect_pattern(Some(&s), "echo.Echo", "Client"), GrpcPattern::ClientStreaming);
    assert_eq!(detect_pattern(Some(&s), "echo.Echo", "Bidi"), GrpcPattern::BidiStreaming);
    assert_eq!(detect_pattern(Some(&s), "echo.Echo", "Nope"), GrpcPattern::Unary);
    assert_eq!(detect_pattern(Some(&s), "other.Svc", "Bidi"), GrpcPattern::Unary);
    assert_eq!(detect_pattern(None, "echo.Echo", "Bidi"), GrpcPattern::Unary);
}

#[test]
fn plan_uses_call_settings_over_connection_defaults() {
    let s = services();
    let mut c = config();
    c.method_name = "Client".to_string();
    let plan = plan_call(&c, Some(&s), (3, 1000));
    assert_eq!(plan.pattern, GrpcPattern::ClientStreaming);
    assert_eq!(plan.max_retries, 3);
    assert_eq!(plan.initial_backoff_ms, 50);
    assert_eq!(plan.messages, vec!["m1".to_string(), "m3".to_string()]);
    c.max_retries = Some(0);
    let plan2 = plan_call(&c, None, (3, 1000));
    assert_eq!(plan2.max_retries, 0);
    assert_eq!(plan2.pattern, GrpcPattern::Unary);
}

#[test]
fn enabled_messages_keep_order() {
    let m = vec![("a".to_string(), false), ("b".to_string(), true), ("c".to_string(), true)];
    assert_eq!(enabled_messages(&m), vec!["b".to_string(), "c".to_string()]);
}

#[test]
fn call_id_joins_node_and_elapsed_ms() {
    assert_eq!(make_call_id("node-7", 0, 0), "node-7-0-0");
    assert_eq!(make_call_id("n", 1234567, 12), "n-1234567-12");
    assert_eq!(make_call_id("", u64::MAX, 3), "-18446744073709551615-3");
}

#[test]
fn unary_success_report() {
    let c = config();
    let o = unary_outcome(JsonValue::Str("hi".to_string()), vec![("k".to_string(), "v".to_string())]);
    let out = to_serde(&build_success_output(&c, o, 7, 9));
    let expected: serde_json::Value = serde_json::from_str(
        r#"{"success":true,"pattern":"unary","connection_id":"conn-1","service_name":"echo.Echo",
        "method_name":"Unary","status":"ok","status_message":"",
        "request":{"connection_id":"conn-1","service_name":"echo.Echo","method_name":"Unary",
        "request_json":"{}","timeout_ms":1000,"metadata_count":1},
        "timing":{"call_ms":7,"total_ms":9},"response_metadata":{"k":"v"},"data":"hi"}"#,
    )
    .unwrap_or(serde_json::Value::Null);
    assert_eq!(out, expected);
    let keys: Vec<&String> = out.as_object().map(|m| m.keys().collect()).unwrap_or_default();
    assert_eq!(keys.first().map(|k| k.as_str()), Some("success"));
    assert_eq!(keys.last().map(|k| k.as_str()), Some("data"));
}

#[test]
fn streaming_success_reports_counts() {
    let c = config();
    let o = server_streaming_outcome(vec![JsonValue::Bool(true), JsonValue::Bool(false)], Vec::new());
    let out = to_serde(&build_success_output(&c, o, 1, 2));
    assert_eq!(out["pattern"], "server_streaming");
    assert_eq!(out["sent_count"], 1);
    assert_eq!(out["received_count"], 2);
    assert_eq!(out["responses"], parse("[true,false]"));
    assert!(out.get("data").is_none());
    assert!(out.get("response_metadata").is_none());

    let cs = client_streaming_outcome(JsonValue::Null, Vec::new(), 3);
    let out2 = to_serde(&build_success_output(&c, cs, 1, 2));
    assert_eq!(out2["pattern"], "client_streaming");
    assert_eq!(out2["sent_count"], 3);
    assert_eq!(out2["received_count"], 1);
}

#[test]
fn cancelled_bidi_report() {
    let c = config();
    let r = GrpcStreamingResult {
        status: 0,
        responses: vec![JsonValue::Null],
        sent_count: 2,
        received_count: 1,
        trailers: Vec::new(),
        response_metadata: vec![("a".to_string(), "1".to_string()), ("a".to_string(), "2".to_string())],
        timing: GrpcTimingInfo { total_ms: 40, first_response_ms: Some(5) },
        cancelled: true,
    };
    let out = to_serde(&build_success_output(&c, bidi_outcome(r, 2), 3, 4));
    assert_eq!(out["pattern"], "bidi_streaming");
    assert_eq!(out["status"], "cancelled");
    assert_eq!(out["status_message"], "User cancelled");
    assert_eq!(out["cancelled"], true);
    assert_eq!(out["streaming_timing"]["first_response_ms"], 5);
    assert_eq!(out["response_metadata"], parse(r#"{"a":"2"}"#));
}

#[test]
fn metadata_map_keeps_first_position_and_last_value() {
    let pairs = vec![
        ("x".to_string(), "1".to_string()),
        ("y".to_string(), "2".to_string()),
        ("x".to_string(), "3".to_string()),
    ];
    assert_eq!(
        collect_last_wins(&pairs),
        vec![("x".to_string(), "3".to_string()), ("y".to_string(), "2".to_string())]
    );
}

#[test]
fn error_report_shape() {
    let c = config();
    let details = vec![GrpcErrorDetail {
        type_url: "type.googleapis.com/google.rpc.Help".to_string(),
        decoded: None,
        raw_hex: Some("0a".to_string()),
    }];
    let out = to_serde(&build_error_output(&c, GrpcPattern::ServerStreaming, "boom", details, 1, 2));
    assert_eq!(out["success"], false);
    assert_eq!(out["pattern"], "serverstreaming");
    assert_eq!(out["status"], "error");
    assert_eq!(out["status_message"], "boom");
    assert_eq!(out["error"], "boom");
    assert!(out["data"].is_null());
    assert_eq!(out["error_details"][0]["raw_hex"], "0a");
    assert!(out["error_details"][0]["decoded"].is_null());
    let none = to_serde(&build_error_output(&c, GrpcPattern::Unary, "x", Vec::new(), 1, 2));
    assert!(none.get("error_details").is_none());
}

#[test]
fn node_results() {
    let ok = ok_result(JsonValue::Bool(true));
    assert!(ok.success);
    assert_eq!(ok.next_ports, vec!["true".to_string()]);
    let f = fail_result("bad".to_string(), JsonValue::Null);
    assert!(!f.success);
    assert_eq!(f.errors, vec!["bad".to_string()]);
    assert!(f.report_data.is_some());
    let e = early_failure("missing execution_id".to_string(), "missing execution_id");
    let data = e.report_data.map(|d| to_serde(&d)).unwrap_or(serde_json::Value::Null);
    assert_eq!(data["pattern"], "unary");
    assert_eq!(data["error"], "missing execution_id");
}

#[test]
fn backoff_jitter_varies() {
    let waits: Vec<u64> = (0..200).map(|_| calculate_backoff_ms(1000, 0)).collect();
    assert!(waits.iter().all(|w| (1000..=1500).contains(w)));
    let first = waits[0];
    assert!(waits.iter().any(|w| *w != first));
}

#[test]
fn errors_with_details_keep_their_code() {
    let code = grpc_code_name(14);
    assert_eq!(code, "UNAVAILABLE");
    assert_eq!(grpc_code_name(4), "DEADLINE_EXCEEDED");
    assert_eq!(grpc_code_name(5), "NOT_FOUND");
    assert_eq!(grpc_code_name(99), "UNKNOWN");
    let with_details = format_grpc_error("gRPC Unary call failed", "down", &code, Some(r#"[{"type_url":"t"}]"#));
    assert!(is_retryable_error(&with_details));
    let plain = format_grpc_error("gRPC Unary call failed", "down", &grpc_code_name(4), None);
    assert!(is_retryable_error(&plain));
    let not_found = format_grpc_error("gRPC Unary call failed", "gone", &grpc_code_name(5), Some("[]"));
    assert!(!is_retryable_error(&not_found));
}

#[test]
fn call_ids_of_one_node_differ() {
    let mut ids = CallIds::new();
    assert!(ids.can_issue());
    let a = ids.issue("node", 5);
    let b = ids.issue("node", 5);
    assert_ne!(a, b);
    assert!(a.starts_with("node-"));
    assert_eq!(a, "node-5-0");
    assert_eq!(b, "node-5-1");
}
