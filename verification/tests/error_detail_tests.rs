use mpe_plugin_grpc::error_detail::{
    bytes_to_hex, error_detail_entry, extract_type_name, format_grpc_error, parse_error_details, status_detail_entries,
    ERROR_DETAILS_MARKER,
};
use mpe_plugin_grpc::json::JsonValue;

fn details_of(json: Option<String>) -> Vec<serde_json::Value> {
    match json {
        Some(text) => match serde_json::from_str::<serde_json::Value>(&text) {
            Ok(serde_json::Value::Array(items)) => items,
            _ => Vec::new(),
        },
        None => Vec::new(),
    }
}

#[test]
fn test_extract_type_name() {
    assert_eq!(
        extract_type_name("type.googleapis.com/google.rpc.RetryInfo"),
        "google.rpc.RetryInfo"
    );
    assert_eq!(extract_type_name("google.rpc.RetryInfo"), "google.rpc.RetryInfo");
    assert_eq!(extract_type_name(""), "");
}

#[test]
fn test_bytes_to_hex() {
    assert_eq!(bytes_to_hex(&[]), "");
    assert_eq!(bytes_to_hex(&[0x00]), "00");
    assert_eq!(bytes_to_hex(&[0xff]), "ff");
    assert_eq!(bytes_to_hex(&[0x0a, 0x1b, 0x2c]), "0a1b2c");
}

#[test]
fn test_parse_error_details_no_marker() {
    let error = "gRPC Unary 调用Failed: not found (NOT_FOUND)";
    let (msg, details) = parse_error_details(error);
    assert_eq!(msg, error);
    assert!(details_of(details).is_empty());
}

#[test]
fn test_parse_error_details_with_marker() {
    let json = r#"[{"type_url":"type.googleapis.com/google.rpc.RetryInfo","decoded":{"retry_delay":"1.0s"},"raw_hex":null}]"#;
    let error = format!(
        "gRPC 调用Failed: rate limited (RESOURCE_EXHAUSTED){}{}",
        ERROR_DETAILS_MARKER, json
    );
    let (msg, details) = parse_error_details(&error);
    assert_eq!(msg, "gRPC 调用Failed: rate limited (RESOURCE_EXHAUSTED)");
    let details = details_of(details);
    assert_eq!(details.len(), 1);
    assert_eq!(details[0]["type_url"], "type.googleapis.com/google.rpc.RetryInfo");
    assert!(!details[0]["decoded"].is_null());
    assert!(details[0]["raw_hex"].is_null());
}

#[test]
fn test_parse_error_details_invalid_json() {
    let error = format!("some error{}invalid json", ERROR_DETAILS_MARKER);
    let (msg, details) = parse_error_details(&error);
    assert_eq!(msg, "some error");
    assert_eq!(details.as_deref(), Some("invalid json"));
    assert!(details_of(details).is_empty());
}

#[test]
fn test_format_grpc_error_empty_details() {
    let status = tonic::Status::new(tonic::Code::NotFound, "not found");
    let result = format_grpc_error("gRPC 调用Failed", status.message(), &status.code().to_string(), None);
    assert!(result.starts_with("gRPC 调用Failed: not found"));
    assert!(!result.contains(ERROR_DETAILS_MARKER));
}

#[test]
fn test_format_grpc_error_with_details() {
    let status = tonic::Status::new(tonic::Code::ResourceExhausted, "resource exhausted");
    let details = r#"[{"type_url":"type.googleapis.com/google.rpc.RetryInfo","decoded":null,"raw_hex":null}]"#;
    let result = format_grpc_error(
        "gRPC 调用Failed",
        status.message(),
        &status.code().to_string(),
        Some(details),
    );
    assert!(result.contains(ERROR_DETAILS_MARKER));
    let (msg, parsed) = parse_error_details(&result);
    assert!(msg.contains("resource exhausted"));
    let parsed = details_of(parsed);
    assert_eq!(parsed.len(), 1);
    assert_eq!(parsed[0]["type_url"], "type.googleapis.com/google.rpc.RetryInfo");
}

#[test]
fn format_grpc_error_exact_text() {
    assert_eq!(
        format_grpc_error("call failed", "boom", "Internal error", None),
        "call failed: boom (Internal error)"
    );
    assert_eq!(
        format_grpc_error("p", "m", "c", Some("[]")),
        "p: m (c)\n---GRPC_ERROR_DETAILS---\n[]"
    );
}

#[test]
fn error_details_round_trip() {
    let text = format_grpc_error("prefix", "  message  ", "code", Some("  [1]  "));
    let (msg, details) = parse_error_details(&text);
    assert_eq!(msg, "prefix:   message   (code)");
    assert_eq!(details.as_deref(), Some("[1]"));
}

#[test]
fn detail_entry_prefers_connection_types() {
    let from_conn = JsonValue::Str("conn".to_string());
    let from_std = JsonValue::Str("std".to_string());
    let d = error_detail_entry("t/x".to_string(), &[1, 2], Some(from_conn), Some(from_std));
    assert!(matches!(d.decoded, Some(JsonValue::Str(ref s)) if s == "conn"));
    assert!(d.raw_hex.is_none());
}

#[test]
fn detail_entry_falls_back_to_standard_types() {
    let from_std = JsonValue::Str("std".to_string());
    let d = error_detail_entry("t/x".to_string(), &[1, 2], None, Some(from_std));
    assert!(matches!(d.decoded, Some(JsonValue::Str(ref s)) if s == "std"));
}

#[test]
fn detail_entry_keeps_undecoded_bytes_as_hex() {
    let d = error_detail_entry("t/x".to_string(), &[0xde, 0xad], None, None);
    assert!(d.decoded.is_none());
    assert_eq!(d.raw_hex.as_deref(), Some("dead"));
    let e = error_detail_entry("t/x".to_string(), &[], None, None);
    assert!(e.decoded.is_none());
    assert!(e.raw_hex.is_none());
    assert_eq!(e.type_url, "t/x");
}

#[test]
fn status_details_need_bytes_that_decode() {
    let entries = vec![("type.googleapis.com/google.rpc.RetryInfo".to_string(), vec![1u8, 2])];
    assert!(status_detail_entries(&[], Some(entries.clone())).is_empty());
    assert!(status_detail_entries(&[9], None).is_empty());
    assert_eq!(status_detail_entries(&[9], Some(entries.clone())), entries);
}

#[test]
fn test_decode_error_details_empty_status() {
    assert!(status_detail_entries(&[], None).is_empty());
}

#[test]
fn test_decode_error_details_with_multiple_anys() {
    let anys = vec![
        ("type.googleapis.com/google.rpc.BadRequest".to_string(), Vec::new()),
        ("type.googleapis.com/google.rpc.Help".to_string(), Vec::new()),
    ];
    // A google.rpc.Status written out field by field: code 3, the message, the details.
    let mut status_bytes: Vec<u8> = vec![0x08, 3, 0x12, 11];
    status_bytes.extend_from_slice(b"bad request");
    for (type_url, value) in &anys {
        let any = prost_types::Any { type_url: type_url.clone(), value: value.clone() };
        let encoded = prost::Message::encode_to_vec(&any);
        status_bytes.push(0x1a);
        status_bytes.push(encoded.len() as u8);
        status_bytes.extend_from_slice(&encoded);
    }
    let entries = status_detail_entries(&status_bytes, Some(anys.clone()));
    assert_eq!(entries, anys);
    let details: Vec<_> = entries
        .into_iter()
        .map(|(type_url, value)| error_detail_entry(type_url, &value, None, Some(JsonValue::Object(Vec::new()))))
        .collect();
    assert_eq!(details.len(), 2);
    assert_eq!(details[0].type_url, "type.googleapis.com/google.rpc.BadRequest");
    assert_eq!(details[1].type_url, "type.googleapis.com/google.rpc.Help");
    assert!(details.iter().all(|d| d.decoded.is_some() && d.raw_hex.is_none()));
}
