use mpe_plugin_grpc::helpers::{extract_metadata, MetadataEntry};
use mpe_plugin_grpc::json::{JsonNumber, JsonValue};
use mpe_plugin_grpc::pool::GrpcPool;
use mpe_plugin_grpc::proto_parser::{compile_file_names, ProtoFile, ProtoParseError};
use mpe_plugin_grpc::scan::{discover_proto_files_in_dir, scan_proto_dir, DirListing, FsEntry};
use mpe_plugin_grpc::ui::{
    channel_state, channelz_answer, dispatch, health_answer, health_status, read_proto_files_answer, required_param, scan_answer, skeleton_answer, skeleton_params, validate_answer,
    validate_params, ChannelzInfo, ReadyOutcome, UiMethod, ValidateStep,
};

const TEST_PROTO: &str = "syntax = \"proto3\";\npackage test;\nmessage User { string id = 1; }\n";
const NESTED_PROTO: &str = r#"syntax = "proto3"; package nested; message Nested { string id = 1; }"#;

fn to_json(v: &serde_json::Value) -> JsonValue {
    match v {
        serde_json::Value::Null => JsonValue::Null,
        serde_json::Value::Bool(b) => JsonValue::Bool(*b),
        serde_json::Value::Number(n) => match (n.as_u64(), n.as_i64()) {
            (Some(u), _) => JsonValue::Number(JsonNumber::PosInt(u)),
            (None, Some(i)) => JsonValue::Number(JsonNumber::NegInt(i)),
            _ => JsonValue::Number(JsonNumber::Float(n.to_string())),
        },
        serde_json::Value::String(s) => JsonValue::Str(s.clone()),
        serde_json::Value::Array(a) => JsonValue::Array(a.iter().map(to_json).collect()),
        serde_json::Value::Object(m) => JsonValue::Object(m.iter().map(|(k, v)| (k.clone(), to_json(v))).collect()),
    }
}

fn to_serde(v: &JsonValue) -> serde_json::Value {
    match v {
        JsonValue::Null => serde_json::Value::Null,
        JsonValue::Bool(b) => serde_json::Value::Bool(*b),
        JsonValue::Number(JsonNumber::PosInt(u)) => serde_json::Value::from(*u),
        JsonValue::Number(JsonNumber::NegInt(i)) => serde_json::Value::from(*i),
        JsonValue::Number(JsonNumber::Float(s)) => serde_json::from_str(s).unwrap_or(serde_json::Value::Null),
        JsonValue::Str(s) => serde_json::Value::String(s.clone()),
        JsonValue::Array(items) => serde_json::Value::Array(items.iter().map(to_serde).collect()),
        JsonValue::Object(pairs) => {
            let mut m = serde_json::Map::new();
            for (k, v) in pairs {
                m.insert(k.clone(), to_serde(v));
            }
            serde_json::Value::Object(m)
        }
    }
}

fn doc(text: &str) -> JsonValue {
    to_json(&serde_json::from_str(text).unwrap_or_else(|e| panic!("bad test JSON: {e}")))
}

fn file(name: &str) -> FsEntry {
    FsEntry::File { name: name.to_string() }
}

fn dir(name: &str, entries: Vec<FsEntry>) -> FsEntry {
    FsEntry::Dir { name: name.to_string(), listing: DirListing { entries, error: None } }
}

/// A sample tree: a proto file, one in a
/// subdirectory, a text file and a hidden directory.
fn sample_tree() -> DirListing {
    DirListing {
        entries: vec![
            file("test.proto"),
            dir("sub", vec![file("nested.proto")]),
            file("readme.txt"),
            dir(".hidden", vec![file("hidden.proto")]),
        ],
        error: None,
    }
}

#[test]
fn test_scan_nonexistent_dir_returns_error() {
    let result = discover_proto_files_in_dir("/nonexistent/path/that/does/not/exist", None, vec![]);
    assert!(result.is_err());
    match result {
        Err(ProtoParseError::ParseError(m)) => {
            assert_eq!(m, "path is not a valid directory: /nonexistent/path/that/does/not/exist")
        }
        _ => panic!("expected a parse error"),
    }
}

#[test]
fn test_scan_empty_dir_returns_error() {
    let empty = DirListing { entries: vec![], error: None };
    let result = discover_proto_files_in_dir("/tmp/empty", Some(&empty), vec![]);
    assert!(result.is_err());
    match result {
        Err(ProtoParseError::ParseError(m)) => assert_eq!(m, "no .proto files found in directory"),
        _ => panic!("expected a parse error"),
    }
}

#[test]
fn test_scan_dir_finds_proto_files() {
    let tree = sample_tree();
    let (paths, error) = scan_proto_dir("", &tree);
    assert_eq!(paths, vec!["test.proto".to_string(), "sub/nested.proto".to_string()]);
    assert!(error.is_none());

    let contents = vec![Ok(TEST_PROTO.to_string()), Ok(NESTED_PROTO.to_string())];
    let result = discover_proto_files_in_dir("/tmp/protos", Some(&tree), contents);
    assert!(result.is_ok());
    let (files, root) = result.unwrap_or_else(|_| panic!("scan should succeed"));
    assert_eq!(files.len(), 2);
    assert_eq!(root, "/tmp/protos");
    let filenames: Vec<&str> = files.iter().map(|(name, _)| name.as_str()).collect();
    assert!(filenames.contains(&"test.proto"));
    assert!(filenames.iter().any(|f| f.contains("nested.proto")));
    assert_eq!(files[1].1, NESTED_PROTO);
}

#[test]
fn scan_stops_at_the_first_failure() {
    let tree = sample_tree();
    let contents = vec![Ok(TEST_PROTO.to_string()), Err("permission denied".to_string())];
    match discover_proto_files_in_dir("/tmp/protos", Some(&tree), contents) {
        Err(ProtoParseError::IoError(m)) => assert_eq!(m, "permission denied"),
        _ => panic!("expected an I/O error"),
    }

    let broken = DirListing {
        entries: vec![
            file("a.proto"),
            FsEntry::Dir {
                name: "locked".to_string(),
                listing: DirListing { entries: vec![], error: Some("cannot list".to_string()) },
            },
            file("b.proto"),
        ],
        error: None,
    };
    let (paths, error) = scan_proto_dir("root", &broken);
    assert_eq!(paths, vec!["root/a.proto".to_string()]);
    assert_eq!(error, Some("cannot list".to_string()));
    match discover_proto_files_in_dir("/x", Some(&broken), vec![Ok(String::new())]) {
        Err(ProtoParseError::IoError(m)) => assert_eq!(m, "cannot list"),
        _ => panic!("expected an I/O error"),
    }
}

#[test]
fn test_scan_proto_directory_missing_dir() {
    let result = required_param(&doc("{}"), "dir_path");
    assert!(result.is_err());
    assert_eq!(result.err(), Some("dir_path is required".to_string()));
    assert!(required_param(&doc(r#"{"dir_path": "   "}"#), "dir_path").is_err());
    assert_eq!(required_param(&doc(r#"{"dir_path": "/p"}"#), "dir_path"), Ok("/p".to_string()));
}

#[test]
fn scan_answers() {
    let ok = scan_answer(Ok((vec![("a.proto".to_string(), "x".to_string())], "/d".to_string())));
    assert_eq!(
        to_serde(&ok),
        serde_json::from_str::<serde_json::Value>(
            r#"{"success": true, "files": [{"path": "a.proto", "content": "x"}], "import_path": "/d", "error": null}"#
        )
        .expect("json")
    );
    let failed = scan_answer(Err("no .proto files found in directory".to_string()));
    assert_eq!(
        to_serde(&failed),
        serde_json::from_str::<serde_json::Value>(
            r#"{"success": false, "files": [], "import_path": null, "error": "no .proto files found in directory"}"#
        )
        .expect("json")
    );
}

#[test]
fn test_read_proto_files_missing() {
    let paths = vec!["/nonexistent/x.proto".to_string()];
    let reads = vec![Err("No such file or directory (os error 2)".to_string())];
    let value = to_serde(&read_proto_files_answer(&paths, &reads));
    assert_eq!(value["success"], false);
    assert_eq!(value["files"], serde_json::Value::Array(vec![]));
    assert_eq!(
        value["error"],
        "Failed to read file /nonexistent/x.proto: No such file or directory (os error 2)"
    );
}

#[test]
fn read_proto_files_lists_base_names() {
    let paths = vec!["/a/b/one.proto".to_string(), "two.proto".to_string()];
    let reads = vec![Ok("1".to_string()), Ok("2".to_string())];
    let value = to_serde(&read_proto_files_answer(&paths, &reads));
    assert_eq!(
        value,
        serde_json::from_str::<serde_json::Value>(
            r#"{"success": true, "files": [{"path": "one.proto", "content": "1"}, {"path": "two.proto", "content": "2"}], "error": null}"#
        )
        .expect("json")
    );
}

#[test]
fn test_skeleton_requires_proto_files() {
    let params = skeleton_params(&doc(r#"{"proto_files": [], "service_name": "s", "method_name": "m"}"#));
    assert!(params.proto_files.is_empty());
    assert_eq!(params.service_name, "s");
    assert_eq!(params.method_name, "m");
    let files: Vec<ProtoFile> =
        params.proto_files.iter().map(|(p, c)| ProtoFile { path: p.clone(), content: c.clone() }).collect();
    let compiled = compile_file_names(&files).map(|_| ());
    assert!(compiled.is_err());
    let result = skeleton_answer(compiled, Ok(String::new()));
    assert!(result.is_err());
    assert_eq!(
        result.err(),
        Some("failed to parse proto files: failed to parse proto files: no valid proto files provided".to_string())
    );
}

#[test]
fn compile_names_are_base_names() {
    let files = vec![
        ProtoFile { path: "dir/a.proto".to_string(), content: String::new() },
        ProtoFile { path: "b.proto".to_string(), content: String::new() },
    ];
    match compile_file_names(&files) {
        Ok(names) => assert_eq!(names, vec!["a.proto".to_string(), "b.proto".to_string()]),
        Err(_) => panic!("names expected"),
    }
    let answer = skeleton_answer(Ok(()), Ok("{\n  \"x\": 0\n}".to_string())).unwrap_or_else(|e| panic!("{e}"));
    assert_eq!(
        to_serde(&answer),
        serde_json::from_str::<serde_json::Value>(r#"{"success": true, "skeleton": "{\n  \"x\": 0\n}", "error": null}"#)
            .expect("json")
    );
    assert_eq!(skeleton_answer(Ok(()), Err("service not found: s".to_string())).err(), Some("service not found: s".to_string()));
}

#[test]
fn test_validate_no_proto_files() {
    match validate_params(&doc(r#"{"json": "{}", "message_name": "x", "proto_files": []}"#)) {
        ValidateStep::Answer(a) => {
            let result = to_serde(&a);
            assert_eq!(result["success"], false);
            assert!(result["error"].as_str().is_some_and(|e| e.contains("No proto files")));
        }
        ValidateStep::Compile { .. } => panic!("nothing to compile"),
    }
}

#[test]
fn validate_answers() {
    match validate_params(&doc(
        r#"{"json": "{}", "message_name": "p.M", "proto_files": [{"path": "a.proto", "content": "c"}]}"#,
    )) {
        ValidateStep::Compile { proto_files, message_name, json } => {
            assert_eq!(proto_files, vec![("a.proto".to_string(), "c".to_string())]);
            assert_eq!(message_name, "p.M");
            assert_eq!(json, "{}");
        }
        ValidateStep::Answer(_) => panic!("files were given"),
    }
    let failed = to_serde(&validate_answer(Some("bad".to_string()), Err(String::new())));
    assert_eq!(failed["success"], false);
    assert_eq!(failed["error"], "Failed to parse proto file: bad");
    let unknown = to_serde(&validate_answer(None, Err("message type not found: p.X".to_string())));
    assert_eq!(unknown["error"], "message type not found: p.X");
}

#[test]
fn test_cancel_stream_missing_connection() {
    let mut pool: GrpcPool<(), u64> = GrpcPool::new();
    let result = pool.cancel_stream("e", "c", "x");
    assert!(result.is_err());
}

#[test]
fn test_dispatch_unknown_method() {
    let message = dispatch("grpc.unknown").err().expect("unknown method must error");
    assert!(message.contains("unknown uiCall sub-method"));
    assert_eq!(message, "unknown uiCall sub-method `grpc.unknown`");
    assert_eq!(dispatch("grpc.validate"), Ok(UiMethod::Validate));
    assert_eq!(dispatch("grpc.cancelStream"), Ok(UiMethod::CancelStream));
}

#[test]
fn response_metadata_entries() {
    let entries = vec![
        ("content-type".to_string(), MetadataEntry::Text("application/grpc".to_string())),
        ("trace-bin".to_string(), MetadataEntry::Binary),
        ("odd".to_string(), MetadataEntry::NotText(12)),
    ];
    assert_eq!(
        extract_metadata(entries),
        vec![
            ("content-type".to_string(), "application/grpc".to_string()),
            ("odd".to_string(), "<non-utf8: 12 bytes>".to_string()),
        ]
    );
}

#[test]
fn channelz_and_health_answers() {
    assert_eq!(channel_state(ReadyOutcome::Ready), "READY");
    assert_eq!(channel_state(ReadyOutcome::Failed), "TRANSIENT_FAILURE");
    assert_eq!(channel_state(ReadyOutcome::TimedOut), "CONNECTING");
    let info = ChannelzInfo {
        state: "READY".to_string(),
        connected_at: "2024-01-01T00:00:00+00:00".to_string(),
        uptime_secs: 5,
        active_calls: 2,
        last_error: None,
    };
    assert_eq!(
        to_serde(&channelz_answer(Ok(info))),
        serde_json::from_str::<serde_json::Value>(
            r#"{"success": true, "info": {"state": "READY", "connected_at": "2024-01-01T00:00:00+00:00", "uptime_secs": 5, "active_calls": 2, "last_error": null}, "error": null}"#
        )
        .expect("json")
    );
    assert_eq!(
        to_serde(&channelz_answer(Err("connection 'c' does not exist".to_string()))),
        serde_json::from_str::<serde_json::Value>(
            r#"{"success": false, "info": null, "error": "connection 'c' does not exist"}"#
        )
        .expect("json")
    );
    assert_eq!(to_serde(&health_answer("SERVING")), serde_json::from_str::<serde_json::Value>(r#"{"status": "SERVING"}"#).expect("json"));
}

#[test]
fn test_empty_files_returns_error() {
    let result = compile_file_names(&vec![]);
    assert!(result.is_err());
    match result {
        Err(ProtoParseError::ParseError(m)) => assert_eq!(m, "no valid proto files provided"),
        _ => panic!("expected a parse error"),
    }
}

#[test]
fn health_statuses_stay_in_the_documented_set() {
    assert_eq!(health_status(Ok(1)), Ok("SERVING".to_string()));
    assert_eq!(health_status(Ok(2)), Ok("NOT_SERVING".to_string()));
    assert_eq!(health_status(Ok(3)), Ok("UNKNOWN".to_string()));
    assert_eq!(health_status(Ok(0)), Ok("UNKNOWN".to_string()));
    assert_eq!(health_status(Err((true, "m".to_string(), "c".to_string()))), Ok("NOT_IMPLEMENTED".to_string()));
    assert_eq!(
        health_status(Err((false, "down".to_string(), "UNAVAILABLE".to_string()))),
        Err("health check failed: down (UNAVAILABLE)".to_string())
    );
}
