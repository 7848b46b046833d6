use mpe_plugin_grpc::config::ConnectConfig;
use mpe_plugin_grpc::connect::{finish_connect, new_connection};
use mpe_plugin_grpc::json::JsonValue;
use mpe_plugin_grpc::pool::GrpcPool;
use mpe_plugin_grpc::reflection::{
    build_descriptor_pool, connection_failure, fallback_failure, filter_services, is_fallback_eligible_error, is_reflection_service,
    service_names_from_reply, ReflectionCollector, ReflectionReply, ReflectionVersion,
};
use mpe_plugin_grpc::schema::{
    Cardinality, FieldDesc, FieldKind, MessageDesc, MethodDesc, ProtoSchema, ServiceDesc,
};
use mpe_plugin_grpc::stream::{StreamCollector, StreamEvent, StreamStep};

fn schema() -> ProtoSchema {
    ProtoSchema {
        messages: vec![MessageDesc {
            full_name: "echo.Req".to_string(),
            fields: vec![FieldDesc {
                name: "text".to_string(),
                number: 1,
                cardinality: Cardinality::Optional,
                kind: FieldKind::Str,
                is_map: false,
            }],
            oneofs: Vec::new(),
            is_map_entry: false,
        }],
        enums: Vec::new(),
        services: vec![ServiceDesc {
            full_name: "echo.Echo".to_string(),
            methods: vec![MethodDesc {
                name: "Say".to_string(),
                input_type: "echo.Req".to_string(),
                output_type: "echo.Req".to_string(),
                is_client_streaming: false,
                is_server_streaming: true,
            }],
        }],
    }
}

fn config(text: &str) -> ConnectConfig {
    let v: serde_json::Value = serde_json::from_str(text).unwrap_or(serde_json::Value::Null);
    let mut pairs = Vec::new();
    if let serde_json::Value::Object(m) = v {
        for (k, v) in m {
            let j = match v {
                serde_json::Value::Number(n) => {
                    JsonValue::Number(mpe_plugin_grpc::json::JsonNumber::PosInt(n.as_u64().unwrap_or(0)))
                }
                serde_json::Value::String(s) => JsonValue::Str(s),
                serde_json::Value::Bool(b) => JsonValue::Bool(b),
                _ => JsonValue::Null,
            };
            pairs.push((k, j));
        }
    }
    match ConnectConfig::from_value(&JsonValue::Object(pairs)) {
        Ok(c) => c,
        Err(e) => panic!("{e}"),
    }
}

#[test]
fn test_pool_close_all_noop_on_missing() {
    let mut pool: GrpcPool<(), ()> = GrpcPool::new();
    pool.close_all("exec-missing");
    assert!(pool.list_services("exec-missing", "c").is_none());
}

#[test]
fn test_retry_defaults_missing_connection() {
    let pool: GrpcPool<(), ()> = GrpcPool::new();
    assert_eq!(pool.get_retry_defaults("e", "c"), (0, 1000));
}

#[test]
fn stored_connection_is_found_and_replaced() {
    let mut pool: GrpcPool<u32, ()> = GrpcPool::new();
    let cfg = config(r#"{"url": "h:1", "max_retries": 4, "initial_backoff_ms": 25}"#);
    let services = finish_connect(&mut pool, "e1", "c1", &cfg, 7, schema());
    assert_eq!(services.len(), 1);
    assert_eq!(services[0].service_name, "echo.Echo");
    assert_eq!(services[0].methods[0].method_name, "Say");
    assert!(services[0].methods[0].is_server_streaming);
    assert_eq!(services[0].message_definitions.len(), 1);
    assert_eq!(pool.get_retry_defaults("e1", "c1"), (4, 25));
    assert_eq!(pool.snapshot("e1", "c1").map(|c| c.handle), Ok(7));
    let again = config(r#"{"url": "h:1"}"#);
    let _ = finish_connect(&mut pool, "e1", "c1", &again, 8, schema());
    assert_eq!(pool.snapshot("e1", "c1").map(|c| c.handle), Ok(8));
    assert_eq!(pool.get_retry_defaults("e1", "c1"), (0, 1000));
    let other = config(r#"{"url": "h:2", "max_retries": 9, "initial_backoff_ms": 5}"#);
    let _ = finish_connect(&mut pool, "e1", "c2", &other, 9, schema());
    assert_eq!(pool.get_retry_defaults("e1", "c2"), (9, 5));
    assert_eq!(pool.get_retry_defaults("e1", "c1"), (0, 1000));
    let listed = pool.list_services("e1", "c1").unwrap_or_default();
    assert_eq!(listed.len(), 1);
}

#[test]
fn close_forgets_only_its_key() {
    let mut pool: GrpcPool<u32, ()> = GrpcPool::new();
    let cfg = config(r#"{"url": "h:1"}"#);
    pool.insert_connection("e1", "c1", new_connection(1, schema(), &cfg));
    pool.insert_connection("e1", "c2", new_connection(2, schema(), &cfg));
    assert_eq!(pool.close("e1", "c1"), Ok(()));
    assert_eq!(pool.close("e1", "c1"), Err("connection 'c1' does not exist".to_string()));
    assert_eq!(pool.snapshot("e1", "c2").map(|c| c.handle), Ok(2));
    assert!(pool.snapshot("e1", "c1").is_err());
}

#[test]
fn close_all_drops_only_the_execution() {
    let mut pool: GrpcPool<u32, ()> = GrpcPool::new();
    let cfg = config(r#"{"url": "h:1"}"#);
    pool.insert_connection("e1", "c1", new_connection(1, schema(), &cfg));
    pool.insert_connection("e2", "c1", new_connection(2, schema(), &cfg));
    pool.insert_connection("e1", "c2", new_connection(3, schema(), &cfg));
    pool.close_all("e1");
    assert!(pool.snapshot("e1", "c1").is_err());
    assert!(pool.snapshot("e1", "c2").is_err());
    assert_eq!(pool.snapshot("e2", "c1").map(|c| c.handle), Ok(2));
}

#[test]
fn cancel_stream_hands_back_the_token_once() {
    let mut pool: GrpcPool<u32, &'static str> = GrpcPool::new();
    let cfg = config(r#"{"url": "h:1"}"#);
    pool.insert_connection("e1", "c1", new_connection(1, schema(), &cfg));
    assert!(pool.register_call("e1", "c1", "call-1", "token").is_ok());
    assert!(pool.register_call("e1", "nope", "call-1", "token").is_err());
    assert_eq!(pool.cancel_stream("", "c1", "call-1"), Ok("token"));
    assert_eq!(
        pool.cancel_stream("e1", "c1", "call-1"),
        Err("call 'call-1' does not exist or already finished".to_string())
    );
    assert_eq!(pool.cancel_stream("e", "c", "x"), Err("connection 'c' does not exist".to_string()));
    assert!(pool.register_call("e1", "c1", "call-2", "t2").is_ok());
    pool.finish_call("e1", "c1", "call-2");
    assert!(pool.cancel_stream("e1", "c1", "call-2").is_err());
}

#[test]
fn in_flight_tokens() {
    let mut pool: GrpcPool<u32, u8> = GrpcPool::new();
    pool.register_in_flight(Some(5), 1);
    pool.register_in_flight(None, 2);
    assert_eq!(pool.cancel_request(5), Some(&1));
    assert_eq!(pool.cancel_request(6), None);
    pool.register_in_flight(Some(5), 3);
    assert_eq!(pool.cancel_request(5), Some(&3));
    pool.unregister_in_flight(Some(5));
    assert_eq!(pool.cancel_request(5), None);
}

#[test]
fn stream_collects_numbered_responses() {
    let mut c = StreamCollector::new("call-1", true);
    let step = c.step(StreamEvent::Message { data: JsonValue::Bool(true), size_bytes: 3, elapsed_ms: 10 });
    assert!(matches!(step, StreamStep::Emit(_)));
    let _ = c.step(StreamEvent::Message { data: JsonValue::Null, size_bytes: 0, elapsed_ms: 20 });
    assert_eq!(c.received_count(), 2);
    let done = c.step(StreamEvent::Cancelled);
    assert!(matches!(done, StreamStep::Finished));
    let r = c.bidi_result(4, 30, Vec::new());
    assert!(r.cancelled);
    assert_eq!(r.received_count, 2);
    assert_eq!(r.sent_count, 4);
    assert_eq!(r.timing.first_response_ms, Some(10));
    match &r.responses[1] {
        JsonValue::Object(pairs) => {
            assert_eq!(pairs[0].0, "index");
            assert!(matches!(pairs[0].1, JsonValue::Number(mpe_plugin_grpc::json::JsonNumber::PosInt(2))));
        }
        _ => panic!("expected an object"),
    }
}

#[test]
fn stream_failure_text() {
    let mut server = StreamCollector::new("c", false);
    match server.step(StreamEvent::Failed { message: "bad".to_string(), code: "Internal error".to_string() }) {
        StreamStep::Failed { error, emit } => {
            assert_eq!(error, "streaming response error: bad (Internal error)");
            assert!(emit.is_some());
        }
        _ => panic!("expected a failure"),
    }
    let mut bidi = StreamCollector::new("c", true);
    match bidi.step(StreamEvent::Failed { message: "m".to_string(), code: "k".to_string() }) {
        StreamStep::Failed { error, .. } => assert_eq!(error, "bidi streaming response error: m (k)"),
        _ => panic!("expected a failure"),
    }
    let mut other = StreamCollector::new("c", true);
    assert!(matches!(other.step(StreamEvent::TimedOut), StreamStep::Finished));
    assert!(!other.bidi_result(0, 1, Vec::new()).cancelled);
}

#[test]
fn reflection_services_are_filtered() {
    assert!(is_reflection_service("grpc.reflection.v1.ServerReflection"));
    assert!(!is_reflection_service("echo.Echo"));
    let names = vec![
        "grpc.reflection.v1alpha.ServerReflection".to_string(),
        "echo.Echo".to_string(),
    ];
    assert_eq!(filter_services(names.clone()), vec!["echo.Echo".to_string()]);
    assert_eq!(
        service_names_from_reply(ReflectionVersion::V1, ReflectionReply::Services(names)),
        Ok(vec!["echo.Echo".to_string()])
    );
    assert_eq!(
        service_names_from_reply(
            ReflectionVersion::V1Alpha,
            ReflectionReply::Services(vec!["grpc.reflection.v1.ServerReflection".to_string()])
        ),
        Err("server does not expose any business gRPC services (only reflection service found)".to_string())
    );
    assert_eq!(
        service_names_from_reply(ReflectionVersion::V1, ReflectionReply::TimedOut),
        Err("ListServices v1 response timed out".to_string())
    );
    assert_eq!(
        service_names_from_reply(ReflectionVersion::V1Alpha, ReflectionReply::ServerError("no".to_string())),
        Err("Server Reflection Error: no".to_string())
    );
    assert!(is_fallback_eligible_error("anything"));
    assert_eq!(fallback_failure("x"), "Server Reflection failed (tried v1 and v1alpha): x");
    assert_eq!(connection_failure(ReflectionVersion::V1, None), "Server Reflection v1 connection timed out");
}

fn descriptor_bytes(name: &str, deps: &[&str]) -> Vec<u8> {
    let fd = prost_types::FileDescriptorProto {
        name: Some(name.to_string()),
        dependency: deps.iter().map(|d| d.to_string()).collect(),
        ..Default::default()
    };
    prost::Message::encode_to_vec(&fd)
}

#[test]
fn reflection_fetches_each_file_once_and_resolves_dependencies() {
    let mut c = ReflectionCollector::new();
    let files = vec![descriptor_bytes("a.proto", &["b.proto", "c.proto"]), descriptor_bytes("a.proto", &[])];
    assert!(c.on_service_reply(ReflectionVersion::V1, "svc.A", ReflectionReply::Files(files)).is_ok());
    assert!(c.on_service_reply(ReflectionVersion::V1, "svc.B", ReflectionReply::Other).is_ok());
    let missing = c.next_dependency_round(0).unwrap_or_default();
    assert_eq!(missing, vec!["b.proto".to_string(), "c.proto".to_string()]);
    assert!(c.on_dependency_reply("b.proto", ReflectionReply::Files(vec![descriptor_bytes("b.proto", &[])])).is_ok());
    assert!(c.on_dependency_reply("c.proto", ReflectionReply::Closed).is_ok());
    assert!(c.next_dependency_round(1).is_none());
    assert!(c.next_dependency_round(49).is_none());
    let kept = c.into_files().unwrap_or_default();
    let names: Vec<String> = kept.iter().map(|f| f.name.clone()).collect();
    assert_eq!(names, vec!["a.proto".to_string(), "b.proto".to_string()]);
}

#[test]
fn reflection_errors() {
    let mut c = ReflectionCollector::new();
    assert_eq!(
        c.on_service_reply(ReflectionVersion::V1Alpha, "s", ReflectionReply::Closed),
        Err("Server Reflection closed the stream while querying service 's'".to_string())
    );
    assert_eq!(
        c.on_service_reply(ReflectionVersion::V1, "s", ReflectionReply::Broken("x".to_string())),
        Err("failed to query file descriptors for service 's': x".to_string())
    );
    let bad = c.on_service_reply(ReflectionVersion::V1, "s", ReflectionReply::Files(vec![vec![0xff, 0xff]]));
    assert!(bad.err().unwrap_or_default().starts_with("failed to decode FileDescriptorProto: "));
    assert_eq!(
        c.on_dependency_reply("d", ReflectionReply::TimedOut),
        Err("timed out querying dependency file 'd'".to_string())
    );
    assert_eq!(
        ReflectionCollector::new().into_files().err(),
        Some("Server Reflection returned no file descriptors".to_string())
    );
}

#[test]
fn reflected_files_build_one_pool() {
    let mut c = ReflectionCollector::new();
    let files = vec![descriptor_bytes("b.proto", &[]), descriptor_bytes("a.proto", &["b.proto"])];
    assert!(c.on_service_reply(ReflectionVersion::V1, "svc.A", ReflectionReply::Files(files)).is_ok());
    let pool = build_descriptor_pool(c.into_files().expect("files")).expect("pool");
    let mut names: Vec<String> = pool.files().map(|f| f.name().to_string()).collect();
    names.sort();
    assert_eq!(names, vec!["a.proto".to_string(), "b.proto".to_string()]);

    let mut broken = ReflectionCollector::new();
    let files = vec![descriptor_bytes("x.proto", &["missing.proto"])];
    assert!(broken.on_service_reply(ReflectionVersion::V1, "svc.X", ReflectionReply::Files(files)).is_ok());
    let err = build_descriptor_pool(broken.into_files().expect("files")).err().unwrap_or_default();
    assert!(err.starts_with("failed to build DescriptorPool from reflection data: "), "{err}");
}
