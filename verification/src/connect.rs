//! Decisions of the `grpc:connect` and `grpc:close` nodes: the address dialled,
//! where the schema comes from, what the pool stores, and the reports.
use vstd::prelude::*;

use crate::call::{jn, js};
use crate::config::{strings_v, ConnectConfig};
use crate::json::{array, member, num, object, pairs_model, text, values_model, Json, JsonValue};
use crate::pool::{conn_key, retry_defaults, GrpcConnection, GrpcPool};
use crate::schema::{unique_message_names, ProtoSchema};
use crate::services::{service_report, services_from_pool};
use crate::text::{blank, chars_of, concat, has_prefix, is_blank, starts_with};
use crate::types::{service_v, GrpcMethodInfo, GrpcServiceInfo, MethodInfoV, ServiceInfoV};

verus! {

/// The address dialled: `url` itself when it names its scheme, else `url` under
/// `https://` or `http://` as TLS is used or not.
pub open spec fn url_with_scheme_spec(url: Seq<char>, use_tls: bool) -> Seq<char> {
    if has_prefix(url, "http://"@) || has_prefix(url, "https://"@) {
        url
    } else if use_tls {
        "https://"@ + url
    } else {
        "http://"@ + url
    }
}

/// Adds the scheme to an address that lacks one.
pub fn url_with_scheme(url: &str, use_tls: bool) -> (r: String)
    ensures
        r@ == url_with_scheme_spec(url@, use_tls),
{
    let v = chars_of(url);
    let http = chars_of("http://");
    let https = chars_of("https://");
    if starts_with(v.as_slice(), http.as_slice()) || starts_with(v.as_slice(), https.as_slice()) {
        crate::text::owned(url)
    } else if use_tls {
        concat("https://", url)
    } else {
        concat("http://", url)
    }
}

/// The non-blank items of a list, in order.
pub open spec fn non_blank(s: Seq<Seq<char>>) -> Seq<Seq<char>>
    decreases s.len(),
{
    if s.len() == 0 {
        Seq::empty()
    } else if is_blank(s.last()) {
        non_blank(s.drop_last())
    } else {
        non_blank(s.drop_last()).push(s.last())
    }
}

/// Extra endpoints to balance over: the non-blank configured ones.
pub fn additional_endpoints(endpoints: &Option<Vec<String>>) -> (r: Vec<String>)
    ensures
        strings_v(r@) == match endpoints {
            Some(e) => non_blank(strings_v(e@)),
            None => Seq::empty(),
        },
{
    let mut r: Vec<String> = Vec::new();
    match endpoints {
        Some(e) => {
            let ghost all = strings_v(e@);
            let mut i: usize = 0;
            proof {
                assert(strings_v(r@) =~= non_blank(all.take(0)));
            }
            while i < e.len()
                invariant
                    i <= e@.len(),
                    all == strings_v(e@),
                    strings_v(r@) == non_blank(all.take(i as int)),
                decreases e.len() - i,
            {
                proof {
                    assert(all.take(i + 1).drop_last() =~= all.take(i as int));
                    assert(all.take(i + 1).last() == e@[i as int]@);
                }
                let ghost before = r@;
                if !blank(e[i].as_str()) {
                    r.push(e[i].clone());
                    proof {
                        assert(strings_v(r@) =~= strings_v(before).push(e@[i as int]@));
                    }
                }
                i = i + 1;
            }
            proof {
                assert(all.take(e@.len() as int) =~= all);
            }
        },
        None => {
            proof {
                assert(strings_v(r@) =~= Seq::empty());
            }
        },
    }
    r
}

/// Where the schema of a new connection comes from.
#[derive(Debug, PartialEq, Eq, Structural)]
pub enum SchemaSource {
    /// Ask the server through the reflection protocol.
    Reflection,
    /// Compile the configured proto files.
    ProtoFiles,
}

pub open spec fn no_schema_message() -> Seq<char> {
    "no proto files provided and Server Reflection not enabled, cannot discover services"@
}

/// Proto files win over reflection; with neither, the connection cannot be made.
pub fn schema_source(enable_reflection: bool, proto_file_count: usize) -> (r: Result<SchemaSource, String>)
    ensures
        match r {
            Ok(s) => (s == SchemaSource::Reflection) == (enable_reflection && proto_file_count == 0) && (s
                == SchemaSource::ProtoFiles) == (proto_file_count > 0),
            Err(e) => !enable_reflection && proto_file_count == 0 && e@ == no_schema_message(),
        },
{
    if enable_reflection && proto_file_count == 0 {
        Ok(SchemaSource::Reflection)
    } else if proto_file_count == 0 {
        Err(crate::text::owned("no proto files provided and Server Reflection not enabled, cannot discover services"))
    } else {
        Ok(SchemaSource::ProtoFiles)
    }
}

/// The error of a proto compilation that failed with `detail`.
pub fn proto_failure(detail: &str) -> (r: String)
    ensures
        r@ == "failed to parse proto files: "@ + detail@,
{
    concat("failed to parse proto files: ", detail)
}

/// An entry made for `cfg` from a transport handle and a schema: the configured
/// url, metadata, compression and retry defaults (no retries and 1000 ms when
/// unset), and no running calls.
pub open spec fn configured_entry<C, T>(e: GrpcConnection<C, T>, cfg: ConnectConfig, handle: C, schema: ProtoSchema) -> bool {
    &&& e.handle == handle
    &&& e.schema == schema
    &&& e.url@ == cfg.url@
    &&& e.default_metadata@ == cfg.default_metadata@
    &&& e.compression_encoding == cfg.compression_encoding
    &&& e.calls() == Map::<Seq<char>, T>::empty()
    &&& e.max_retries == match cfg.max_retries {
        Some(m) => m,
        None => 0,
    }
    &&& e.initial_backoff_ms == match cfg.initial_backoff_ms {
        Some(b) => b,
        None => 1000,
    }
}

/// The pool entry of a new connection: the configured metadata and compression,
/// no running calls, and retry defaults of no retries and 1000 ms.
pub fn new_connection<C, T>(handle: C, schema: ProtoSchema, cfg: &ConnectConfig) -> (r: GrpcConnection<C, T>)
    requires
        unique_message_names(schema),
    ensures
        r.wf(),
        r.handle == handle,
        r.schema == schema,
        r.url@ == cfg.url@,
        r.default_metadata@ == cfg.default_metadata@,
        r.compression_encoding == cfg.compression_encoding,
        r.calls() == Map::<Seq<char>, T>::empty(),
        r.max_retries == match cfg.max_retries {
            Some(m) => m,
            None => 0,
        },
        r.initial_backoff_ms == match cfg.initial_backoff_ms {
            Some(b) => b,
            None => 1000,
        },
{
    let r = GrpcConnection {
        handle,
        schema,
        url: cfg.url.clone(),
        default_metadata: clone_pairs(&cfg.default_metadata),
        compression_encoding: cfg.compression_encoding.clone(),
        active_calls: Vec::new(),
        max_retries: match cfg.max_retries {
            Some(m) => m,
            None => 0,
        },
        initial_backoff_ms: match cfg.initial_backoff_ms {
            Some(b) => b,
            None => 1000,
        },
    };
    proof {
        assert(crate::pool::calls_v(r.active_calls@) =~= Seq::empty());
        crate::keyed::lemma_to_map_empty::<Seq<char>, T>();
    }
    r
}

fn clone_pairs(v: &Vec<(String, String)>) -> (r: Vec<(String, String)>)
    ensures
        r@ == v@,
{
    let mut r: Vec<(String, String)> = Vec::new();
    let mut i: usize = 0;
    while i < v.len()
        invariant
            i <= v@.len(),
            r@ == v@.take(i as int),
        decreases v.len() - i,
    {
        let a = v[i].0.clone();
        let b = v[i].1.clone();
        proof {
            assert(a == v@[i as int].0);
            assert(b == v@[i as int].1);
        }
        r.push((a, b));
        proof {
            assert(r@ =~= v@.take(i + 1));
        }
        i = i + 1;
    }
    proof {
        assert(v@.take(v@.len() as int) =~= v@);
    }
    r
}

/// Stores a new connection and reports its services, the last step of connecting:
/// an earlier connection under the same key is replaced.
pub fn finish_connect<C, T>(
    pool: &mut GrpcPool<C, T>,
    execution_id: &str,
    connection_id: &str,
    cfg: &ConnectConfig,
    handle: C,
    schema: ProtoSchema,
) -> (r: Vec<GrpcServiceInfo>)
    requires
        old(pool).wf(),
        unique_message_names(schema),
    ensures
        final(pool).wf(),
        final(pool)@.contains_key(conn_key(execution_id@, connection_id@)),
        final(pool)@.remove(conn_key(execution_id@, connection_id@)) == old(pool)@.remove(
            conn_key(execution_id@, connection_id@),
        ),
        configured_entry(final(pool)@[conn_key(execution_id@, connection_id@)], *cfg, handle, schema),
        retry_defaults(final(pool)@, conn_key(execution_id@, connection_id@)) == (
            match cfg.max_retries {
                Some(m) => m,
                None => 0u32,
            },
            match cfg.initial_backoff_ms {
                Some(b) => b,
                None => 1000u64,
            },
        ),
        r@.len() == schema.services@.len(),
        forall|i: int| 0 <= i < r@.len() ==> service_v(#[trigger] r@[i]) == service_report(schema, schema.services@[i]),
{
    let services = services_from_pool(&schema);
    let conn = new_connection(handle, schema, cfg);
    pool.insert_connection(execution_id, connection_id, conn);
    proof {
        assert(final(pool)@.remove(conn_key(execution_id@, connection_id@)) =~= old(pool)@.remove(
            conn_key(execution_id@, connection_id@),
        ));
    }
    services
}

// ---------------------------------------------------------------------------
// Reports
// ---------------------------------------------------------------------------

pub open spec fn connect_request_json(c: ConnectConfig) -> Json {
    Json::Object(
        seq![
            ("url"@, js(c.url@)),
            ("use_tls"@, Json::Bool(c.use_tls)),
            ("tls_skip_verify"@, Json::Bool(c.tls_skip_verify)),
            ("enable_reflection"@, Json::Bool(c.enable_reflection)),
            ("proto_files_count"@, jn(c.proto_files@.len() as u64)),
            ("default_metadata_count"@, jn(c.default_metadata@.len() as u64)),
            ("connect_timeout_ms"@, jn(c.connect_timeout_ms)),
        ],
    )
}

pub open spec fn connect_timing_json(connect_ms: u64, total_ms: u64) -> Json {
    Json::Object(seq![("connect_ms"@, jn(connect_ms)), ("total_ms"@, jn(total_ms))])
}

pub open spec fn method_summary(m: GrpcMethodInfo) -> Json {
    Json::Object(
        seq![
            ("method_name"@, js(m.method_name@)),
            ("input_type"@, js(m.input_type@)),
            ("output_type"@, js(m.output_type@)),
            ("is_server_streaming"@, Json::Bool(m.is_server_streaming)),
        ],
    )
}

pub open spec fn service_summary(s: GrpcServiceInfo) -> Json {
    Json::Object(
        seq![
            ("service_name"@, js(s.service_name@)),
            ("methods"@, Json::Array(s.methods@.map_values(|m: GrpcMethodInfo| method_summary(m)))),
        ],
    )
}

/// Report of a successful connection.
pub open spec fn connect_success_report(
    connection_id: Seq<char>,
    url: Seq<char>,
    connect_ms: u64,
    total_ms: u64,
    services: Seq<GrpcServiceInfo>,
    c: ConnectConfig,
) -> Json {
    Json::Object(
        seq![
            ("success"@, Json::Bool(true)),
            ("connection_id"@, js(connection_id)),
            ("url"@, js(url)),
            ("request"@, connect_request_json(c)),
            ("timing"@, connect_timing_json(connect_ms, total_ms)),
            ("services"@, Json::Array(services.map_values(|s: GrpcServiceInfo| service_summary(s)))),
            ("service_count"@, jn(services.len() as u64)),
        ],
    )
}

/// Report of a failed connection.
pub open spec fn connect_error_report(url: Seq<char>, connect_ms: u64, total_ms: u64, c: ConnectConfig, error: Seq<char>) -> Json {
    Json::Object(
        seq![
            ("success"@, Json::Bool(false)),
            ("connection_id"@, Json::Null),
            ("url"@, js(url)),
            ("request"@, connect_request_json(c)),
            ("timing"@, connect_timing_json(connect_ms, total_ms)),
            ("error"@, js(error)),
        ],
    )
}

fn connect_request_value(c: &ConnectConfig) -> (r: JsonValue)
    ensures
        r.model() == connect_request_json(*c),
{
    let mut p: Vec<(String, JsonValue)> = Vec::new();
    member(&mut p, "url", text(c.url.as_str()));
    member(&mut p, "use_tls", JsonValue::Bool(c.use_tls));
    member(&mut p, "tls_skip_verify", JsonValue::Bool(c.tls_skip_verify));
    member(&mut p, "enable_reflection", JsonValue::Bool(c.enable_reflection));
    member(&mut p, "proto_files_count", num(c.proto_files.len() as u64));
    member(&mut p, "default_metadata_count", num(c.default_metadata.len() as u64));
    member(&mut p, "connect_timeout_ms", num(c.connect_timeout_ms));
    proof {
        assert(pairs_model(p@) =~= seq![
            ("url"@, js(c.url@)),
            ("use_tls"@, Json::Bool(c.use_tls)),
            ("tls_skip_verify"@, Json::Bool(c.tls_skip_verify)),
            ("enable_reflection"@, Json::Bool(c.enable_reflection)),
            ("proto_files_count"@, jn(c.proto_files@.len() as u64)),
            ("default_metadata_count"@, jn(c.default_metadata@.len() as u64)),
            ("connect_timeout_ms"@, jn(c.connect_timeout_ms)),
        ]);
    }
    object(p)
}

fn connect_timing_value(connect_ms: u64, total_ms: u64) -> (r: JsonValue)
    ensures
        r.model() == connect_timing_json(connect_ms, total_ms),
{
    let mut p: Vec<(String, JsonValue)> = Vec::new();
    member(&mut p, "connect_ms", num(connect_ms));
    member(&mut p, "total_ms", num(total_ms));
    proof {
        assert(pairs_model(p@) =~= seq![("connect_ms"@, jn(connect_ms)), ("total_ms"@, jn(total_ms))]);
    }
    object(p)
}

fn service_summary_value(s: &GrpcServiceInfo) -> (r: JsonValue)
    ensures
        r.model() == service_summary(*s),
{
    let mut methods: Vec<JsonValue> = Vec::new();
    let mut i: usize = 0;
    while i < s.methods.len()
        invariant
            i <= s.methods@.len(),
            values_model(methods@) == s.methods@.take(i as int).map_values(|m: GrpcMethodInfo| method_summary(m)),
        decreases s.methods.len() - i,
    {
        let m = &s.methods[i];
        let mut p: Vec<(String, JsonValue)> = Vec::new();
        member(&mut p, "method_name", text(m.method_name.as_str()));
        member(&mut p, "input_type", text(m.input_type.as_str()));
        member(&mut p, "output_type", text(m.output_type.as_str()));
        member(&mut p, "is_server_streaming", JsonValue::Bool(m.is_server_streaming));
        proof {
            assert(pairs_model(p@) =~= seq![
                ("method_name"@, js(m.method_name@)),
                ("input_type"@, js(m.input_type@)),
                ("output_type"@, js(m.output_type@)),
                ("is_server_streaming"@, Json::Bool(m.is_server_streaming)),
            ]);
        }
        let ghost before = methods@;
        let o = object(p);
        methods.push(o);
        proof {
            assert(values_model(methods@) =~= values_model(before).push(o.model()));
            assert(s.methods@.take(i + 1) =~= s.methods@.take(i as int).push(s.methods@[i as int]));
        }
        i = i + 1;
    }
    proof {
        assert(s.methods@.take(s.methods@.len() as int) =~= s.methods@);
    }
    let mut p: Vec<(String, JsonValue)> = Vec::new();
    member(&mut p, "service_name", text(s.service_name.as_str()));
    member(&mut p, "methods", array(methods));
    proof {
        assert(pairs_model(p@) =~= seq![
            ("service_name"@, js(s.service_name@)),
            ("methods"@, Json::Array(s.methods@.map_values(|m: GrpcMethodInfo| method_summary(m)))),
        ]);
    }
    object(p)
}

/// The report of a successful connection.
pub fn build_connect_output(
    connection_id: &str,
    url: &str,
    connect_ms: u64,
    total_ms: u64,
    services: &Vec<GrpcServiceInfo>,
    config: &ConnectConfig,
) -> (r: JsonValue)
    ensures
        r.model() == connect_success_report(connection_id@, url@, connect_ms, total_ms, services@, *config),
{
    let mut items: Vec<JsonValue> = Vec::new();
    let mut i: usize = 0;
    while i < services.len()
        invariant
            i <= services@.len(),
            values_model(items@) == services@.take(i as int).map_values(|s: GrpcServiceInfo| service_summary(s)),
        decreases services.len() - i,
    {
        let ghost before = items@;
        let o = service_summary_value(&services[i]);
        items.push(o);
        proof {
            assert(values_model(items@) =~= values_model(before).push(o.model()));
            assert(services@.take(i + 1) =~= services@.take(i as int).push(services@[i as int]));
        }
        i = i + 1;
    }
    proof {
        assert(services@.take(services@.len() as int) =~= services@);
    }
    let mut p: Vec<(String, JsonValue)> = Vec::new();
    member(&mut p, "success", JsonValue::Bool(true));
    member(&mut p, "connection_id", text(connection_id));
    member(&mut p, "url", text(url));
    member(&mut p, "request", connect_request_value(config));
    member(&mut p, "timing", connect_timing_value(connect_ms, total_ms));
    member(&mut p, "services", array(items));
    member(&mut p, "service_count", num(services.len() as u64));
    proof {
        assert(pairs_model(p@) =~= seq![
            ("success"@, Json::Bool(true)),
            ("connection_id"@, js(connection_id@)),
            ("url"@, js(url@)),
            ("request"@, connect_request_json(*config)),
            ("timing"@, connect_timing_json(connect_ms, total_ms)),
            ("services"@, Json::Array(services@.map_values(|s: GrpcServiceInfo| service_summary(s)))),
            ("service_count"@, jn(services@.len() as u64)),
        ]);
    }
    object(p)
}

/// The report of a failed connection.
pub fn build_connect_error_output(url: &str, connect_ms: u64, total_ms: u64, config: &ConnectConfig, error: &str) -> (r: JsonValue)
    ensures
        r.model() == connect_error_report(url@, connect_ms, total_ms, *config, error@),
{
    let mut p: Vec<(String, JsonValue)> = Vec::new();
    member(&mut p, "success", JsonValue::Bool(false));
    member(&mut p, "connection_id", JsonValue::Null);
    member(&mut p, "url", text(url));
    member(&mut p, "request", connect_request_value(config));
    member(&mut p, "timing", connect_timing_value(connect_ms, total_ms));
    member(&mut p, "error", text(error));
    proof {
        assert(pairs_model(p@) =~= seq![
            ("success"@, Json::Bool(false)),
            ("connection_id"@, Json::Null),
            ("url"@, js(url@)),
            ("request"@, connect_request_json(*config)),
            ("timing"@, connect_timing_json(connect_ms, total_ms)),
            ("error"@, js(error@)),
        ]);
    }
    object(p)
}

// ---------------------------------------------------------------------------
// grpc:close
// ---------------------------------------------------------------------------

/// The report of a `grpc:close` node: the closed connection id,
/// the timings, and the error when the close failed.
pub open spec fn close_report(connection_id: Seq<char>, close_ms: u64, total_ms: u64, error: Option<Seq<char>>) -> Json {
    let base = seq![
        ("success"@, Json::Bool(error is None)),
        ("connection_id"@, js(connection_id)),
        ("request"@, Json::Object(seq![("connection_id"@, js(connection_id))])),
        ("timing"@, Json::Object(seq![("close_ms"@, jn(close_ms)), ("total_ms"@, jn(total_ms))])),
    ];
    match error {
        Some(e) => Json::Object(base.push(("error"@, js(e)))),
        None => Json::Object(base),
    }
}

pub fn build_close_output(connection_id: &str, close_ms: u64, total_ms: u64, error: Option<&str>) -> (r: JsonValue)
    ensures
        r.model() == close_report(
            connection_id@,
            close_ms,
            total_ms,
            match error {
                Some(e) => Some(e@),
                None => None,
            },
        ),
{
    let mut req: Vec<(String, JsonValue)> = Vec::new();
    member(&mut req, "connection_id", text(connection_id));
    let mut timing: Vec<(String, JsonValue)> = Vec::new();
    member(&mut timing, "close_ms", num(close_ms));
    member(&mut timing, "total_ms", num(total_ms));
    proof {
        assert(pairs_model(req@) =~= seq![("connection_id"@, js(connection_id@))]);
        assert(pairs_model(timing@) =~= seq![("close_ms"@, jn(close_ms)), ("total_ms"@, jn(total_ms))]);
    }
    let mut p: Vec<(String, JsonValue)> = Vec::new();
    member(&mut p, "success", JsonValue::Bool(error.is_none()));
    member(&mut p, "connection_id", text(connection_id));
    member(&mut p, "request", object(req));
    member(&mut p, "timing", object(timing));
    let ghost base = pairs_model(p@);
    proof {
        assert(base =~= seq![
            ("success"@, Json::Bool(error is None)),
            ("connection_id"@, js(connection_id@)),
            ("request"@, Json::Object(seq![("connection_id"@, js(connection_id@))])),
            ("timing"@, Json::Object(seq![("close_ms"@, jn(close_ms)), ("total_ms"@, jn(total_ms))])),
        ]);
    }
    match error {
        Some(e) => member(&mut p, "error", text(e)),
        None => {},
    }
    object(p)
}

/// Whether a close can proceed: the connection id must not be blank.
pub fn close_target_ok(connection_id: &str) -> (r: bool)
    ensures
        r == !is_blank(connection_id@),
{
    !blank(connection_id)
}

} // verus!
