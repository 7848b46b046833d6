//! Node configurations read from the host's resolved `config` document.
use vstd::prelude::*;

use crate::json::{get_array, get_bool, get_str, get_u64, opt_model, str_or_empty, values_model, Json, JsonValue};

verus! {

// ---------------------------------------------------------------------------
// Views
// ---------------------------------------------------------------------------

pub open spec fn pairs_v(v: Seq<(String, String)>) -> Seq<(Seq<char>, Seq<char>)> {
    v.map_values(|p: (String, String)| (p.0@, p.1@))
}

pub open spec fn strings_v(v: Seq<String>) -> Seq<Seq<char>> {
    v.map_values(|s: String| s@)
}

pub open spec fn opt_string_v(o: Option<String>) -> Option<Seq<char>> {
    match o {
        Some(s) => Some(s@),
        None => None,
    }
}

pub open spec fn messages_v(v: Seq<(String, bool)>) -> Seq<(Seq<char>, bool)> {
    v.map_values(|p: (String, bool)| (p.0@, p.1))
}

// ---------------------------------------------------------------------------
// Lists inside a configuration
// ---------------------------------------------------------------------------

/// The two string members `k1` and `k2` of `j`, when both are strings.
pub open spec fn string_pair(j: Json, k1: Seq<char>, k2: Seq<char>) -> Option<(Seq<char>, Seq<char>)> {
    match (get_str(j, k1), get_str(j, k2)) {
        (Some(a), Some(b)) => Some((a, b)),
        _ => None,
    }
}

/// The items of `items` that carry both string members, in order; the others are skipped.
pub open spec fn string_pairs(items: Seq<Json>, k1: Seq<char>, k2: Seq<char>) -> Seq<(Seq<char>, Seq<char>)>
    decreases items.len(),
{
    if items.len() == 0 {
        Seq::empty()
    } else {
        let prev = string_pairs(items.drop_last(), k1, k2);
        match string_pair(items.last(), k1, k2) {
            Some(p) => prev.push(p),
            None => prev,
        }
    }
}

/// The string items of `items`, in order.
pub open spec fn string_items(items: Seq<Json>) -> Seq<Seq<char>>
    decreases items.len(),
{
    if items.len() == 0 {
        Seq::empty()
    } else {
        let prev = string_items(items.drop_last());
        match items.last().as_str() {
            Some(s) => prev.push(s),
            None => prev,
        }
    }
}

/// A message to send: its `content` string and its `enabled` flag (`true` when absent).
pub open spec fn request_message(j: Json) -> Option<(Seq<char>, bool)> {
    match get_str(j, "content"@) {
        Some(c) => Some(
            (
                c,
                match get_bool(j, "enabled"@) {
                    Some(b) => b,
                    None => true,
                },
            ),
        ),
        None => None,
    }
}

pub open spec fn request_messages(items: Seq<Json>) -> Seq<(Seq<char>, bool)>
    decreases items.len(),
{
    if items.len() == 0 {
        Seq::empty()
    } else {
        let prev = request_messages(items.drop_last());
        match request_message(items.last()) {
            Some(m) => prev.push(m),
            None => prev,
        }
    }
}

/// Metadata entries `[{key, value}]` of an optional array.
pub open spec fn metadata_spec(v: Option<Json>) -> Seq<(Seq<char>, Seq<char>)> {
    match v {
        Some(Json::Array(items)) => string_pairs(items, "key"@, "value"@),
        _ => Seq::empty(),
    }
}

/// Metadata entries `[{key, value}]` of member `key` of `j`.
pub open spec fn metadata_of(j: Json, key: Seq<char>) -> Seq<(Seq<char>, Seq<char>)> {
    metadata_spec(j.get(key))
}

/// A count read as `u32`: larger values keep their low 32 bits, as an `as` cast does.
pub open spec fn opt_u32_of(j: Json, key: Seq<char>) -> Option<u32> {
    match get_u64(j, key) {
        Some(v) => Some(v as u32),
        None => None,
    }
}

pub open spec fn opt_str_of(j: Json, key: Seq<char>) -> Option<Seq<char>> {
    get_str(j, key)
}

/// The items of an array that carry both string members `k1` and `k2`, as pairs.
pub fn collect_string_pairs(items: &Vec<JsonValue>, k1: &str, k2: &str) -> (r: Vec<(String, String)>)
    ensures
        pairs_v(r@) == string_pairs(values_model(items@), k1@, k2@),
{
    let ghost all = values_model(items@);
    let mut r: Vec<(String, String)> = Vec::new();
    let mut i: usize = 0;
    while i < items.len()
        invariant
            i <= items@.len(),
            all == values_model(items@),
            pairs_v(r@) == string_pairs(all.take(i as int), k1@, k2@),
        decreases items.len() - i,
    {
        proof {
            assert(all.take(i + 1).drop_last() =~= all.take(i as int));
            assert(all.take(i + 1).last() == items@[i as int].model());
        }
        let ghost before = r@;
        match (items[i].get_string(k1), items[i].get_string(k2)) {
            (Some(a), Some(b)) => {
                r.push((a, b));
                proof {
                    assert(pairs_v(r@) =~= pairs_v(before).push((a@, b@)));
                }
            },
            _ => {},
        }
        i = i + 1;
    }
    proof {
        assert(all.take(items@.len() as int) =~= all);
    }
    r
}

/// The string items of an array.
pub fn collect_strings(items: &Vec<JsonValue>) -> (r: Vec<String>)
    ensures
        strings_v(r@) == string_items(values_model(items@)),
{
    let ghost all = values_model(items@);
    let mut r: Vec<String> = Vec::new();
    let mut i: usize = 0;
    while i < items.len()
        invariant
            i <= items@.len(),
            all == values_model(items@),
            strings_v(r@) == string_items(all.take(i as int)),
        decreases items.len() - i,
    {
        proof {
            assert(all.take(i + 1).drop_last() =~= all.take(i as int));
            assert(all.take(i + 1).last() == items@[i as int].model());
        }
        let ghost before = r@;
        match items[i].as_str() {
            Some(s) => {
                r.push(s.clone());
                proof {
                    assert(strings_v(r@) =~= strings_v(before).push(s@));
                }
            },
            None => {},
        }
        i = i + 1;
    }
    proof {
        assert(all.take(items@.len() as int) =~= all);
    }
    r
}

fn collect_request_messages(items: &Vec<JsonValue>) -> (r: Vec<(String, bool)>)
    ensures
        messages_v(r@) == request_messages(values_model(items@)),
{
    let ghost all = values_model(items@);
    let mut r: Vec<(String, bool)> = Vec::new();
    let mut i: usize = 0;
    while i < items.len()
        invariant
            i <= items@.len(),
            all == values_model(items@),
            messages_v(r@) == request_messages(all.take(i as int)),
        decreases items.len() - i,
    {
        proof {
            assert(all.take(i + 1).drop_last() =~= all.take(i as int));
            assert(all.take(i + 1).last() == items@[i as int].model());
        }
        let ghost before = r@;
        match items[i].get_string("content") {
            Some(c) => {
                let enabled = match items[i].get_bool("enabled") {
                    Some(b) => b,
                    None => true,
                };
                r.push((c, enabled));
                proof {
                    assert(messages_v(r@) =~= messages_v(before).push((c@, enabled)));
                }
            },
            None => {},
        }
        i = i + 1;
    }
    proof {
        assert(all.take(items@.len() as int) =~= all);
    }
    r
}

/// Metadata entries `[{key, value}]`; entries lacking a string key or value are
/// skipped, and a missing or non-array value gives none.
pub fn metadata_from_value(value: Option<&JsonValue>) -> (r: Vec<(String, String)>)
    ensures
        pairs_v(r@) == metadata_spec(opt_model(value)),
{
    match value {
        Some(v) => match v.as_array() {
            Some(items) => collect_string_pairs(items, "key", "value"),
            None => {
                proof {
                    assert(pairs_v(Seq::<(String, String)>::empty()) =~= Seq::empty());
                }
                Vec::new()
            },
        },
        None => {
            proof {
                assert(pairs_v(Seq::<(String, String)>::empty()) =~= Seq::empty());
            }
            Vec::new()
        },
    }
}

/// Member `key` when it is `true`; `false` when absent or not a boolean.
pub fn flag(config: &JsonValue, key: &str) -> (r: bool)
    ensures
        r == (get_bool(config.model(), key@) == Some(true)),
{
    match config.get_bool(key) {
        Some(b) => b,
        None => false,
    }
}

fn opt_u32(config: &JsonValue, key: &str) -> (r: Option<u32>)
    ensures
        r == opt_u32_of(config.model(), key@),
{
    match config.get_u64(key) {
        Some(v) => Some(v as u32),
        None => None,
    }
}

// ---------------------------------------------------------------------------
// grpc:connect
// ---------------------------------------------------------------------------

/// Configuration of a `grpc:connect` node.
pub struct ConnectConfig {
    pub url: String,
    pub use_tls: bool,
    pub tls_skip_verify: bool,
    pub enable_reflection: bool,
    pub proto_files: Vec<(String, String)>,
    pub default_metadata: Vec<(String, String)>,
    pub connect_timeout_ms: u64,
    pub tls_ca_cert: Option<String>,
    pub tls_client_cert: Option<String>,
    pub tls_client_key: Option<String>,
    pub tls_server_name_override: Option<String>,
    pub reflection_metadata: Vec<(String, String)>,
    pub compression_encoding: Option<String>,
    pub keepalive_time_ms: Option<u64>,
    pub keepalive_timeout_ms: Option<u64>,
    pub keepalive_permit_without_streams: Option<bool>,
    pub endpoints: Option<Vec<String>>,
    /// Retry defaults of the connection; a call may override them.
    pub max_retries: Option<u32>,
    pub initial_backoff_ms: Option<u64>,
}

/// What a `grpc:connect` configuration document says, field by field.
pub open spec fn connect_config_matches(c: ConnectConfig, j: Json) -> bool {
    &&& c.url@ == str_or_empty(j, "url"@)
    &&& c.use_tls == (get_bool(j, "use_tls"@) == Some(true))
    &&& c.tls_skip_verify == (get_bool(j, "tls_skip_verify"@) == Some(true))
    &&& c.enable_reflection == (get_bool(j, "enable_reflection"@) == Some(true))
    &&& pairs_v(c.proto_files@) == match get_array(j, "proto_files"@) {
        Some(items) => string_pairs(items, "path"@, "content"@),
        None => Seq::empty(),
    }
    &&& pairs_v(c.default_metadata@) == metadata_of(j, "default_metadata"@)
    &&& c.connect_timeout_ms == match get_u64(j, "connect_timeout_ms"@) {
        Some(v) => v,
        None => 30_000u64,
    }
    &&& opt_string_v(c.tls_ca_cert) == opt_str_of(j, "tls_ca_cert"@)
    &&& opt_string_v(c.tls_client_cert) == opt_str_of(j, "tls_client_cert"@)
    &&& opt_string_v(c.tls_client_key) == opt_str_of(j, "tls_client_key"@)
    &&& opt_string_v(c.tls_server_name_override) == opt_str_of(j, "tls_server_name_override"@)
    &&& pairs_v(c.reflection_metadata@) == metadata_of(j, "reflection_metadata"@)
    &&& opt_string_v(c.compression_encoding) == opt_str_of(j, "compression_encoding"@)
    &&& c.keepalive_time_ms == get_u64(j, "keepalive_time_ms"@)
    &&& c.keepalive_timeout_ms == get_u64(j, "keepalive_timeout_ms"@)
    &&& c.keepalive_permit_without_streams == get_bool(j, "keepalive_permit_without_streams"@)
    &&& match c.endpoints {
        Some(e) => get_array(j, "endpoints"@) == Some(values_of_endpoints(j)) && strings_v(e@)
            == string_items(values_of_endpoints(j)),
        None => get_array(j, "endpoints"@) is None,
    }
    &&& c.max_retries == opt_u32_of(j, "max_retries"@)
    &&& c.initial_backoff_ms == get_u64(j, "initial_backoff_ms"@)
}

pub open spec fn values_of_endpoints(j: Json) -> Seq<Json> {
    match get_array(j, "endpoints"@) {
        Some(items) => items,
        None => Seq::empty(),
    }
}

impl ConnectConfig {
    /// Reads a `grpc:connect` configuration. Missing or
    /// mistyped members take their defaults: empty strings, `false`, a connect
    /// timeout of 30 000 ms, and `None` for optional settings. Never fails.
    pub fn from_value(config: &JsonValue) -> (r: Result<ConnectConfig, String>)
        ensures
            r is Ok,
            connect_config_matches(r->Ok_0, config.model()),
    {
        let proto_files = match config.get("proto_files") {
            Some(v) => match v.as_array() {
                Some(items) => collect_string_pairs(items, "path", "content"),
                None => Vec::new(),
            },
            None => Vec::new(),
        };
        let endpoints = match config.get("endpoints") {
            Some(v) => match v.as_array() {
                Some(items) => Some(collect_strings(items)),
                None => None,
            },
            None => None,
        };
        let c = ConnectConfig {
            url: config.get_str_or_empty("url"),
            use_tls: flag(config, "use_tls"),
            tls_skip_verify: flag(config, "tls_skip_verify"),
            enable_reflection: flag(config, "enable_reflection"),
            proto_files,
            default_metadata: metadata_from_value(config.get("default_metadata")),
            connect_timeout_ms: match config.get_u64("connect_timeout_ms") {
                Some(v) => v,
                None => 30_000,
            },
            tls_ca_cert: config.get_string("tls_ca_cert"),
            tls_client_cert: config.get_string("tls_client_cert"),
            tls_client_key: config.get_string("tls_client_key"),
            tls_server_name_override: config.get_string("tls_server_name_override"),
            reflection_metadata: metadata_from_value(config.get("reflection_metadata")),
            compression_encoding: config.get_string("compression_encoding"),
            keepalive_time_ms: config.get_u64("keepalive_time_ms"),
            keepalive_timeout_ms: config.get_u64("keepalive_timeout_ms"),
            keepalive_permit_without_streams: config.get_bool("keepalive_permit_without_streams"),
            endpoints,
            max_retries: opt_u32(config, "max_retries"),
            initial_backoff_ms: config.get_u64("initial_backoff_ms"),
        };
        proof {
            assert(pairs_v(Seq::<(String, String)>::empty()) =~= Seq::empty());
        }
        Ok(c)
    }
}

// ---------------------------------------------------------------------------
// grpc:call
// ---------------------------------------------------------------------------

/// Configuration of a `grpc:call` node.
pub struct CallConfig {
    pub connection_id: String,
    pub service_name: String,
    pub method_name: String,
    pub request_json: String,
    pub timeout_ms: u64,
    pub metadata: Vec<(String, String)>,
    /// Messages of a streaming call: content and whether it is sent.
    pub request_messages: Vec<(String, bool)>,
    pub compression_encoding: Option<String>,
    pub max_retries: Option<u32>,
    pub initial_backoff_ms: Option<u64>,
}

/// What a `grpc:call` configuration document says, field by field.
pub open spec fn call_config_matches(c: CallConfig, j: Json) -> bool {
    &&& c.connection_id@ == str_or_empty(j, "connection_id"@)
    &&& c.service_name@ == str_or_empty(j, "service_name"@)
    &&& c.method_name@ == str_or_empty(j, "method_name"@)
    &&& c.request_json@ == str_or_empty(j, "request_json"@)
    &&& c.timeout_ms == match get_u64(j, "timeout_ms"@) {
        Some(v) => v,
        None => 30_000u64,
    }
    &&& pairs_v(c.metadata@) == metadata_of(j, "metadata"@)
    &&& messages_v(c.request_messages@) == match get_array(j, "request_messages"@) {
        Some(items) => request_messages(items),
        None => Seq::empty(),
    }
    &&& opt_string_v(c.compression_encoding) == opt_str_of(j, "compression_encoding"@)
    &&& c.max_retries == opt_u32_of(j, "max_retries"@)
    &&& c.initial_backoff_ms == get_u64(j, "initial_backoff_ms"@)
}

impl CallConfig {
    /// Reads a `grpc:call` configuration: missing members
    /// take their defaults (empty strings, a 30 000 ms timeout, no metadata). Never fails.
    pub fn from_value(config: &JsonValue) -> (r: Result<CallConfig, String>)
        ensures
            r is Ok,
            call_config_matches(r->Ok_0, config.model()),
    {
        let request_messages = match config.get("request_messages") {
            Some(v) => match v.as_array() {
                Some(items) => collect_request_messages(items),
                None => Vec::new(),
            },
            None => Vec::new(),
        };
        let c = CallConfig {
            connection_id: config.get_str_or_empty("connection_id"),
            service_name: config.get_str_or_empty("service_name"),
            method_name: config.get_str_or_empty("method_name"),
            request_json: config.get_str_or_empty("request_json"),
            timeout_ms: match config.get_u64("timeout_ms") {
                Some(v) => v,
                None => 30_000,
            },
            metadata: metadata_from_value(config.get("metadata")),
            request_messages,
            compression_encoding: config.get_string("compression_encoding"),
            max_retries: opt_u32(config, "max_retries"),
            initial_backoff_ms: config.get_u64("initial_backoff_ms"),
        };
        proof {
            assert(messages_v(Seq::<(String, bool)>::empty()) =~= Seq::empty());
        }
        Ok(c)
    }
}

} // verus!
