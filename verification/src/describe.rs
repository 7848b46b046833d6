//! The node descriptions the plugin announces: for each node type its name,
//! icon, default configuration and configuration schema, in the user's language.
use vstd::prelude::*;

use crate::call::{jn, js};
use crate::json::{array, member, num, object, pairs_model, text, values_model, Json, JsonValue};
use crate::plugin::{are_operation_ports, operation_ports, t, tr, Locale, PortSpec};

verus! {

/// The category of every node of the plugin.
pub const NODE_CATEGORY: &'static str = "grpc";

/// The color of every node of the plugin.
pub const NODE_COLOR: &'static str = "#8B5CF6";

/// A property of a configuration schema: `{type, description}`.
pub open spec fn prop_spec(ty: Seq<char>, description: Seq<char>) -> Json {
    Json::Object(seq![("type"@, js(ty)), ("description"@, js(description))])
}

/// An array property: `{type: "array", items: {type}, description}`.
pub open spec fn array_prop_spec(items: Seq<char>, description: Seq<char>) -> Json {
    Json::Object(
        seq![
            ("type"@, js("array"@)),
            ("items"@, Json::Object(seq![("type"@, js(items))])),
            ("description"@, js(description)),
        ],
    )
}

/// The `connection_id` property of the call and close nodes: a selector over the
/// connect nodes of the flow.
pub open spec fn connection_id_property_spec(l: Locale) -> Json {
    Json::Object(
        seq![
            ("type"@, js("string"@)),
            ("title"@, js(tr(l, "gRPC 连接"@, "gRPC Connection"@))),
            ("x-node-selector"@, Json::Object(seq![("node_type"@, js("grpc:connect"@))])),
        ],
    )
}

fn empty_array() -> (r: JsonValue)
    ensures
        r.model() == Json::Array(Seq::empty()),
{
    let items: Vec<JsonValue> = Vec::new();
    proof {
        assert(values_model(items@) =~= Seq::empty());
    }
    array(items)
}

fn prop(ty: &str, description: String) -> (r: JsonValue)
    ensures
        r.model() == prop_spec(ty@, description@),
{
    let mut p: Vec<(String, JsonValue)> = Vec::new();
    member(&mut p, "type", text(ty));
    member(&mut p, "description", text(description.as_str()));
    proof {
        assert(pairs_model(p@) =~= seq![("type"@, js(ty@)), ("description"@, js(description@))]);
    }
    object(p)
}

fn array_prop(items: &str, description: String) -> (r: JsonValue)
    ensures
        r.model() == array_prop_spec(items@, description@),
{
    let mut inner: Vec<(String, JsonValue)> = Vec::new();
    member(&mut inner, "type", text(items));
    proof {
        assert(pairs_model(inner@) =~= seq![("type"@, js(items@))]);
    }
    let mut p: Vec<(String, JsonValue)> = Vec::new();
    member(&mut p, "type", text("array"));
    member(&mut p, "items", object(inner));
    member(&mut p, "description", text(description.as_str()));
    proof {
        assert(pairs_model(p@) =~= seq![
            ("type"@, js("array"@)),
            ("items"@, Json::Object(seq![("type"@, js(items@))])),
            ("description"@, js(description@)),
        ]);
    }
    object(p)
}

/// The `connection_id` property of the call and close nodes.
pub fn connection_id_property(l: Locale) -> (r: JsonValue)
    ensures
        r.model() == connection_id_property_spec(l),
{
    let mut sel: Vec<(String, JsonValue)> = Vec::new();
    member(&mut sel, "node_type", text("grpc:connect"));
    proof {
        assert(pairs_model(sel@) =~= seq![("node_type"@, js("grpc:connect"@))]);
    }
    let title = t(l, "gRPC 连接", "gRPC Connection");
    let mut p: Vec<(String, JsonValue)> = Vec::new();
    member(&mut p, "type", text("string"));
    member(&mut p, "title", text(title.as_str()));
    member(&mut p, "x-node-selector", object(sel));
    proof {
        assert(pairs_model(p@) =~= seq![
            ("type"@, js("string"@)),
            ("title"@, js(tr(l, "gRPC 连接"@, "gRPC Connection"@))),
            ("x-node-selector"@, Json::Object(seq![("node_type"@, js("grpc:connect"@))])),
        ]);
    }
    object(p)
}

/// The default configuration of a new `grpc:connect` node.
pub open spec fn connect_defaults_spec() -> Json {
    Json::Object(
        seq![
            ("url"@, js(""@)),
            ("use_tls"@, Json::Bool(false)),
            ("tls_skip_verify"@, Json::Bool(false)),
            ("enable_reflection"@, Json::Bool(false)),
            ("proto_files"@, Json::Array(Seq::empty())),
            ("default_metadata"@, Json::Array(Seq::empty())),
            ("connect_timeout_ms"@, jn(30000)),
            ("discovered_services"@, Json::Array(Seq::empty())),
            ("tls_ca_cert"@, Json::Null),
            ("tls_client_cert"@, Json::Null),
            ("tls_client_key"@, Json::Null),
            ("tls_server_name_override"@, Json::Null),
            ("compression_encoding"@, Json::Null),
            ("keepalive_time_ms"@, Json::Null),
            ("keepalive_timeout_ms"@, Json::Null),
            ("keepalive_permit_without_streams"@, Json::Null),
            ("reflection_metadata"@, Json::Null),
            ("health_check_service"@, Json::Null),
            ("endpoints"@, Json::Null),
            ("max_retries"@, Json::Null),
            ("initial_backoff_ms"@, Json::Null),
            ("max_backoff_ms"@, Json::Null),
            ("retryable_status_codes"@, Json::Null),
        ],
    )
}

fn connect_defaults() -> (r: JsonValue)
    ensures
        r.model() == connect_defaults_spec(),
{
    let mut p: Vec<(String, JsonValue)> = Vec::new();
    member(&mut p, "url", text(""));
    member(&mut p, "use_tls", JsonValue::Bool(false));
    member(&mut p, "tls_skip_verify", JsonValue::Bool(false));
    member(&mut p, "enable_reflection", JsonValue::Bool(false));
    member(&mut p, "proto_files", empty_array());
    member(&mut p, "default_metadata", empty_array());
    member(&mut p, "connect_timeout_ms", num(30000));
    member(&mut p, "discovered_services", empty_array());
    member(&mut p, "tls_ca_cert", JsonValue::Null);
    member(&mut p, "tls_client_cert", JsonValue::Null);
    member(&mut p, "tls_client_key", JsonValue::Null);
    member(&mut p, "tls_server_name_override", JsonValue::Null);
    member(&mut p, "compression_encoding", JsonValue::Null);
    member(&mut p, "keepalive_time_ms", JsonValue::Null);
    member(&mut p, "keepalive_timeout_ms", JsonValue::Null);
    member(&mut p, "keepalive_permit_without_streams", JsonValue::Null);
    member(&mut p, "reflection_metadata", JsonValue::Null);
    member(&mut p, "health_check_service", JsonValue::Null);
    member(&mut p, "endpoints", JsonValue::Null);
    member(&mut p, "max_retries", JsonValue::Null);
    member(&mut p, "initial_backoff_ms", JsonValue::Null);
    member(&mut p, "max_backoff_ms", JsonValue::Null);
    member(&mut p, "retryable_status_codes", JsonValue::Null);
    proof {
        match connect_defaults_spec() {
            Json::Object(m) => assert(pairs_model(p@) =~= m),
            _ => {},
        }
    }
    object(p)
}

/// The default configuration of a new `grpc:call` node.
pub open spec fn call_defaults_spec() -> Json {
    Json::Object(
        seq![
            ("connection_id"@, js(""@)),
            ("service_name"@, js(""@)),
            ("method_name"@, js(""@)),
            ("request_json"@, js(""@)),
            ("timeout_ms"@, jn(30000)),
            ("metadata"@, Json::Array(Seq::empty())),
            ("request_messages"@, Json::Array(Seq::empty())),
            ("compression_encoding"@, Json::Null),
            ("max_retries"@, Json::Null),
            ("initial_backoff_ms"@, Json::Null),
        ],
    )
}

fn call_defaults() -> (r: JsonValue)
    ensures
        r.model() == call_defaults_spec(),
{
    let mut p: Vec<(String, JsonValue)> = Vec::new();
    member(&mut p, "connection_id", text(""));
    member(&mut p, "service_name", text(""));
    member(&mut p, "method_name", text(""));
    member(&mut p, "request_json", text(""));
    member(&mut p, "timeout_ms", num(30000));
    member(&mut p, "metadata", empty_array());
    member(&mut p, "request_messages", empty_array());
    member(&mut p, "compression_encoding", JsonValue::Null);
    member(&mut p, "max_retries", JsonValue::Null);
    member(&mut p, "initial_backoff_ms", JsonValue::Null);
    proof {
        match call_defaults_spec() {
            Json::Object(m) => assert(pairs_model(p@) =~= m),
            _ => {},
        }
    }
    object(p)
}

/// The default configuration of a new `grpc:close` node.
pub open spec fn close_defaults_spec() -> Json {
    Json::Object(
        seq![
            ("connection_id"@, js(""@)),
        ],
    )
}

fn close_defaults() -> (r: JsonValue)
    ensures
        r.model() == close_defaults_spec(),
{
    let mut p: Vec<(String, JsonValue)> = Vec::new();
    member(&mut p, "connection_id", text(""));
    proof {
        match close_defaults_spec() {
            Json::Object(m) => assert(pairs_model(p@) =~= m),
            _ => {},
        }
    }
    object(p)
}

/// The configuration properties of a `grpc:connect` node.
pub open spec fn connect_properties_spec(l: Locale) -> Json {
    Json::Object(
        seq![
            ("url"@, prop_spec("string"@, tr(l, "服务器地址（host:port 或 URL）"@, "Server address (host:port or URL)"@))),
            ("use_tls"@, prop_spec("boolean"@, tr(l, "启用 TLS"@, "Enable TLS"@))),
            ("tls_skip_verify"@, prop_spec("boolean"@, tr(l, "跳过证书验证（仅开发）"@, "Skip certificate verification (dev only)"@))),
            ("enable_reflection"@, prop_spec("boolean"@, tr(l, "Server Reflection 服务发现"@, "Discover via Server Reflection"@))),
            ("proto_files"@, array_prop_spec("object"@, tr(l, "Proto 文件"@, "Proto files"@))),
            ("default_metadata"@, array_prop_spec("object"@, tr(l, "默认 Metadata"@, "Default metadata"@))),
            ("connect_timeout_ms"@, prop_spec("number"@, tr(l, "连接超时（毫秒）"@, "Connect timeout (ms)"@))),
            ("discovered_services"@, array_prop_spec("object"@, tr(l, "发现的服务（设计时缓存）"@, "Discovered services (design-time cache)"@))),
            ("tls_ca_cert"@, prop_spec("string"@, tr(l, "自定义 CA 证书"@, "Custom CA cert"@))),
            ("tls_client_cert"@, prop_spec("string"@, tr(l, "客户端证书（mTLS）"@, "Client cert (mTLS)"@))),
            ("tls_client_key"@, prop_spec("string"@, tr(l, "客户端私钥（mTLS）"@, "Client key (mTLS)"@))),
            ("tls_server_name_override"@, prop_spec("string"@, tr(l, "TLS SNI 覆盖"@, "TLS SNI override"@))),
            ("compression_encoding"@, prop_spec("string"@, tr(l, "压缩编码（gzip/none）"@, "Compression (gzip/none)"@))),
            ("keepalive_time_ms"@, prop_spec("number"@, tr(l, "Keepalive 间隔（毫秒）"@, "Keepalive interval (ms)"@))),
            ("keepalive_timeout_ms"@, prop_spec("number"@, tr(l, "Keepalive 超时（毫秒）"@, "Keepalive timeout (ms)"@))),
            ("keepalive_permit_without_streams"@, prop_spec("boolean"@, tr(l, "无流时允许 PING"@, "Keepalive while idle"@))),
            ("reflection_metadata"@, array_prop_spec("object"@, tr(l, "反射认证 Metadata"@, "Reflection auth metadata"@))),
            ("endpoints"@, array_prop_spec("string"@, tr(l, "额外端点（负载均衡）"@, "Extra endpoints (load balancing)"@))),
            ("max_retries"@, prop_spec("number"@, tr(l, "最大重试次数"@, "Max retries"@))),
            ("initial_backoff_ms"@, prop_spec("number"@, tr(l, "初始退避（毫秒）"@, "Initial backoff (ms)"@))),
        ],
    )
}

fn connect_properties(l: Locale) -> (r: JsonValue)
    ensures
        r.model() == connect_properties_spec(l),
{
    let mut p: Vec<(String, JsonValue)> = Vec::new();
    member(&mut p, "url", prop("string", t(l, "服务器地址（host:port 或 URL）", "Server address (host:port or URL)")));
    member(&mut p, "use_tls", prop("boolean", t(l, "启用 TLS", "Enable TLS")));
    member(&mut p, "tls_skip_verify", prop("boolean", t(l, "跳过证书验证（仅开发）", "Skip certificate verification (dev only)")));
    member(&mut p, "enable_reflection", prop("boolean", t(l, "Server Reflection 服务发现", "Discover via Server Reflection")));
    member(&mut p, "proto_files", array_prop("object", t(l, "Proto 文件", "Proto files")));
    member(&mut p, "default_metadata", array_prop("object", t(l, "默认 Metadata", "Default metadata")));
    member(&mut p, "connect_timeout_ms", prop("number", t(l, "连接超时（毫秒）", "Connect timeout (ms)")));
    member(&mut p, "discovered_services", array_prop("object", t(l, "发现的服务（设计时缓存）", "Discovered services (design-time cache)")));
    member(&mut p, "tls_ca_cert", prop("string", t(l, "自定义 CA 证书", "Custom CA cert")));
    member(&mut p, "tls_client_cert", prop("string", t(l, "客户端证书（mTLS）", "Client cert (mTLS)")));
    member(&mut p, "tls_client_key", prop("string", t(l, "客户端私钥（mTLS）", "Client key (mTLS)")));
    member(&mut p, "tls_server_name_override", prop("string", t(l, "TLS SNI 覆盖", "TLS SNI override")));
    member(&mut p, "compression_encoding", prop("string", t(l, "压缩编码（gzip/none）", "Compression (gzip/none)")));
    member(&mut p, "keepalive_time_ms", prop("number", t(l, "Keepalive 间隔（毫秒）", "Keepalive interval (ms)")));
    member(&mut p, "keepalive_timeout_ms", prop("number", t(l, "Keepalive 超时（毫秒）", "Keepalive timeout (ms)")));
    member(&mut p, "keepalive_permit_without_streams", prop("boolean", t(l, "无流时允许 PING", "Keepalive while idle")));
    member(&mut p, "reflection_metadata", array_prop("object", t(l, "反射认证 Metadata", "Reflection auth metadata")));
    member(&mut p, "endpoints", array_prop("string", t(l, "额外端点（负载均衡）", "Extra endpoints (load balancing)")));
    member(&mut p, "max_retries", prop("number", t(l, "最大重试次数", "Max retries")));
    member(&mut p, "initial_backoff_ms", prop("number", t(l, "初始退避（毫秒）", "Initial backoff (ms)")));
    proof {
        match connect_properties_spec(l) {
            Json::Object(m) => assert(pairs_model(p@) =~= m),
            _ => {},
        }
    }
    object(p)
}

/// The configuration properties of a `grpc:call` node.
pub open spec fn call_properties_spec(l: Locale) -> Json {
    Json::Object(
        seq![
            ("connection_id"@, connection_id_property_spec(l)),
            ("service_name"@, prop_spec("string"@, tr(l, "服务全名"@, "Service full name"@))),
            ("method_name"@, prop_spec("string"@, tr(l, "方法名"@, "Method name"@))),
            ("request_json"@, prop_spec("string"@, tr(l, "请求 JSON"@, "Request JSON"@))),
            ("timeout_ms"@, prop_spec("number"@, tr(l, "调用超时（毫秒）"@, "Call timeout (ms)"@))),
            ("metadata"@, array_prop_spec("object"@, tr(l, "调用级 Metadata"@, "Call metadata"@))),
            ("request_messages"@, array_prop_spec("object"@, tr(l, "流式请求消息"@, "Streaming request messages"@))),
            ("compression_encoding"@, prop_spec("string"@, tr(l, "压缩覆盖（gzip/none）"@, "Compression override (gzip/none)"@))),
            ("max_retries"@, prop_spec("number"@, tr(l, "重试次数（覆盖连接级）"@, "Retries (overrides connection)"@))),
            ("initial_backoff_ms"@, prop_spec("number"@, tr(l, "初始退避（毫秒）"@, "Initial backoff (ms)"@))),
        ],
    )
}

fn call_properties(l: Locale) -> (r: JsonValue)
    ensures
        r.model() == call_properties_spec(l),
{
    let mut p: Vec<(String, JsonValue)> = Vec::new();
    member(&mut p, "connection_id", connection_id_property(l));
    member(&mut p, "service_name", prop("string", t(l, "服务全名", "Service full name")));
    member(&mut p, "method_name", prop("string", t(l, "方法名", "Method name")));
    member(&mut p, "request_json", prop("string", t(l, "请求 JSON", "Request JSON")));
    member(&mut p, "timeout_ms", prop("number", t(l, "调用超时（毫秒）", "Call timeout (ms)")));
    member(&mut p, "metadata", array_prop("object", t(l, "调用级 Metadata", "Call metadata")));
    member(&mut p, "request_messages", array_prop("object", t(l, "流式请求消息", "Streaming request messages")));
    member(&mut p, "compression_encoding", prop("string", t(l, "压缩覆盖（gzip/none）", "Compression override (gzip/none)")));
    member(&mut p, "max_retries", prop("number", t(l, "重试次数（覆盖连接级）", "Retries (overrides connection)")));
    member(&mut p, "initial_backoff_ms", prop("number", t(l, "初始退避（毫秒）", "Initial backoff (ms)")));
    proof {
        match call_properties_spec(l) {
            Json::Object(m) => assert(pairs_model(p@) =~= m),
            _ => {},
        }
    }
    object(p)
}

/// The configuration properties of a `grpc:close` node.
pub open spec fn close_properties_spec(l: Locale) -> Json {
    Json::Object(
        seq![
            ("connection_id"@, connection_id_property_spec(l)),
        ],
    )
}

fn close_properties(l: Locale) -> (r: JsonValue)
    ensures
        r.model() == close_properties_spec(l),
{
    let mut p: Vec<(String, JsonValue)> = Vec::new();
    member(&mut p, "connection_id", connection_id_property(l));
    proof {
        match close_properties_spec(l) {
            Json::Object(m) => assert(pairs_model(p@) =~= m),
            _ => {},
        }
    }
    object(p)
}
/// A configuration schema: an object with the given properties, some required.
pub open spec fn schema_spec(properties: Json, required: Seq<Seq<char>>) -> Json {
    Json::Object(
        seq![
            ("type"@, js("object"@)),
            ("properties"@, properties),
            ("required"@, Json::Array(required.map_values(|k: Seq<char>| js(k)))),
        ],
    )
}

fn schema(properties: JsonValue, required: &[&str]) -> (r: JsonValue)
    ensures
        r.model() == schema_spec(properties.model(), required@.map_values(|k: &str| k@)),
{
    let ghost names = required@.map_values(|k: &str| k@);
    let mut items: Vec<JsonValue> = Vec::new();
    let mut i: usize = 0;
    while i < required.len()
        invariant
            i <= required@.len(),
            names == required@.map_values(|k: &str| k@),
            values_model(items@) == names.take(i as int).map_values(|k: Seq<char>| js(k)),
        decreases required.len() - i,
    {
        let ghost before = items@;
        items.push(text(required[i]));
        proof {
            assert(values_model(items@) =~= values_model(before).push(js(names[i as int])));
            assert(names.take(i + 1) =~= names.take(i as int).push(names[i as int]));
        }
        i = i + 1;
    }
    proof {
        assert(names.take(required@.len() as int) =~= names);
    }
    let ghost pm = properties.model();
    let mut p: Vec<(String, JsonValue)> = Vec::new();
    member(&mut p, "type", text("object"));
    member(&mut p, "properties", properties);
    member(&mut p, "required", array(items));
    proof {
        assert(pairs_model(p@) =~= seq![
            ("type"@, js("object"@)),
            ("properties"@, pm),
            ("required"@, Json::Array(names.map_values(|k: Seq<char>| js(k)))),
        ]);
    }
    object(p)
}

/// What the host is told about a node type.
pub struct NodeSpec {
    pub type_id: String,
    pub display_name: String,
    pub icon: String,
    pub default_config: JsonValue,
    pub config_schema: JsonValue,
    /// Whether a single node of this type can run alone (the connect node).
    pub single_node: bool,
    /// The category the node is listed under.
    pub category: String,
    /// The color the node is drawn in.
    pub color: String,
    /// The ports of the node.
    pub ports: Vec<PortSpec>,
}

pub open spec fn node_spec_v(n: NodeSpec) -> (Seq<char>, Seq<char>, Seq<char>, Json, Json, bool) {
    (n.type_id@, n.display_name@, n.icon@, n.default_config.model(), n.config_schema.model(), n.single_node)
}

/// The description of every node type, connect, call and close.
pub open spec fn node_specs_spec(l: Locale) -> Seq<(Seq<char>, Seq<char>, Seq<char>, Json, Json, bool)> {
    seq![
        (
            "grpc:connect"@,
            "gRPC Connect"@,
            "plug"@,
            connect_defaults_spec(),
            schema_spec(connect_properties_spec(l), seq!["url"@]),
            true,
        ),
        (
            "grpc:call"@,
            "gRPC Call"@,
            "zap"@,
            call_defaults_spec(),
            schema_spec(call_properties_spec(l), seq!["connection_id"@, "service_name"@, "method_name"@]),
            false,
        ),
        (
            "grpc:close"@,
            "gRPC Close"@,
            "x"@,
            close_defaults_spec(),
            schema_spec(close_properties_spec(l), seq!["connection_id"@]),
            false,
        ),
    ]
}

/// The node types of the plugin, in the user's language.
pub fn node_specs(l: Locale) -> (r: Vec<NodeSpec>)
    ensures
        r@.map_values(|n: NodeSpec| node_spec_v(n)) == node_specs_spec(l),
        forall|i: int|
            0 <= i < r@.len() ==> (#[trigger] r@[i]).category@ == NODE_CATEGORY@ && r@[i].color@ == NODE_COLOR@
                && are_operation_ports(r@[i].ports@, l),
{
    let connect_required: [&str; 1] = ["url"];
    let call_required: [&str; 3] = ["connection_id", "service_name", "method_name"];
    let close_required: [&str; 1] = ["connection_id"];
    let connect = NodeSpec {
        type_id: crate::text::owned("grpc:connect"),
        display_name: crate::text::owned("gRPC Connect"),
        icon: crate::text::owned("plug"),
        default_config: connect_defaults(),
        config_schema: schema(connect_properties(l), connect_required.as_slice()),
        single_node: true,
        category: crate::text::owned(NODE_CATEGORY),
        color: crate::text::owned(NODE_COLOR),
        ports: operation_ports(l),
    };
    let call = NodeSpec {
        type_id: crate::text::owned("grpc:call"),
        display_name: crate::text::owned("gRPC Call"),
        icon: crate::text::owned("zap"),
        default_config: call_defaults(),
        config_schema: schema(call_properties(l), call_required.as_slice()),
        single_node: false,
        category: crate::text::owned(NODE_CATEGORY),
        color: crate::text::owned(NODE_COLOR),
        ports: operation_ports(l),
    };
    let close = NodeSpec {
        type_id: crate::text::owned("grpc:close"),
        display_name: crate::text::owned("gRPC Close"),
        icon: crate::text::owned("x"),
        default_config: close_defaults(),
        config_schema: schema(close_properties(l), close_required.as_slice()),
        single_node: false,
        category: crate::text::owned(NODE_CATEGORY),
        color: crate::text::owned(NODE_COLOR),
        ports: operation_ports(l),
    };
    proof {
        assert(connect_required@.map_values(|k: &str| k@) =~= seq!["url"@]);
        assert(call_required@.map_values(|k: &str| k@) =~= seq!["connection_id"@, "service_name"@, "method_name"@]);
        assert(close_required@.map_values(|k: &str| k@) =~= seq!["connection_id"@]);
    }
    let mut r: Vec<NodeSpec> = Vec::new();
    r.push(connect);
    r.push(call);
    r.push(close);
    proof {
        assert(r@.map_values(|n: NodeSpec| node_spec_v(n)) =~= node_specs_spec(l));
    }
    r
}

} // verus!
