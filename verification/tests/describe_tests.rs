use mpe_plugin_grpc::describe::{connection_id_property, node_specs, NodeSpec, NODE_CATEGORY, NODE_COLOR};
use mpe_plugin_grpc::json::{JsonNumber, JsonValue};
use mpe_plugin_grpc::plugin::{operation_ports, Locale};

fn to_serde(v: &JsonValue) -> serde_json::Value {
    match v {
        JsonValue::Null => serde_json::Value::Null,
        JsonValue::Bool(b) => serde_json::Value::Bool(*b),
        JsonValue::Number(JsonNumber::PosInt(u)) => serde_json::Value::from(*u),
        JsonValue::Number(JsonNumber::NegInt(i)) => serde_json::Value::from(*i),
        JsonValue::Number(JsonNumber::Float(s)) => serde_json::from_str(s).unwrap_or(serde_json::Value::Null),
        JsonValue::Str(s) => serde_json::Value::String(s.clone()),
        JsonValue::Array(items) => serde_json::Value::Array(items.iter().map(to_serde).collect()),
        JsonValue::Object(pairs) => {
            let mut m = serde_json::Map::new();
            for (k, v) in pairs {
                m.insert(k.clone(), to_serde(v));
            }
            serde_json::Value::Object(m)
        }
    }
}

fn names(v: &[&str]) -> serde_json::Value {
    serde_json::Value::Array(v.iter().map(|s| serde_json::Value::String(s.to_string())).collect())
}

fn find<'a>(nodes: &'a [NodeSpec], type_id: &str) -> &'a NodeSpec {
    nodes.iter().find(|n| n.type_id == type_id).unwrap_or_else(|| panic!("{type_id} described"))
}

#[test]
fn describe_metadata_shapes() {
    let nodes = node_specs(Locale::En);
    assert_eq!(nodes.len(), 3);
    let mut ids: Vec<&str> = nodes.iter().map(|n| n.type_id.as_str()).collect();
    ids.sort_unstable();
    ids.dedup();
    assert_eq!(ids.len(), nodes.len());
    assert_eq!(NODE_CATEGORY, "grpc");
    assert_eq!(NODE_COLOR, "#8B5CF6");
    assert_eq!(operation_ports(Locale::En).len(), 3);
    for node in &nodes {
        assert!(!node.icon.is_empty());
        assert_eq!(node.category, NODE_CATEGORY);
        assert_eq!(node.color, NODE_COLOR);
        let ports: Vec<&str> = node.ports.iter().map(|p| p.id.as_str()).collect();
        assert_eq!(ports, vec!["in", "true", "false"]);
        let defaults = to_serde(&node.default_config);
        assert!(defaults.is_object());
        assert!(defaults.get("type").is_none());
        let schema = to_serde(&node.config_schema);
        assert_eq!(schema["type"], "object");
        assert!(schema["properties"].is_object());
        assert!(schema["required"].is_array());
    }
}

#[test]
fn connect_declares_single_node_capability() {
    let nodes = node_specs(Locale::En);
    assert!(find(&nodes, "grpc:connect").single_node);
    for other in ["grpc:call", "grpc:close"] {
        assert!(!find(&nodes, other).single_node);
    }
}

#[test]
fn operation_schema_has_connection_selector() {
    let nodes = node_specs(Locale::En);
    for node in &nodes {
        if node.type_id == "grpc:connect" {
            continue;
        }
        let schema = to_serde(&node.config_schema);
        assert_eq!(schema["properties"]["connection_id"]["x-node-selector"]["node_type"], "grpc:connect");
    }
}

#[test]
fn describe_lists_all_nodes() {
    let nodes = node_specs(Locale::En);
    let mut type_ids: Vec<&str> = nodes.iter().map(|n| n.type_id.as_str()).collect();
    type_ids.sort_unstable();
    assert_eq!(type_ids, vec!["grpc:call", "grpc:close", "grpc:connect"]);
    for node in &nodes {
        assert!(to_serde(&node.default_config).get("type").is_none());
    }
    assert!(find(&nodes, "grpc:connect").single_node);
    let call = to_serde(&find(&nodes, "grpc:call").config_schema);
    assert_eq!(call["properties"]["connection_id"]["x-node-selector"]["node_type"], "grpc:connect");
}

#[test]
fn node_defaults_and_required_fields() {
    let nodes = node_specs(Locale::En);
    let connect = find(&nodes, "grpc:connect");
    assert_eq!(connect.display_name, "gRPC Connect");
    assert_eq!(connect.icon, "plug");
    let defaults = to_serde(&connect.default_config);
    assert_eq!(defaults["connect_timeout_ms"], 30000);
    assert_eq!(defaults["use_tls"], false);
    assert!(defaults["retryable_status_codes"].is_null());
    assert_eq!(defaults.as_object().map(|m| m.len()), Some(23));
    let schema = to_serde(&connect.config_schema);
    assert_eq!(schema["required"], names(&["url"]));
    assert_eq!(schema["properties"]["endpoints"]["items"]["type"], "string");
    assert_eq!(schema["properties"]["url"]["description"], "Server address (host:port or URL)");

    let call = find(&nodes, "grpc:call");
    let schema = to_serde(&call.config_schema);
    assert_eq!(schema["required"], names(&["connection_id", "service_name", "method_name"]));
    assert_eq!(to_serde(&call.default_config)["timeout_ms"], 30000);

    let zh = node_specs(Locale::Zh);
    let schema = to_serde(&find(&zh, "grpc:call").config_schema);
    assert_eq!(schema["properties"]["method_name"]["description"], "方法名");
    assert_eq!(to_serde(&connection_id_property(Locale::Zh))["title"], "gRPC 连接");
}
