//! The plugin's node types: which node a configuration is for, whether a
//! configuration can run, and the texts shown in the user's language.
use vstd::prelude::*;

use crate::json::{get_str, Json, JsonValue};
use crate::text::{blank, concat, concat3, is_blank, str_eq};

verus! {

/// Language of the texts shown to the user.
#[derive(Debug, PartialEq, Eq, Structural, Clone, Copy)]
pub enum Locale {
    Zh,
    En,
}

pub open spec fn tr(l: Locale, zh: Seq<char>, en: Seq<char>) -> Seq<char> {
    match l {
        Locale::Zh => zh,
        Locale::En => en,
    }
}

/// The text in the user's language.
pub fn t(l: Locale, zh: &str, en: &str) -> (r: String)
    ensures
        r@ == tr(l, zh@, en@),
{
    match l {
        Locale::Zh => crate::text::owned(zh),
        Locale::En => crate::text::owned(en),
    }
}

/// The node types of the plugin.
#[derive(Debug, PartialEq, Eq, Structural, Clone, Copy)]
pub enum NodeKind {
    Connect,
    Call,
    Close,
}

pub open spec fn node_kind_of(t: Seq<char>) -> Option<NodeKind> {
    if t == "grpc:connect"@ {
        Some(NodeKind::Connect)
    } else if t == "grpc:call"@ {
        Some(NodeKind::Call)
    } else if t == "grpc:close"@ {
        Some(NodeKind::Close)
    } else {
        None
    }
}

/// The node type named by a configuration's `type` member.
pub fn node_kind(node_type: &str) -> (r: Option<NodeKind>)
    ensures
        r == node_kind_of(node_type@),
{
    if str_eq(node_type, "grpc:connect") {
        Some(NodeKind::Connect)
    } else if str_eq(node_type, "grpc:call") {
        Some(NodeKind::Call)
    } else if str_eq(node_type, "grpc:close") {
        Some(NodeKind::Close)
    } else {
        None
    }
}

/// Member `key` as a string, or the empty string.
pub open spec fn member_text(j: Json, key: Seq<char>) -> Seq<char> {
    match get_str(j, key) {
        Some(s) => s,
        None => Seq::empty(),
    }
}

pub open spec fn select_connection_msg(l: Locale) -> Seq<char> {
    tr(l, "请选择 grpc:connect 连接节点"@, "Please select a grpc:connect connection node"@)
}

/// Whether a node configuration can run: a connect node needs a
/// server address, a call node a connection, a service and a method, and a
/// close node a connection; blank values count as missing.
pub open spec fn validation_spec(config: Json, l: Locale) -> Result<(), Seq<char>> {
    let kind = member_text(config, "type"@);
    match node_kind_of(kind) {
        Some(NodeKind::Connect) => if is_blank(member_text(config, "url"@)) {
            Err(tr(l, "请填写服务器地址"@, "server URL is required"@))
        } else {
            Ok(())
        },
        Some(NodeKind::Call) => if is_blank(member_text(config, "connection_id"@)) {
            Err(select_connection_msg(l))
        } else if is_blank(member_text(config, "service_name"@)) {
            Err(tr(l, "请填写服务全名"@, "service name is required"@))
        } else if is_blank(member_text(config, "method_name"@)) {
            Err(tr(l, "请填写方法名"@, "method name is required"@))
        } else {
            Ok(())
        },
        Some(NodeKind::Close) => if is_blank(member_text(config, "connection_id"@)) {
            Err(select_connection_msg(l))
        } else {
            Ok(())
        },
        None => Err(tr(l, "未知节点类型"@, "Unknown node type"@) + ": `"@ + kind + "`"@),
    }
}

/// Checks a node configuration before it runs.
pub fn validate(config: &JsonValue, l: Locale) -> (r: Result<(), String>)
    ensures
        match r {
            Ok(_) => validation_spec(config.model(), l) is Ok,
            Err(e) => validation_spec(config.model(), l) == Err::<(), Seq<char>>(e@),
        },
{
    let kind = config.get_str_or_empty("type");
    match node_kind(kind.as_str()) {
        Some(NodeKind::Connect) => {
            if blank(config.get_str_or_empty("url").as_str()) {
                return Err(t(l, "请填写服务器地址", "server URL is required"));
            }
            Ok(())
        },
        Some(NodeKind::Call) => {
            if blank(config.get_str_or_empty("connection_id").as_str()) {
                return Err(t(l, "请选择 grpc:connect 连接节点", "Please select a grpc:connect connection node"));
            }
            if blank(config.get_str_or_empty("service_name").as_str()) {
                return Err(t(l, "请填写服务全名", "service name is required"));
            }
            if blank(config.get_str_or_empty("method_name").as_str()) {
                return Err(t(l, "请填写方法名", "method name is required"));
            }
            Ok(())
        },
        Some(NodeKind::Close) => {
            if blank(config.get_str_or_empty("connection_id").as_str()) {
                return Err(t(l, "请选择 grpc:connect 连接节点", "Please select a grpc:connect connection node"));
            }
            Ok(())
        },
        None => {
            let head = t(l, "未知节点类型", "Unknown node type");
            let mut e = concat3(head.as_str(), ": `", kind.as_str());
            e.append("`");
            Err(e)
        },
    }
}

/// The failure of an execution whose configuration names no known node type.
pub fn unknown_node_message(l: Locale, node_type: &str) -> (r: String)
    ensures
        r@ == tr(l, "未知节点类型"@, "Unknown node type"@) + " `"@ + node_type@ + "`"@,
{
    let head = t(l, "未知节点类型", "Unknown node type");
    let mut e = concat3(head.as_str(), " `", node_type);
    e.append("`");
    e
}

/// Direction of a port.
#[derive(Debug, PartialEq, Eq, Structural, Clone, Copy)]
pub enum PortKind {
    In,
    Out,
}

/// A port of a node.
pub struct PortSpec {
    pub id: String,
    pub label: String,
    pub kind: PortKind,
}

/// The ports of an operation node: the input, and the `true` and `false`
/// outputs taken on success and on failure.
pub open spec fn are_operation_ports(r: Seq<PortSpec>, l: Locale) -> bool {
    &&& r.len() == 3
    &&& r[0].id@ == "in"@ && r[0].label@ == tr(l, "输入"@, "Input"@) && r[0].kind == PortKind::In
    &&& r[1].id@ == "true"@ && r[1].label@ == tr(l, "成功"@, "Success"@) && r[1].kind == PortKind::Out
    &&& r[2].id@ == "false"@ && r[2].label@ == tr(l, "失败"@, "Failure"@) && r[2].kind == PortKind::Out
}

/// The ports of every operation node, in the user's language.
pub fn operation_ports(l: Locale) -> (r: Vec<PortSpec>)
    ensures
        are_operation_ports(r@, l),
{
    let mut r: Vec<PortSpec> = Vec::new();
    r.push(PortSpec { id: crate::text::owned("in"), label: t(l, "输入", "Input"), kind: PortKind::In });
    r.push(PortSpec { id: crate::text::owned("true"), label: t(l, "成功", "Success"), kind: PortKind::Out });
    r.push(PortSpec { id: crate::text::owned("false"), label: t(l, "失败", "Failure"), kind: PortKind::Out });
    r
}

} // verus!
