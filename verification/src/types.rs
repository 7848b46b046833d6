//! Data types shared by discovery, calls and reports.
use vstd::prelude::*;

use crate::json::{Json, JsonValue};

verus! {

/// The four gRPC communication patterns.
#[derive(Debug, Clone, Copy, PartialEq, Eq, Structural)]
pub enum GrpcPattern {
    Unary,
    ServerStreaming,
    ClientStreaming,
    BidiStreaming,
}

impl GrpcPattern {
    pub open spec fn spec_from_method_info(is_client_streaming: bool, is_server_streaming: bool) -> GrpcPattern {
        if !is_client_streaming && !is_server_streaming {
            GrpcPattern::Unary
        } else if !is_client_streaming && is_server_streaming {
            GrpcPattern::ServerStreaming
        } else if is_client_streaming && !is_server_streaming {
            GrpcPattern::ClientStreaming
        } else {
            GrpcPattern::BidiStreaming
        }
    }

    /// Pattern of a method from its streaming flags.
    pub fn from_method_info(is_client_streaming: bool, is_server_streaming: bool) -> (r: Self)
        ensures
            r == Self::spec_from_method_info(is_client_streaming, is_server_streaming),
    {
        match (is_client_streaming, is_server_streaming) {
            (false, false) => GrpcPattern::Unary,
            (false, true) => GrpcPattern::ServerStreaming,
            (true, false) => GrpcPattern::ClientStreaming,
            (true, true) => GrpcPattern::BidiStreaming,
        }
    }

    /// The snake_case name used on the wire and in reports.
    pub open spec fn spec_wire_name(self) -> Seq<char> {
        match self {
            GrpcPattern::Unary => "unary"@,
            GrpcPattern::ServerStreaming => "server_streaming"@,
            GrpcPattern::ClientStreaming => "client_streaming"@,
            GrpcPattern::BidiStreaming => "bidi_streaming"@,
        }
    }

    pub fn wire_name(&self) -> (r: String)
        ensures
            r@ == self.spec_wire_name(),
    {
        match self {
            GrpcPattern::Unary => crate::text::owned("unary"),
            GrpcPattern::ServerStreaming => crate::text::owned("server_streaming"),
            GrpcPattern::ClientStreaming => crate::text::owned("client_streaming"),
            GrpcPattern::BidiStreaming => crate::text::owned("bidi_streaming"),
        }
    }

    /// Lower-cased variant name (`format!("{:?}", p).to_lowercase()`), used in logs.
    pub open spec fn spec_debug_lower(self) -> Seq<char> {
        match self {
            GrpcPattern::Unary => "unary"@,
            GrpcPattern::ServerStreaming => "serverstreaming"@,
            GrpcPattern::ClientStreaming => "clientstreaming"@,
            GrpcPattern::BidiStreaming => "bidistreaming"@,
        }
    }

    pub fn debug_lower(&self) -> (r: String)
        ensures
            r@ == self.spec_debug_lower(),
    {
        match self {
            GrpcPattern::Unary => crate::text::owned("unary"),
            GrpcPattern::ServerStreaming => crate::text::owned("serverstreaming"),
            GrpcPattern::ClientStreaming => crate::text::owned("clientstreaming"),
            GrpcPattern::BidiStreaming => crate::text::owned("bidistreaming"),
        }
    }
}

/// Timing of a streaming call.
#[derive(Debug, Clone, Copy, PartialEq, Eq)]
pub struct GrpcTimingInfo {
    pub total_ms: u64,
    pub first_response_ms: Option<u64>,
}

/// Result of a bidirectional streaming call.
pub struct GrpcStreamingResult {
    pub status: i32,
    pub responses: Vec<JsonValue>,
    pub sent_count: usize,
    pub received_count: usize,
    pub trailers: Vec<(String, String)>,
    pub response_metadata: Vec<(String, String)>,
    pub timing: GrpcTimingInfo,
    pub cancelled: bool,
}

/// One value of an enum type.
#[derive(Debug, Clone)]
pub struct GrpcEnumValue {
    pub name: String,
    pub number: i32,
}

/// A oneof group and the numbers of its fields.
#[derive(Debug, Clone)]
pub struct GrpcOneofInfo {
    pub name: String,
    pub field_numbers: Vec<u32>,
}

/// Description of a message type.
#[derive(Debug)]
pub struct GrpcMessageInfo {
    pub full_name: String,
    pub fields: Vec<GrpcFieldInfo>,
    pub oneof_groups: Vec<GrpcOneofInfo>,
    pub is_wkt: bool,
    pub reserved_ranges: Vec<(u32, u32)>,
    pub reserved_names: Vec<String>,
}

/// Description of a field.
#[derive(Debug)]
pub struct GrpcFieldInfo {
    pub name: String,
    pub number: u32,
    pub type_kind: String,
    pub type_display: String,
    pub type_full_name: Option<String>,
    pub label: String,
    pub is_map: bool,
    pub map_key_type: Option<String>,
    pub map_value_type: Option<String>,
    pub enum_values: Vec<GrpcEnumValue>,
    pub nested_message: Option<Box<GrpcMessageInfo>>,
}

/// A service with its methods and the message definitions of its connection.
#[derive(Debug)]
pub struct GrpcServiceInfo {
    pub service_name: String,
    pub methods: Vec<GrpcMethodInfo>,
    /// Message definitions keyed by full name; no name occurs twice.
    pub message_definitions: Vec<(String, GrpcMessageInfo)>,
}

/// A method of a service.
#[derive(Debug, Clone)]
pub struct GrpcMethodInfo {
    pub method_name: String,
    pub input_type: String,
    pub output_type: String,
    pub is_server_streaming: bool,
    pub is_client_streaming: bool,
}

/// One message of a response stream.
pub struct GrpcStreamMessage {
    pub index: usize,
    pub data: JsonValue,
    pub received_at_ms: u64,
    pub size_bytes: usize,
}

/// Answer of the health checking protocol.
#[derive(Debug, Clone)]
pub struct HealthCheckResponse {
    pub status: String,
}

/// One decoded entry of the details of a gRPC error status.
pub struct GrpcErrorDetail {
    pub type_url: String,
    pub decoded: Option<JsonValue>,
    pub raw_hex: Option<String>,
}

// ---------------------------------------------------------------------------
// Mathematical views of the definition types
// ---------------------------------------------------------------------------

pub struct EnumValueV {
    pub name: Seq<char>,
    pub number: i32,
}

pub struct OneofV {
    pub name: Seq<char>,
    pub field_numbers: Seq<u32>,
}

pub struct FieldInfoV {
    pub name: Seq<char>,
    pub number: u32,
    pub type_kind: Seq<char>,
    pub type_display: Seq<char>,
    pub type_full_name: Option<Seq<char>>,
    pub label: Seq<char>,
    pub is_map: bool,
    pub map_key_type: Option<Seq<char>>,
    pub map_value_type: Option<Seq<char>>,
    pub enum_values: Seq<EnumValueV>,
    pub nested_message: Option<Box<MessageInfoV>>,
}

pub struct MessageInfoV {
    pub full_name: Seq<char>,
    pub fields: Seq<FieldInfoV>,
    pub oneof_groups: Seq<OneofV>,
    pub is_wkt: bool,
    pub reserved_ranges: Seq<(u32, u32)>,
    pub reserved_names: Seq<Seq<char>>,
}

pub open spec fn opt_str_v(o: Option<String>) -> Option<Seq<char>> {
    match o {
        Some(s) => Some(s@),
        None => None,
    }
}

pub open spec fn enum_value_v(e: GrpcEnumValue) -> EnumValueV {
    EnumValueV { name: e.name@, number: e.number }
}

pub open spec fn oneof_v(o: GrpcOneofInfo) -> OneofV {
    OneofV { name: o.name@, field_numbers: o.field_numbers@ }
}

pub open spec fn message_v(m: GrpcMessageInfo) -> MessageInfoV
    decreases m,
{
    MessageInfoV {
        full_name: m.full_name@,
        fields: Seq::new(
            m.fields@.len(),
            |i: int|
                if 0 <= i < m.fields@.len() {
                    field_v(m.fields@[i])
                } else {
                    arbitrary()
                },
        ),
        oneof_groups: m.oneof_groups@.map_values(|o: GrpcOneofInfo| oneof_v(o)),
        is_wkt: m.is_wkt,
        reserved_ranges: m.reserved_ranges@,
        reserved_names: m.reserved_names@.map_values(|s: String| s@),
    }
}

pub open spec fn field_v(f: GrpcFieldInfo) -> FieldInfoV
    decreases f,
{
    FieldInfoV {
        name: f.name@,
        number: f.number,
        type_kind: f.type_kind@,
        type_display: f.type_display@,
        type_full_name: opt_str_v(f.type_full_name),
        label: f.label@,
        is_map: f.is_map,
        map_key_type: opt_str_v(f.map_key_type),
        map_value_type: opt_str_v(f.map_value_type),
        enum_values: f.enum_values@.map_values(|e: GrpcEnumValue| enum_value_v(e)),
        nested_message: match f.nested_message {
            Some(b) => Some(Box::new(message_v(*b))),
            None => None,
        },
    }
}

pub struct MethodInfoV {
    pub method_name: Seq<char>,
    pub input_type: Seq<char>,
    pub output_type: Seq<char>,
    pub is_server_streaming: bool,
    pub is_client_streaming: bool,
}

pub open spec fn method_v(m: GrpcMethodInfo) -> MethodInfoV {
    MethodInfoV {
        method_name: m.method_name@,
        input_type: m.input_type@,
        output_type: m.output_type@,
        is_server_streaming: m.is_server_streaming,
        is_client_streaming: m.is_client_streaming,
    }
}

pub open spec fn definitions_v(d: Seq<(String, GrpcMessageInfo)>) -> Seq<(Seq<char>, MessageInfoV)> {
    d.map_values(|p: (String, GrpcMessageInfo)| (p.0@, message_v(p.1)))
}

pub struct ServiceInfoV {
    pub service_name: Seq<char>,
    pub methods: Seq<MethodInfoV>,
    pub message_definitions: Seq<(Seq<char>, MessageInfoV)>,
}

pub open spec fn service_v(s: GrpcServiceInfo) -> ServiceInfoV {
    ServiceInfoV {
        service_name: s.service_name@,
        methods: s.methods@.map_values(|m: GrpcMethodInfo| method_v(m)),
        message_definitions: definitions_v(s.message_definitions@),
    }
}

} // verus!
