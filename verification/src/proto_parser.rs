//! Service discovery, request skeletons, request validation and message
//! definitions over a compiled proto schema.
use vstd::prelude::*;

use crate::json::{
    lemma_array_model, lemma_object_model, pairs_model, values_model, JNum, Json, JsonValue,
};
use crate::schema::{
    find_message, find_method, find_service, message_index, method_index, service_index,
    Cardinality, FieldDesc, FieldKind, MethodDesc, ProtoSchema, ServiceDesc,
};
use crate::text::{concat, owned};
use crate::config::strings_v;
use crate::types::MethodInfoV;
use crate::ui::{base_name, file_name_of};
use crate::definitions::{lemma_path_measure_decreases, lemma_path_set_push, path_contains, path_measure, path_set};

verus! {

/// A proto file supplied by the user.
#[derive(Debug, Clone)]
pub struct ProtoFile {
    pub path: String,
    pub content: String,
}

/// A service and its methods.
#[derive(Debug, Clone)]
pub struct ServiceInfo {
    pub service_name: String,
    pub methods: Vec<MethodInfo>,
}

/// A method of a service.
#[derive(Debug, Clone)]
pub struct MethodInfo {
    pub method_name: String,
    pub input_type: String,
    pub output_type: String,
    pub is_server_streaming: bool,
    pub is_client_streaming: bool,
}

/// Errors of proto compilation and directory scanning.
#[derive(Debug)]
pub enum ProtoParseError {
    ParseError(String),
    MissingFiles(Vec<String>),
    IoError(String),
}

/// The names of missing files as a quoted list: `["a.proto", "b.proto"]`.
pub open spec fn quoted_list(names: Seq<Seq<char>>) -> Seq<char>
    decreases names.len(),
{
    if names.len() == 0 {
        Seq::empty()
    } else if names.len() == 1 {
        "\""@ + names[0] + "\""@
    } else {
        quoted_list(names.drop_last()) + ", \""@ + names.last() + "\""@
    }
}

/// The text of an error.
pub open spec fn parse_error_text(e: ProtoParseError) -> Seq<char> {
    match e {
        ProtoParseError::ParseError(s) => "failed to parse proto files: "@ + s@,
        ProtoParseError::MissingFiles(v) => "missing files: ["@ + quoted_list(v@.map_values(|n: String| n@)) + "]"@,
        ProtoParseError::IoError(s) => "I/O Error: "@ + s@,
    }
}

impl ProtoParseError {
    /// The error message (the `Display` text); file names are quoted as written,
    /// without escaping.
    pub fn message(&self) -> (r: String)
        ensures
            r@ == parse_error_text(*self),
    {
        match self {
            ProtoParseError::ParseError(s) => concat("failed to parse proto files: ", s.as_str()),
            ProtoParseError::MissingFiles(v) => {
                let ghost names = v@.map_values(|n: String| n@);
                let mut r = owned("missing files: [");
                let ghost head = r@;
                let mut i: usize = 0;
                while i < v.len()
                    invariant
                        i <= v@.len(),
                        names == v@.map_values(|n: String| n@),
                        r@ == head + quoted_list(names.take(i as int)),
                    decreases v.len() - i,
                {
                    proof {
                        assert(names.take(i + 1).drop_last() =~= names.take(i as int));
                        assert(names.take(i + 1).last() == v@[i as int]@);
                        if i == 0 {
                            assert(names.take(0) =~= Seq::<Seq<char>>::empty());
                        }
                    }
                    if i == 0 {
                        r.append("\"");
                    } else {
                        r.append(", \"");
                    }
                    r.append(v[i].as_str());
                    r.append("\"");
                    proof {
                        assert(r@ =~= head + quoted_list(names.take(i + 1)));
                    }
                    i = i + 1;
                }
                proof {
                    assert(names.take(v@.len() as int) =~= names);
                }
                r.append("]");
                r
            },
            ProtoParseError::IoError(s) => concat("I/O Error: ", s.as_str()),
        }
    }
}

#[verifier::external_type_specification]
#[verifier::external_body]
pub struct ExDescriptorPool(prost_reflect::DescriptorPool);

/// The display text of the error `prost_reflect::DescriptorPool::decode` returns
/// for the bytes of a `FileDescriptorSet`, or `None` when it decodes them.
pub uninterp spec fn descriptor_set_error(bytes: Seq<u8>) -> Option<Seq<char>>;

/// Decodes an encoded `FileDescriptorSet` into a descriptor pool
/// (`prost_reflect::DescriptorPool::decode`); an error becomes its display text.
/// Which bytes decode, and the text of the error, are named by
/// `descriptor_set_error`; the pool itself is opaque here.
#[verifier::external_body]
fn decode_descriptor_pool(data: &[u8]) -> (r: Result<prost_reflect::DescriptorPool, String>)
    ensures
        match r {
            Ok(_) => descriptor_set_error(data@) is None,
            Err(e) => descriptor_set_error(data@) == Some(e@),
        },
{
    prost_reflect::DescriptorPool::decode(data).map_err(|e| e.to_string())
}

/// Reads a precompiled `FileDescriptorSet`: the pool
/// when the bytes decode, else a parse error `failed to parse FileDescriptorSet: `
/// followed by the decoder's error.
pub fn parse_descriptor_set(data: &[u8]) -> (r: Result<prost_reflect::DescriptorPool, ProtoParseError>)
    ensures
        r is Ok <==> descriptor_set_error(data@) is None,
        match r {
            Ok(_) => true,
            Err(e) => e is ParseError && descriptor_set_error(data@) is Some && e->ParseError_0@
                == "failed to parse FileDescriptorSet: "@ + descriptor_set_error(data@)->Some_0,
        },
{
    match decode_descriptor_pool(data) {
        Ok(pool) => Ok(pool),
        Err(e) => Err(ProtoParseError::ParseError(concat("failed to parse FileDescriptorSet: ", e.as_str()))),
    }
}

/// The names under which the files are compiled: the base name of each path
/// that has one, in order.
pub open spec fn compile_names(paths: Seq<Seq<char>>) -> Seq<Seq<char>>
    decreases paths.len(),
{
    if paths.len() == 0 {
        Seq::empty()
    } else {
        let rest = compile_names(paths.drop_last());
        match base_name(paths.last()) {
            Some(n) => rest.push(n),
            None => rest,
        }
    }
}

/// The file names handed to the compiler once the files are written: the
/// base names of the paths; with none, the error
/// `no valid proto files provided`. A path that names no file (empty, or
/// ending in `..`) has already failed where the file is written, so in the
/// program this step sees only paths that were written; the skip is kept for
/// callers that hand it paths directly.
pub fn compile_file_names(files: &Vec<ProtoFile>) -> (r: Result<Vec<String>, ProtoParseError>)
    ensures
        match r {
            Ok(names) => strings_v(names@) == compile_names(files@.map_values(|f: ProtoFile| f.path@))
                && names@.len() > 0,
            Err(e) => compile_names(files@.map_values(|f: ProtoFile| f.path@)).len() == 0
                && e == ProtoParseError::ParseError(e->ParseError_0) && e->ParseError_0@
                == "no valid proto files provided"@,
        },
{
    let ghost paths = files@.map_values(|f: ProtoFile| f.path@);
    let mut names: Vec<String> = Vec::new();
    let mut i: usize = 0;
    while i < files.len()
        invariant
            i <= files@.len(),
            paths == files@.map_values(|f: ProtoFile| f.path@),
            strings_v(names@) == compile_names(paths.take(i as int)),
        decreases files.len() - i,
    {
        proof {
            assert(paths.take(i + 1).drop_last() =~= paths.take(i as int));
        }
        match file_name_of(files[i].path.as_str()) {
            Some(n) => {
                names.push(n);
                proof {
                    assert(strings_v(names@) =~= compile_names(paths.take(i as int)).push(n@));
                }
            },
            None => {},
        }
        i = i + 1;
    }
    proof {
        assert(paths.take(files@.len() as int) =~= paths);
    }
    if names.len() == 0 {
        return Err(ProtoParseError::ParseError(owned("no valid proto files provided")));
    }
    Ok(names)
}

pub open spec fn method_info_v(m: MethodInfo) -> MethodInfoV {
    MethodInfoV {
        method_name: m.method_name@,
        input_type: m.input_type@,
        output_type: m.output_type@,
        is_server_streaming: m.is_server_streaming,
        is_client_streaming: m.is_client_streaming,
    }
}

pub open spec fn method_desc_v(m: MethodDesc) -> MethodInfoV {
    MethodInfoV {
        method_name: m.name@,
        input_type: m.input_type@,
        output_type: m.output_type@,
        is_server_streaming: m.is_server_streaming,
        is_client_streaming: m.is_client_streaming,
    }
}

/// What `list_services` reports for a service descriptor.
pub open spec fn service_desc_v(s: ServiceDesc) -> (Seq<char>, Seq<MethodInfoV>) {
    (s.full_name@, s.methods@.map_values(|m: MethodDesc| method_desc_v(m)))
}

pub open spec fn service_info_v(s: ServiceInfo) -> (Seq<char>, Seq<MethodInfoV>) {
    (s.service_name@, s.methods@.map_values(|m: MethodInfo| method_info_v(m)))
}

fn method_info_of(m: &MethodDesc) -> (r: MethodInfo)
    ensures
        method_info_v(r) == method_desc_v(*m),
{
    MethodInfo {
        method_name: m.name.clone(),
        input_type: m.input_type.clone(),
        output_type: m.output_type.clone(),
        is_server_streaming: m.is_server_streaming,
        is_client_streaming: m.is_client_streaming,
    }
}

/// Lists every service of the schema with its methods, in pool order.
pub fn list_services(pool: &ProtoSchema) -> (r: Vec<ServiceInfo>)
    ensures
        r@.map_values(|s: ServiceInfo| service_info_v(s)) == pool.services@.map_values(
            |s: ServiceDesc| service_desc_v(s),
        ),
{
    let mut out: Vec<ServiceInfo> = Vec::new();
    let mut i: usize = 0;
    while i < pool.services.len()
        invariant
            i <= pool.services@.len(),
            out@.len() == i,
            forall|k: int| 0 <= k < i ==> service_info_v(#[trigger] out@[k]) == service_desc_v(pool.services@[k]),
        decreases pool.services.len() - i,
    {
        let svc = &pool.services[i];
        let mut methods: Vec<MethodInfo> = Vec::new();
        let mut j: usize = 0;
        while j < svc.methods.len()
            invariant
                j <= svc.methods@.len(),
                methods@.len() == j,
                forall|k: int| 0 <= k < j ==> method_info_v(#[trigger] methods@[k]) == method_desc_v(svc.methods@[k]),
            decreases svc.methods.len() - j,
        {
            methods.push(method_info_of(&svc.methods[j]));
            j = j + 1;
        }
        let info = ServiceInfo { service_name: svc.full_name.clone(), methods };
        proof {
            assert(info.methods@.map_values(|m: MethodInfo| method_info_v(m)) =~= svc.methods@.map_values(
                |m: MethodDesc| method_desc_v(m),
            ));
        }
        out.push(info);
        i = i + 1;
    }
    proof {
        assert(out@.map_values(|s: ServiceInfo| service_info_v(s)) =~= pool.services@.map_values(
            |s: ServiceDesc| service_desc_v(s),
        ));
    }
    out
}

// ---------------------------------------------------------------------------
// Type names
// ---------------------------------------------------------------------------

/// Name of a field type.
pub open spec fn kind_name(k: FieldKind) -> Seq<char> {
    match k {
        FieldKind::Double => "double"@,
        FieldKind::Float => "float"@,
        FieldKind::Int32 | FieldKind::Sint32 | FieldKind::Sfixed32 => "int32"@,
        FieldKind::Int64 | FieldKind::Sint64 | FieldKind::Sfixed64 => "int64"@,
        FieldKind::Uint32 | FieldKind::Fixed32 => "uint32"@,
        FieldKind::Uint64 | FieldKind::Fixed64 => "uint64"@,
        FieldKind::Bool => "bool"@,
        FieldKind::Str => "string"@,
        FieldKind::Bytes => "bytes"@,
        FieldKind::Enum(n) => n@,
        FieldKind::Message(n) => n@,
    }
}

/// Name of a field type.
pub fn format_type_name(k: &FieldKind) -> (r: String)
    ensures
        r@ == kind_name(*k),
{
    match k {
        FieldKind::Double => owned("double"),
        FieldKind::Float => owned("float"),
        FieldKind::Int32 | FieldKind::Sint32 | FieldKind::Sfixed32 => owned("int32"),
        FieldKind::Int64 | FieldKind::Sint64 | FieldKind::Sfixed64 => owned("int64"),
        FieldKind::Uint32 | FieldKind::Fixed32 => owned("uint32"),
        FieldKind::Uint64 | FieldKind::Fixed64 => owned("uint64"),
        FieldKind::Bool => owned("bool"),
        FieldKind::Str => owned("string"),
        FieldKind::Bytes => owned("bytes"),
        FieldKind::Enum(n) => n.clone(),
        FieldKind::Message(n) => n.clone(),
    }
}

/// Display of a type with an optional `repeated ` prefix.
pub fn type_display(prefix: &str, type_label: &str) -> (r: String)
    ensures
        r@ == prefix@ + type_label@,
{
    concat(prefix, type_label)
}

// ---------------------------------------------------------------------------
// JSON skeletons
// ---------------------------------------------------------------------------

/// The placeholder JSON of a single field; `path` holds the messages being expanded.
pub open spec fn field_skeleton(s: ProtoSchema, f: FieldDesc, path: Set<Seq<char>>) -> Json
    decreases path_measure(s, path), 1nat,
{
    if f.is_map {
        Json::Object(Seq::empty())
    } else if f.cardinality == Cardinality::Repeated {
        Json::Array(Seq::empty())
    } else {
        match f.kind {
            FieldKind::Double | FieldKind::Float => Json::Number(JNum::Float("0.0"@)),
            FieldKind::Bool => Json::Bool(false),
            FieldKind::Str | FieldKind::Bytes => Json::Str(Seq::empty()),
            FieldKind::Message(n) => match message_index(s, n@) {
                Some(j) => message_skeleton(s, j, path),
                None => Json::Object(Seq::empty()),
            },
            _ => Json::Number(JNum::PosInt(0)),
        }
    }
}

/// The placeholder JSON object of message `mi`: every field with its placeholder, in
/// field order. A message already on `path` (one that contains itself through its
/// fields) is not expanded again: its placeholder is the empty object.
pub open spec fn message_skeleton(s: ProtoSchema, mi: int, path: Set<Seq<char>>) -> Json
    decreases path_measure(s, path), 0nat,
{
    if !(0 <= mi < s.messages@.len()) || path.contains(s.messages@[mi].full_name@) {
        Json::Object(Seq::empty())
    } else {
        let fields = s.messages@[mi].fields@;
        let inner = path.insert(s.messages@[mi].full_name@);
        proof {
            lemma_path_measure_decreases(s, path, mi);
        }
        Json::Object(Seq::new(fields.len(), |i: int| (fields[i].name@, field_skeleton(s, fields[i], inner))))
    }
}

fn empty_object() -> (r: JsonValue)
    ensures
        r.model() == Json::Object(Seq::empty()),
{
    let v: Vec<(String, JsonValue)> = Vec::new();
    proof {
        lemma_object_model(v);
        assert(pairs_model(v@) =~= Seq::empty());
    }
    JsonValue::Object(v)
}

fn field_skeleton_exec(s: &ProtoSchema, f: &FieldDesc, visited: &mut Vec<String>) -> (r: JsonValue)
    ensures
        r.model() == field_skeleton(*s, *f, path_set(old(visited)@)),
        final(visited)@ == old(visited)@,
    decreases path_measure(*s, path_set(old(visited)@)), 1nat,
{
    if f.is_map {
        return empty_object();
    }
    if f.cardinality == Cardinality::Repeated {
        let v: Vec<JsonValue> = Vec::new();
        proof {
            lemma_array_model(v);
            assert(values_model(v@) =~= Seq::empty());
        }
        return JsonValue::Array(v);
    }
    match &f.kind {
        FieldKind::Double | FieldKind::Float => JsonValue::Number(crate::json::JsonNumber::Float(owned("0.0"))),
        FieldKind::Bool => JsonValue::Bool(false),
        FieldKind::Str | FieldKind::Bytes => JsonValue::Str(String::new()),
        FieldKind::Message(n) => match find_message(s, n.as_str()) {
            Some(j) => message_skeleton_exec(s, j, visited),
            None => empty_object(),
        },
        _ => JsonValue::Number(crate::json::JsonNumber::PosInt(0)),
    }
}

fn message_skeleton_exec(s: &ProtoSchema, mi: usize, visited: &mut Vec<String>) -> (r: JsonValue)
    ensures
        r.model() == message_skeleton(*s, mi as int, path_set(old(visited)@)),
        final(visited)@ == old(visited)@,
    decreases path_measure(*s, path_set(old(visited)@)), 0nat,
{
    if mi >= s.messages.len() {
        return empty_object();
    }
    let m = &s.messages[mi];
    if path_contains(visited, m.full_name.as_str()) {
        return empty_object();
    }
    let ghost old_v = visited@;
    proof {
        lemma_path_measure_decreases(*s, path_set(old_v), mi as int);
        lemma_path_set_push(old_v, m.full_name);
    }
    visited.push(m.full_name.clone());
    let ghost inner = path_set(visited@);
    let mut out: Vec<(String, JsonValue)> = Vec::new();
    let mut i: usize = 0;
    while i < m.fields.len()
        invariant
            i <= m.fields@.len(),
            mi < s.messages@.len(),
            old_v == old(visited)@,
            m == s.messages@[mi as int],
            visited@ == old_v.push(m.full_name),
            inner == path_set(visited@),
            inner == path_set(old_v).insert(m.full_name@),
            path_measure(*s, inner) < path_measure(*s, path_set(old_v)),
            out@.len() == i,
            forall|k: int|
                0 <= k < i ==> #[trigger] out@[k].0@ == m.fields@[k].name@ && out@[k].1.model()
                    == field_skeleton(*s, m.fields@[k], inner),
        decreases m.fields.len() - i,
    {
        let v = field_skeleton_exec(s, &m.fields[i], visited);
        out.push((m.fields[i].name.clone(), v));
        i = i + 1;
    }
    visited.pop();
    proof {
        assert(visited@ =~= old_v);
        lemma_object_model(out);
        match message_skeleton(*s, mi as int, path_set(old_v)) {
            Json::Object(p) => {
                assert(p =~= pairs_model(out@));
            },
            _ => {},
        }
    }
    JsonValue::Object(out)
}

/// JSON skeleton of message `mi`: every field with a placeholder value; a message
/// nested in itself is given as the empty object where it recurs.
pub fn generate_json_skeleton(pool: &ProtoSchema, mi: usize) -> (r: JsonValue)
    ensures
        r.model() == message_skeleton(*pool, mi as int, Set::empty()),
{
    let mut visited: Vec<String> = Vec::new();
    proof {
        assert(path_set(visited@) =~= Set::empty());
    }
    message_skeleton_exec(pool, mi, &mut visited)
}

/// The skeleton of a message has one member per field, named as the field and
/// in field order, whether or not the message contains itself.
pub proof fn law_skeleton_names_every_field(s: ProtoSchema, mi: int)
    requires
        0 <= mi < s.messages@.len(),
    ensures
        message_skeleton(s, mi, Set::empty()) is Object,
        message_skeleton(s, mi, Set::empty())->Object_0.len() == s.messages@[mi].fields@.len(),
        forall|i: int|
            0 <= i < s.messages@[mi].fields@.len() ==> (#[trigger] message_skeleton(s, mi, Set::empty())->Object_0[i]).0
                == s.messages@[mi].fields@[i].name@,
{
}

/// Result of `generate_skeleton_from_pool`.
pub open spec fn spec_skeleton_from_pool(pool: ProtoSchema, service_name: Seq<char>, method_name: Seq<char>) -> Result<Json, Seq<char>> {
    match service_index(pool, service_name) {
        None => Err("service not found: "@ + service_name),
        Some(si) => match method_index(pool, si, method_name) {
            None => Err("method not found in service "@ + service_name + ": "@ + method_name),
            Some(mj) => match message_index(pool, pool.services@[si].methods@[mj].input_type@) {
                Some(mi) => Ok(message_skeleton(pool, mi, Set::empty())),
                None => Ok(Json::Object(Seq::empty())),
            },
        },
    }
}

/// Request skeleton for `service_name`/`method_name`: the skeleton of the method's input message.
pub fn generate_skeleton_from_pool(pool: &ProtoSchema, service_name: &str, method_name: &str) -> (r: Result<JsonValue, String>)
    ensures
        match r {
            Ok(v) => spec_skeleton_from_pool(*pool, service_name@, method_name@) == Ok::<Json, Seq<char>>(v.model()),
            Err(e) => spec_skeleton_from_pool(*pool, service_name@, method_name@) == Err::<Json, Seq<char>>(e@),
        },
{
    let si = match find_service(pool, service_name) {
        Some(si) => si,
        None => return Err(concat("service not found: ", service_name)),
    };
    let mj = match find_method(pool, si, method_name) {
        Some(mj) => mj,
        None => {
            let mut e = concat("method not found in service ", service_name);
            e.append(": ");
            e.append(method_name);
            return Err(e);
        },
    };
    let input = &pool.services[si].methods[mj].input_type;
    match find_message(pool, input.as_str()) {
        Some(mi) => Ok(generate_json_skeleton(pool, mi)),
        None => {
            let v: Vec<(String, JsonValue)> = Vec::new();
            proof {
                lemma_object_model(v);
                assert(pairs_model(v@) =~= Seq::empty());
            }
            Ok(JsonValue::Object(v))
        },
    }
}

} // verus!
