//! Design-time queries of the configuration panel (`uiCall`): which query a
//! method name asks for, what its parameters must hold, and the answers.
use vstd::prelude::*;

use crate::call::{js, str_pairs_v};
use crate::config::{collect_string_pairs, flag, pairs_v, string_pairs};
use crate::json::{
    array, get_array, get_bool, get_str, get_u64, member, num, object, opt_text, pairs_model, str_or_empty, text,
    values_model, Json, JsonValue,
};
use crate::text::{blank, concat, concat3, is_blank, str_eq};
use crate::proto_parser::{parse_error_text, ProtoParseError};
use crate::validation::{error_v, errors_v, ValidationError, ValidationResult};

verus! {

/// The design-time queries.
#[derive(Debug, PartialEq, Eq, Structural, Clone, Copy)]
pub enum UiMethod {
    Discover,
    ScanProtoDirectory,
    ReadProtoFiles,
    ParseDescriptorSet,
    Skeleton,
    SkeletonReflection,
    Validate,
    Channelz,
    Health,
    CancelStream,
}

pub open spec fn ui_method_of(m: Seq<char>) -> Option<UiMethod> {
    if m == "grpc.discover"@ {
        Some(UiMethod::Discover)
    } else if m == "grpc.scanProtoDirectory"@ {
        Some(UiMethod::ScanProtoDirectory)
    } else if m == "grpc.readProtoFiles"@ {
        Some(UiMethod::ReadProtoFiles)
    } else if m == "grpc.parseDescriptorSet"@ {
        Some(UiMethod::ParseDescriptorSet)
    } else if m == "grpc.skeleton"@ {
        Some(UiMethod::Skeleton)
    } else if m == "grpc.skeletonReflection"@ {
        Some(UiMethod::SkeletonReflection)
    } else if m == "grpc.validate"@ {
        Some(UiMethod::Validate)
    } else if m == "grpc.channelz"@ {
        Some(UiMethod::Channelz)
    } else if m == "grpc.health"@ {
        Some(UiMethod::Health)
    } else if m == "grpc.cancelStream"@ {
        Some(UiMethod::CancelStream)
    } else {
        None
    }
}

/// The query a method name asks for; an unknown name is an error.
pub fn dispatch(method: &str) -> (r: Result<UiMethod, String>)
    ensures
        match r {
            Ok(m) => ui_method_of(method@) == Some(m),
            Err(e) => ui_method_of(method@) is None && e@ == "unknown uiCall sub-method `"@ + method@ + "`"@,
        },
{
    if str_eq(method, "grpc.discover") {
        Ok(UiMethod::Discover)
    } else if str_eq(method, "grpc.scanProtoDirectory") {
        Ok(UiMethod::ScanProtoDirectory)
    } else if str_eq(method, "grpc.readProtoFiles") {
        Ok(UiMethod::ReadProtoFiles)
    } else if str_eq(method, "grpc.parseDescriptorSet") {
        Ok(UiMethod::ParseDescriptorSet)
    } else if str_eq(method, "grpc.skeleton") {
        Ok(UiMethod::Skeleton)
    } else if str_eq(method, "grpc.skeletonReflection") {
        Ok(UiMethod::SkeletonReflection)
    } else if str_eq(method, "grpc.validate") {
        Ok(UiMethod::Validate)
    } else if str_eq(method, "grpc.channelz") {
        Ok(UiMethod::Channelz)
    } else if str_eq(method, "grpc.health") {
        Ok(UiMethod::Health)
    } else if str_eq(method, "grpc.cancelStream") {
        Ok(UiMethod::CancelStream)
    } else {
        Err(concat3("unknown uiCall sub-method `", method, "`"))
    }
}

/// An answer `{success, <key>: value, error}`.
pub open spec fn answer(success: bool, key: Seq<char>, value: Json, error: Option<Seq<char>>) -> Json {
    Json::Object(
        seq![
            ("success"@, Json::Bool(success)),
            (key, value),
            (
                "error"@,
                match error {
                    Some(e) => js(e),
                    None => Json::Null,
                },
            ),
        ],
    )
}

/// Builds an answer `{success, <key>: value, error}`.
pub fn make_answer(success: bool, key: &str, value: JsonValue, error: Option<String>) -> (r: JsonValue)
    ensures
        r.model() == answer(success, key@, value.model(), match error { Some(e) => Some(e@), None => None }),
{
    let ghost v = value.model();
    let ghost em = crate::config::opt_string_v(error);
    let mut p: Vec<(String, JsonValue)> = Vec::new();
    member(&mut p, "success", JsonValue::Bool(success));
    member(&mut p, key, value);
    member(&mut p, "error", opt_text(error));
    proof {
        assert(pairs_model(p@) =~= seq![
            ("success"@, Json::Bool(success)),
            (key@, v),
            ("error"@, match em { Some(e) => js(e), None => Json::Null }),
        ]);
    }
    object(p)
}

// ---------------------------------------------------------------------------
// grpc.discover
// ---------------------------------------------------------------------------

/// Parameters of a discovery.
pub struct DiscoverParams {
    pub url: String,
    pub use_tls: bool,
    pub tls_skip_verify: bool,
    pub enable_reflection: bool,
    pub connect_timeout_ms: u64,
    pub proto_files: Vec<(String, String)>,
    pub reflection_metadata: Vec<(String, String)>,
    pub tls_ca_cert: Option<String>,
    pub tls_client_cert: Option<String>,
    pub tls_client_key: Option<String>,
    pub tls_server_name_override: Option<String>,
}

pub open spec fn array_pairs(j: Json, key: Seq<char>, k1: Seq<char>, k2: Seq<char>) -> Seq<(Seq<char>, Seq<char>)> {
    match get_array(j, key) {
        Some(items) => string_pairs(items, k1, k2),
        None => Seq::empty(),
    }
}

fn read_array_pairs(params: &JsonValue, key: &str, k1: &str, k2: &str) -> (r: Vec<(String, String)>)
    ensures
        pairs_v(r@) == array_pairs(params.model(), key@, k1@, k2@),
{
    match params.get(key) {
        Some(v) => match v.as_array() {
            Some(items) => collect_string_pairs(items, k1, k2),
            None => {
                proof {
                    assert(pairs_v(Seq::<(String, String)>::empty()) =~= Seq::empty());
                }
                Vec::new()
            },
        },
        None => {
            proof {
                assert(pairs_v(Seq::<(String, String)>::empty()) =~= Seq::empty());
            }
            Vec::new()
        },
    }
}

/// Reads the parameters of `grpc.discover`; the server address is required.
pub fn discover_params(params: &JsonValue) -> (r: Result<DiscoverParams, String>)
    ensures
        match r {
            Ok(p) => !is_blank(str_or_empty(params.model(), "url"@)) && p.url@ == str_or_empty(params.model(), "url"@)
                && p.use_tls == (get_bool(params.model(), "use_tls"@) == Some(true)) && p.tls_skip_verify == (get_bool(
                params.model(),
                "tls_skip_verify"@,
            ) == Some(true)) && p.enable_reflection == (get_bool(params.model(), "enable_reflection"@) == Some(true))
                && p.connect_timeout_ms == match get_u64(params.model(), "connect_timeout_ms"@) {
                Some(v) => v,
                None => 30_000u64,
            } && pairs_v(p.proto_files@) == array_pairs(params.model(), "proto_files"@, "path"@, "content"@)
                && pairs_v(p.reflection_metadata@) == array_pairs(
                params.model(),
                "reflection_metadata"@,
                "key"@,
                "value"@,
            ) && crate::config::opt_string_v(p.tls_ca_cert) == get_str(params.model(), "tls_ca_cert"@)
                && crate::config::opt_string_v(p.tls_client_cert) == get_str(params.model(), "tls_client_cert"@)
                && crate::config::opt_string_v(p.tls_client_key) == get_str(params.model(), "tls_client_key"@)
                && crate::config::opt_string_v(p.tls_server_name_override) == get_str(
                params.model(),
                "tls_server_name_override"@,
            ),
            Err(e) => is_blank(str_or_empty(params.model(), "url"@)) && e@ == "url is required"@,
        },
{
    let url = params.get_str_or_empty("url");
    if blank(url.as_str()) {
        return Err(crate::text::owned("url is required"));
    }
    Ok(DiscoverParams {
        url,
        use_tls: flag(params, "use_tls"),
        tls_skip_verify: flag(params, "tls_skip_verify"),
        enable_reflection: flag(params, "enable_reflection"),
        connect_timeout_ms: match params.get_u64("connect_timeout_ms") {
            Some(v) => v,
            None => 30_000,
        },
        proto_files: read_array_pairs(params, "proto_files", "path", "content"),
        reflection_metadata: read_array_pairs(params, "reflection_metadata", "key", "value"),
        tls_ca_cert: params.get_string("tls_ca_cert"),
        tls_client_cert: params.get_string("tls_client_cert"),
        tls_client_key: params.get_string("tls_client_key"),
        tls_server_name_override: params.get_string("tls_server_name_override"),
    })
}

/// How a discovery finds the services.
#[derive(Debug, PartialEq, Eq, Structural, Clone, Copy)]
pub enum DiscoverySource {
    Reflection,
    ProtoFiles,
}

/// Reflection when enabled, else the proto files; with neither, an error.
pub fn discovery_source(p: &DiscoverParams) -> (r: Result<DiscoverySource, String>)
    ensures
        match r {
            Ok(s) => (s == DiscoverySource::Reflection) == p.enable_reflection && (s == DiscoverySource::ProtoFiles) == (
            !p.enable_reflection && p.proto_files@.len() > 0),
            Err(e) => !p.enable_reflection && p.proto_files@.len() == 0 && e@
                == "No proto files provided and Server Reflection not enabled"@,
        },
{
    if p.enable_reflection {
        Ok(DiscoverySource::Reflection)
    } else if p.proto_files.len() > 0 {
        Ok(DiscoverySource::ProtoFiles)
    } else {
        Err(crate::text::owned("No proto files provided and Server Reflection not enabled"))
    }
}

/// The answer of `grpc.discover`: the services (already in JSON form), or the error.
pub fn discover_answer(result: Result<JsonValue, String>) -> (r: JsonValue)
    ensures
        r.model() == match result {
            Ok(s) => answer(true, "services"@, s.model(), None),
            Err(e) => answer(false, "services"@, Json::Array(Seq::empty()), Some(e@)),
        },
{
    match result {
        Ok(s) => make_answer(true, "services", s, None),
        Err(e) => {
            let empty: Vec<JsonValue> = Vec::new();
            let a = array(empty);
            proof {
                assert(values_model(Seq::<JsonValue>::empty()) =~= Seq::empty());
            }
            make_answer(false, "services", a, Some(e))
        },
    }
}

// ---------------------------------------------------------------------------
// Other queries
// ---------------------------------------------------------------------------

/// A required text parameter: present and not blank.
pub fn required_param(params: &JsonValue, key: &str) -> (r: Result<String, String>)
    ensures
        match r {
            Ok(v) => v@ == str_or_empty(params.model(), key@) && !is_blank(v@),
            Err(e) => is_blank(str_or_empty(params.model(), key@)) && e@ == key@ + " is required"@,
        },
{
    let v = params.get_str_or_empty(key);
    if blank(v.as_str()) {
        Err(concat(key, " is required"))
    } else {
        Ok(v)
    }
}

pub open spec fn file_entry(path: Seq<char>, content: Seq<char>) -> Json {
    Json::Object(seq![("path"@, js(path)), ("content"@, js(content))])
}

pub open spec fn file_entries(files: Seq<(Seq<char>, Seq<char>)>) -> Seq<Json> {
    files.map_values(|f: (Seq<char>, Seq<char>)| file_entry(f.0, f.1))
}

fn file_list(files: &Vec<(String, String)>) -> (r: JsonValue)
    ensures
        r.model() == Json::Array(file_entries(str_pairs_v(files@))),
{
    let ghost fs = str_pairs_v(files@);
    let mut items: Vec<JsonValue> = Vec::new();
    let mut i: usize = 0;
    while i < files.len()
        invariant
            i <= files@.len(),
            fs == str_pairs_v(files@),
            values_model(items@) == file_entries(fs.take(i as int)),
        decreases files.len() - i,
    {
        let mut p: Vec<(String, JsonValue)> = Vec::new();
        member(&mut p, "path", text(files[i].0.as_str()));
        member(&mut p, "content", text(files[i].1.as_str()));
        proof {
            assert(pairs_model(p@) =~= seq![("path"@, js(fs[i as int].0)), ("content"@, js(fs[i as int].1))]);
        }
        let ghost before = items@;
        let o = object(p);
        items.push(o);
        proof {
            assert(values_model(items@) =~= values_model(before).push(o.model()));
            assert(fs.take(i + 1) =~= fs.take(i as int).push(fs[i as int]));
        }
        i = i + 1;
    }
    proof {
        assert(fs.take(files@.len() as int) =~= fs);
    }
    array(items)
}

/// The answer of `grpc.scanProtoDirectory`.
pub open spec fn scan_answer_spec(result: Result<(Seq<(Seq<char>, Seq<char>)>, Seq<char>), Seq<char>>) -> Json {
    match result {
        Ok((files, import_path)) => Json::Object(
            seq![
                ("success"@, Json::Bool(true)),
                ("files"@, Json::Array(file_entries(files))),
                ("import_path"@, js(import_path)),
                ("error"@, Json::Null),
            ],
        ),
        Err(e) => Json::Object(
            seq![
                ("success"@, Json::Bool(false)),
                ("files"@, Json::Array(Seq::empty())),
                ("import_path"@, Json::Null),
                ("error"@, js(e)),
            ],
        ),
    }
}

/// Answers `grpc.scanProtoDirectory` from the scan's outcome (its error as text).
pub fn scan_answer(result: Result<(Vec<(String, String)>, String), String>) -> (r: JsonValue)
    ensures
        r.model() == scan_answer_spec(
            match result {
                Ok((f, p)) => Ok((str_pairs_v(f@), p@)),
                Err(e) => Err(e@),
            },
        ),
{
    let mut p: Vec<(String, JsonValue)> = Vec::new();
    match result {
        Ok((files, import_path)) => {
            member(&mut p, "success", JsonValue::Bool(true));
            member(&mut p, "files", file_list(&files));
            member(&mut p, "import_path", text(import_path.as_str()));
            member(&mut p, "error", JsonValue::Null);
            proof {
                assert(pairs_model(p@) =~= seq![
                    ("success"@, Json::Bool(true)),
                    ("files"@, Json::Array(file_entries(str_pairs_v(files@)))),
                    ("import_path"@, js(import_path@)),
                    ("error"@, Json::Null),
                ]);
            }
        },
        Err(e) => {
            let empty: Vec<JsonValue> = Vec::new();
            proof {
                assert(values_model(empty@) =~= Seq::empty());
            }
            member(&mut p, "success", JsonValue::Bool(false));
            member(&mut p, "files", array(empty));
            member(&mut p, "import_path", JsonValue::Null);
            member(&mut p, "error", text(e.as_str()));
            proof {
                assert(pairs_model(p@) =~= seq![
                    ("success"@, Json::Bool(false)),
                    ("files"@, Json::Array(Seq::empty())),
                    ("import_path"@, Json::Null),
                    ("error"@, js(e@)),
                ]);
            }
        },
    }
    object(p)
}

/// The base name of a path (`Path::file_name`), when it has one.
pub uninterp spec fn base_name(path: Seq<char>) -> Option<Seq<char>>;

/// The last component of a path (`std::path::Path::file_name`, lossily as text).
#[verifier::external_body]
pub(crate) fn file_name_of(path: &str) -> (r: Option<String>)
    ensures
        match r {
            Some(n) => base_name(path@) == Some(n@),
            None => base_name(path@) is None,
        },
{
    std::path::Path::new(path).file_name().map(|n| n.to_string_lossy().to_string())
}

/// The answer of `grpc.readProtoFiles` from the reads of the requested files,
/// in order; reading stops at the first failure.
pub open spec fn read_answer_spec(paths: Seq<Seq<char>>, reads: Seq<Result<Seq<char>, Seq<char>>>, names: Seq<Seq<char>>) -> Json
    decreases reads.len(),
{
    if exists|i: int| 0 <= i < reads.len() && reads[i] is Err {
        let k = choose|i: int| 0 <= i < reads.len() && reads[i] is Err && forall|j: int| 0 <= j < i ==> reads[j] is Ok;
        Json::Object(
            seq![
                ("success"@, Json::Bool(false)),
                ("files"@, Json::Array(Seq::empty())),
                ("error"@, js("Failed to read file "@ + paths[k] + ": "@ + reads[k]->Err_0)),
            ],
        )
    } else {
        Json::Object(
            seq![
                ("success"@, Json::Bool(true)),
                (
                    "files"@,
                    Json::Array(Seq::new(reads.len(), |i: int| file_entry(names[i], reads[i]->Ok_0))),
                ),
                ("error"@, Json::Null),
            ],
        )
    }
}

/// Answers `grpc.readProtoFiles`: each file is listed under
/// its base name (the path itself when it has none) with its content.
pub fn read_proto_files_answer(paths: &Vec<String>, reads: &Vec<Result<String, String>>) -> (r: JsonValue)
    requires
        reads@.len() <= paths@.len(),
    ensures
        r.model() == read_answer_spec(
            crate::config::strings_v(paths@),
            crate::scan::contents_v(reads@),
            Seq::new(
                reads@.len(),
                |i: int|
                    match base_name(paths@[i]@) {
                        Some(n) => n,
                        None => paths@[i]@,
                    },
            ),
        ),
{
    let ghost pv = crate::config::strings_v(paths@);
    let ghost rv = crate::scan::contents_v(reads@);
    let ghost names = Seq::new(
        reads@.len(),
        |i: int|
            match base_name(paths@[i]@) {
                Some(n) => n,
                None => paths@[i]@,
            },
    );
    let mut items: Vec<JsonValue> = Vec::new();
    let mut i: usize = 0;
    while i < reads.len()
        invariant
            i <= reads@.len(),
            reads@.len() <= paths@.len(),
            pv == crate::config::strings_v(paths@),
            rv == crate::scan::contents_v(reads@),
            names.len() == reads@.len(),
            forall|q: int| 0 <= q < reads@.len() ==> names[q] == match base_name(paths@[q]@) {
                Some(n) => n,
                None => paths@[q]@,
            },
            forall|j: int| 0 <= j < i ==> rv[j] is Ok,
            values_model(items@) == Seq::new(i as nat, |q: int| file_entry(names[q], rv[q]->Ok_0)),
        decreases reads.len() - i,
    {
        match &reads[i] {
            Err(e) => {
                let mut m = concat3("Failed to read file ", paths[i].as_str(), ": ");
                m.append(e.as_str());
                let mut p: Vec<(String, JsonValue)> = Vec::new();
                let empty: Vec<JsonValue> = Vec::new();
                proof {
                    assert(values_model(empty@) =~= Seq::empty());
                }
                member(&mut p, "success", JsonValue::Bool(false));
                member(&mut p, "files", array(empty));
                member(&mut p, "error", JsonValue::Str(m));
                proof {
                    assert(rv[i as int] is Err);
                    let w = choose|w: int| 0 <= w < rv.len() && rv[w] is Err && forall|j: int| 0 <= j < w ==> rv[j] is Ok;
                    if w < i {
                    } else if w > i {
                    }
                    assert(pv[i as int] == paths@[i as int]@);
                    assert(rv[i as int]->Err_0 == e@);
                    assert(pairs_model(p@) =~= seq![
                        ("success"@, Json::Bool(false)),
                        ("files"@, Json::Array(Seq::empty())),
                        ("error"@, js("Failed to read file "@ + pv[i as int] + ": "@ + rv[i as int]->Err_0)),
                    ]);
                }
                return object(p);
            },
            Ok(content) => {
                let name = match file_name_of(paths[i].as_str()) {
                    Some(n) => n,
                    None => paths[i].clone(),
                };
                proof {
                    assert(name@ == names[i as int]);
                }
                let ghost nm = name@;
                let mut p: Vec<(String, JsonValue)> = Vec::new();
                member(&mut p, "path", JsonValue::Str(name));
                member(&mut p, "content", text(content.as_str()));
                proof {
                    assert(pairs_model(p@) =~= seq![("path"@, js(nm)), ("content"@, js(content@))]);
                }
                let ghost before = items@;
                let o = object(p);
                items.push(o);
                proof {
                    assert(rv[i as int] is Ok && rv[i as int]->Ok_0 == content@);
                    assert(o.model() == file_entry(names[i as int], rv[i as int]->Ok_0));
                    assert(values_model(items@) =~= values_model(before).push(o.model()));
                    assert(values_model(items@) =~= Seq::new((i + 1) as nat, |q: int| file_entry(names[q], rv[q]->Ok_0)));
                }
            },
        }
        i = i + 1;
    }
    let mut p: Vec<(String, JsonValue)> = Vec::new();
    member(&mut p, "success", JsonValue::Bool(true));
    member(&mut p, "files", array(items));
    member(&mut p, "error", JsonValue::Null);
    proof {
        assert(!(exists|q: int| 0 <= q < rv.len() && rv[q] is Err));
        assert(pairs_model(p@) =~= seq![
            ("success"@, Json::Bool(true)),
            ("files"@, Json::Array(Seq::new(rv.len(), |q: int| file_entry(names[q], rv[q]->Ok_0)))),
            ("error"@, Json::Null),
        ]);
    }
    object(p)
}

/// What `grpc.skeleton` reads: the proto files, the service and the method.
pub struct SkeletonParams {
    pub proto_files: Vec<(String, String)>,
    pub service_name: String,
    pub method_name: String,
}

/// Reads the parameters of `grpc.skeleton`; absent names read as empty.
pub fn skeleton_params(params: &JsonValue) -> (r: SkeletonParams)
    ensures
        pairs_v(r.proto_files@) == array_pairs(params.model(), "proto_files"@, "path"@, "content"@),
        r.service_name@ == str_or_empty(params.model(), "service_name"@),
        r.method_name@ == str_or_empty(params.model(), "method_name"@),
{
    SkeletonParams {
        proto_files: read_array_pairs(params, "proto_files", "path", "content"),
        service_name: params.get_str_or_empty("service_name"),
        method_name: params.get_str_or_empty("method_name"),
    }
}

/// The answer of `grpc.skeleton`: a compilation error becomes the query's error,
/// with the error's own text after a `failed to parse proto files: ` prefix; a
/// lookup error is passed on; the skeleton, as the text of its JSON, is answered
/// as `{success, skeleton, error}`.
pub fn skeleton_answer(compiled: Result<(), ProtoParseError>, skeleton: Result<String, String>) -> (r: Result<
    JsonValue,
    String,
>)
    ensures
        match compiled {
            Err(e) => r is Err && r->Err_0@ == "failed to parse proto files: "@ + parse_error_text(e),
            Ok(_) => match skeleton {
                Ok(v) => r is Ok && r->Ok_0.model() == answer(true, "skeleton"@, js(v@), None),
                Err(e) => r is Err && r->Err_0@ == e@,
            },
        },
{
    match compiled {
        Err(e) => {
            let m = e.message();
            Err(concat("failed to parse proto files: ", m.as_str()))
        },
        Ok(_) => match skeleton {
            Ok(v) => Ok(make_answer(true, "skeleton", text(v.as_str()), None)),
            Err(e) => Err(e),
        },
    }
}

pub open spec fn validation_json(valid: bool, errors: Seq<(Seq<char>, Seq<char>)>) -> Json {
    Json::Object(
        seq![
            ("valid"@, Json::Bool(valid)),
            (
                "errors"@,
                Json::Array(
                    errors.map_values(
                        |e: (Seq<char>, Seq<char>)| Json::Object(seq![("path"@, js(e.0)), ("message"@, js(e.1))]),
                    ),
                ),
            ),
        ],
    )
}

fn validation_value(res: &ValidationResult) -> (r: JsonValue)
    ensures
        r.model() == validation_json(res.valid, errors_v(res.errors@)),
{
    let ghost ev = errors_v(res.errors@);
    let mut items: Vec<JsonValue> = Vec::new();
    let mut i: usize = 0;
    while i < res.errors.len()
        invariant
            i <= res.errors@.len(),
            ev == errors_v(res.errors@),
            values_model(items@) == ev.take(i as int).map_values(
                |e: (Seq<char>, Seq<char>)| Json::Object(seq![("path"@, js(e.0)), ("message"@, js(e.1))]),
            ),
        decreases res.errors.len() - i,
    {
        let mut p: Vec<(String, JsonValue)> = Vec::new();
        member(&mut p, "path", text(res.errors[i].path.as_str()));
        member(&mut p, "message", text(res.errors[i].message.as_str()));
        proof {
            assert(pairs_model(p@) =~= seq![("path"@, js(ev[i as int].0)), ("message"@, js(ev[i as int].1))]);
        }
        let ghost before = items@;
        let o = object(p);
        items.push(o);
        proof {
            assert(values_model(items@) =~= values_model(before).push(o.model()));
            assert(ev.take(i + 1) =~= ev.take(i as int).push(ev[i as int]));
        }
        i = i + 1;
    }
    proof {
        assert(ev.take(res.errors@.len() as int) =~= ev);
    }
    let mut p: Vec<(String, JsonValue)> = Vec::new();
    member(&mut p, "valid", JsonValue::Bool(res.valid));
    member(&mut p, "errors", array(items));
    proof {
        assert(pairs_model(p@) =~= seq![
            ("valid"@, Json::Bool(res.valid)),
            (
                "errors"@,
                Json::Array(ev.map_values(
                    |e: (Seq<char>, Seq<char>)| Json::Object(seq![("path"@, js(e.0)), ("message"@, js(e.1))]),
                )),
            ),
        ]);
    }
    object(p)
}

/// What `grpc.validate` is to do before it validates.
pub enum ValidateStep {
    /// Answer at once with this.
    Answer(JsonValue),
    /// Compile the proto files and validate.
    Compile { proto_files: Vec<(String, String)>, message_name: String, json: String },
}

/// Reads the parameters of `grpc.validate`: without proto files the answer is
/// that nothing can be validated.
pub fn validate_params(params: &JsonValue) -> (r: ValidateStep)
    ensures
        match r {
            ValidateStep::Answer(a) => array_pairs(params.model(), "proto_files"@, "path"@, "content"@).len() == 0
                && a.model() == answer(false, "result"@, Json::Null, Some("No proto files provided, cannot validate"@)),
            ValidateStep::Compile { proto_files, message_name, json } => pairs_v(proto_files@) == array_pairs(
                params.model(),
                "proto_files"@,
                "path"@,
                "content"@,
            ) && proto_files@.len() > 0 && message_name@ == str_or_empty(params.model(), "message_name"@) && json@
                == str_or_empty(params.model(), "json"@),
        },
{
    let json = params.get_str_or_empty("json");
    let message_name = params.get_str_or_empty("message_name");
    let proto_files = read_array_pairs(params, "proto_files", "path", "content");
    if proto_files.len() == 0 {
        return ValidateStep::Answer(
            make_answer(false, "result", JsonValue::Null, Some(crate::text::owned("No proto files provided, cannot validate"))),
        );
    }
    ValidateStep::Compile { proto_files, message_name, json }
}

/// The answer of `grpc.validate` once the proto files were compiled: `compiled`
/// is `None` when they were, else the compilation error's text; `outcome` is
/// what `validate_request_json` returned.
pub fn validate_answer(compiled: Option<String>, outcome: Result<ValidationResult, String>) -> (r: JsonValue)
    ensures
        r.model() == match compiled {
            Some(e) => answer(false, "result"@, Json::Null, Some("Failed to parse proto file: "@ + e@)),
            None => match outcome {
                Ok(res) => answer(true, "result"@, validation_json(res.valid, errors_v(res.errors@)), None),
                Err(e) => answer(false, "result"@, Json::Null, Some(e@)),
            },
        },
{
    match compiled {
        Some(e) => make_answer(false, "result", JsonValue::Null, Some(concat("Failed to parse proto file: ", e.as_str()))),
        None => match outcome {
            Ok(res) => {
                let v = validation_value(&res);
                make_answer(true, "result", v, None)
            },
            Err(e) => make_answer(false, "result", JsonValue::Null, Some(e)),
        },
    }
}

/// How waiting for a channel to become ready ended.
#[derive(Debug, PartialEq, Eq, Structural, Clone, Copy)]
pub enum ReadyOutcome {
    Ready,
    Failed,
    TimedOut,
}

pub open spec fn state_name(o: ReadyOutcome) -> Seq<char> {
    match o {
        ReadyOutcome::Ready => "READY"@,
        ReadyOutcome::Failed => "TRANSIENT_FAILURE"@,
        ReadyOutcome::TimedOut => "CONNECTING"@,
    }
}

/// The connectivity state reported for a channel.
pub fn channel_state(o: ReadyOutcome) -> (r: String)
    ensures
        r@ == state_name(o),
{
    match o {
        ReadyOutcome::Ready => crate::text::owned("READY"),
        ReadyOutcome::Failed => crate::text::owned("TRANSIENT_FAILURE"),
        ReadyOutcome::TimedOut => crate::text::owned("CONNECTING"),
    }
}

/// Introspection of a connection.
pub struct ChannelzInfo {
    pub state: String,
    pub connected_at: String,
    pub uptime_secs: u64,
    pub active_calls: usize,
    pub last_error: Option<String>,
}

pub open spec fn channelz_json(i: ChannelzInfo) -> Json {
    Json::Object(
        seq![
            ("state"@, js(i.state@)),
            ("connected_at"@, js(i.connected_at@)),
            ("uptime_secs"@, Json::Number(crate::json::JNum::PosInt(i.uptime_secs))),
            ("active_calls"@, Json::Number(crate::json::JNum::PosInt(i.active_calls as u64))),
            (
                "last_error"@,
                match i.last_error {
                    Some(e) => js(e@),
                    None => Json::Null,
                },
            ),
        ],
    )
}

/// The answer of `grpc.channelz`: the introspection, or the lookup's error.
pub fn channelz_answer(result: Result<ChannelzInfo, String>) -> (r: JsonValue)
    ensures
        r.model() == match result {
            Ok(i) => answer(true, "info"@, channelz_json(i), None),
            Err(e) => answer(false, "info"@, Json::Null, Some(e@)),
        },
{
    match result {
        Ok(i) => {
            let ghost spec = channelz_json(i);
            let mut p: Vec<(String, JsonValue)> = Vec::new();
            member(&mut p, "state", text(i.state.as_str()));
            member(&mut p, "connected_at", text(i.connected_at.as_str()));
            member(&mut p, "uptime_secs", num(i.uptime_secs));
            member(&mut p, "active_calls", num(i.active_calls as u64));
            member(&mut p, "last_error", opt_text(i.last_error));
            proof {
                assert(pairs_model(p@) =~= match spec {
                    Json::Object(m) => m,
                    _ => Seq::empty(),
                });
            }
            make_answer(true, "info", object(p), None)
        },
        Err(e) => make_answer(false, "info", JsonValue::Null, Some(e)),
    }
}

/// The answer of `grpc.health`: `{status}`.
pub fn health_answer(status: &str) -> (r: JsonValue)
    ensures
        r.model() == Json::Object(seq![("status"@, js(status@))]),
{
    let mut p: Vec<(String, JsonValue)> = Vec::new();
    member(&mut p, "status", text(status));
    proof {
        assert(pairs_model(p@) =~= seq![("status"@, js(status@))]);
    }
    object(p)
}

/// The answer of a health check: the serving status code of the
/// reply, or the failed call; a server without the health service is reported
/// as `NOT_IMPLEMENTED`. The status is always one of `SERVING`, `NOT_SERVING`,
/// `UNKNOWN` and `NOT_IMPLEMENTED`: any other serving value is `UNKNOWN`.
pub open spec fn health_spec(reply: Result<i32, (bool, Seq<char>, Seq<char>)>) -> Result<Seq<char>, Seq<char>> {
    match reply {
        Ok(code) => Ok(
            if code == 1 {
                "SERVING"@
            } else if code == 2 {
                "NOT_SERVING"@
            } else {
                "UNKNOWN"@
            },
        ),
        Err((unimplemented, message, code)) => if unimplemented {
            Ok("NOT_IMPLEMENTED"@)
        } else {
            Err("health check failed: "@ + message + " ("@ + code + ")"@)
        },
    }
}

/// Reads the reply of a health check: `Ok` holds the serving status code, `Err`
/// whether the call was unimplemented, its message and its displayed code.
pub fn health_status(reply: Result<i32, (bool, String, String)>) -> (r: Result<String, String>)
    ensures
        match r {
            Ok(s) => health_spec(match reply { Ok(c) => Ok(c), Err((u, m, c)) => Err((u, m@, c@)) }) == Ok::<Seq<char>, Seq<char>>(s@),
            Err(e) => health_spec(match reply { Ok(c) => Ok(c), Err((u, m, c)) => Err((u, m@, c@)) }) == Err::<Seq<char>, Seq<char>>(e@),
        },
{
    match reply {
        Ok(code) => Ok(crate::text::owned(
            if code == 1 {
                "SERVING"
            } else if code == 2 {
                "NOT_SERVING"
            } else {
                "UNKNOWN"
            },
        )),
        Err((unimplemented, message, code)) => if unimplemented {
            Ok(crate::text::owned("NOT_IMPLEMENTED"))
        } else {
            let mut e = concat3("health check failed: ", message.as_str(), " (");
            e.append(code.as_str());
            e.append(")");
            Err(e)
        },
    }
}

} // verus!
