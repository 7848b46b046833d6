//! Service listings with the message definitions of their schema.
use vstd::prelude::*;

use crate::definitions::{clone_message_info, get_message_definitions, message_definitions, unique_keys};
use crate::proto_parser::{list_services, method_desc_v, parse_error_text, service_info_v, MethodInfo, ProtoParseError, ServiceInfo};
use crate::schema::{unique_message_names, MethodDesc, ProtoSchema, ServiceDesc};
use crate::types::{
    definitions_v, method_v, service_v, GrpcMessageInfo, GrpcMethodInfo, GrpcServiceInfo, MethodInfoV,
    ServiceInfoV,
};

verus! {

/// What a service of the schema is reported as: its name, its methods, and the
/// definitions of every message of the schema.
pub open spec fn service_report(s: ProtoSchema, d: ServiceDesc) -> ServiceInfoV {
    ServiceInfoV {
        service_name: d.full_name@,
        methods: d.methods@.map_values(|m: MethodDesc| method_desc_v(m)),
        message_definitions: message_definitions(s),
    }
}

/// Copies a definition table.
pub fn clone_definitions(defs: &Vec<(String, GrpcMessageInfo)>) -> (r: Vec<(String, GrpcMessageInfo)>)
    ensures
        definitions_v(r@) == definitions_v(defs@),
{
    let mut r: Vec<(String, GrpcMessageInfo)> = Vec::new();
    let mut i: usize = 0;
    while i < defs.len()
        invariant
            i <= defs@.len(),
            r@.len() == i,
            forall|k: int| 0 <= k < i ==> (#[trigger] definitions_v(r@)[k]) == definitions_v(defs@)[k],
        decreases defs.len() - i,
    {
        let ghost before = r@;
        r.push((defs[i].0.clone(), clone_message_info(&defs[i].1)));
        proof {
            assert forall|k: int| 0 <= k < i + 1 implies (#[trigger] definitions_v(r@)[k]) == definitions_v(defs@)[k] by {
                if k < i {
                    assert(r@[k] == before[k]);
                    assert(definitions_v(before)[k] == definitions_v(defs@)[k]);
                }
            }
        }
        i = i + 1;
    }
    proof {
        assert(definitions_v(r@) =~= definitions_v(defs@));
    }
    r
}

fn grpc_method_of(m: &MethodInfo) -> (r: GrpcMethodInfo)
    ensures
        method_v(r) == crate::proto_parser::method_info_v(*m),
{
    GrpcMethodInfo {
        method_name: m.method_name.clone(),
        input_type: m.input_type.clone(),
        output_type: m.output_type.clone(),
        is_server_streaming: m.is_server_streaming,
        is_client_streaming: m.is_client_streaming,
    }
}

/// Every service of the schema with its methods, each carrying the message
/// definitions of the whole schema.
pub fn services_from_pool(pool: &ProtoSchema) -> (r: Vec<GrpcServiceInfo>)
    requires
        unique_message_names(*pool),
    ensures
        r@.len() == pool.services@.len(),
        forall|i: int| 0 <= i < r@.len() ==> service_v(#[trigger] r@[i]) == service_report(*pool, pool.services@[i]),
{
    let services = list_services(pool);
    let defs = get_message_definitions(pool);
    proof {
        assert(services@.len() == pool.services@.len()) by {
            assert(services@.map_values(|s: ServiceInfo| service_info_v(s)).len() == pool.services@.map_values(
                |s: ServiceDesc| crate::proto_parser::service_desc_v(s),
            ).len());
        }
    }
    let mut out: Vec<GrpcServiceInfo> = Vec::new();
    let mut i: usize = 0;
    while i < services.len()
        invariant
            i <= services@.len(),
            services@.len() == pool.services@.len(),
            services@.map_values(|s: ServiceInfo| service_info_v(s)) == pool.services@.map_values(
                |s: ServiceDesc| crate::proto_parser::service_desc_v(s),
            ),
            definitions_v(defs@) == message_definitions(*pool),
            out@.len() == i,
            forall|k: int| 0 <= k < i ==> service_v(#[trigger] out@[k]) == service_report(*pool, pool.services@[k]),
        decreases services.len() - i,
    {
        let s = &services[i];
        proof {
            let a = services@.map_values(|s: ServiceInfo| service_info_v(s));
            let b = pool.services@.map_values(|s: ServiceDesc| crate::proto_parser::service_desc_v(s));
            assert(a[i as int] == b[i as int]);
            assert(service_info_v(*s) == crate::proto_parser::service_desc_v(pool.services@[i as int]));
        }
        let mut methods: Vec<GrpcMethodInfo> = Vec::new();
        let mut j: usize = 0;
        while j < s.methods.len()
            invariant
                j <= s.methods@.len(),
                methods@.len() == j,
                forall|k: int| 0 <= k < j ==> method_v(#[trigger] methods@[k]) == crate::proto_parser::method_info_v(s.methods@[k]),
            decreases s.methods.len() - j,
        {
            methods.push(grpc_method_of(&s.methods[j]));
            j = j + 1;
        }
        let info = GrpcServiceInfo {
            service_name: s.service_name.clone(),
            methods,
            message_definitions: clone_definitions(&defs),
        };
        proof {
            let want = service_report(*pool, pool.services@[i as int]);
            assert(service_info_v(*s).1 == want.methods);
            assert(service_v(info).methods =~= s.methods@.map_values(|m: MethodInfo| crate::proto_parser::method_info_v(m)));
            assert(service_v(info) == want);
        }
        out.push(info);
        i = i + 1;
    }
    out
}

/// Services of a set of proto files: `parsed` is
/// the outcome of compiling the files; a compilation error is reported with the
/// prefix `failed to parse proto files: `.
pub fn discover_services_via_proto(parsed: Result<ProtoSchema, ProtoParseError>) -> (r: Result<Vec<GrpcServiceInfo>, String>)
    requires
        parsed matches Ok(s) ==> unique_message_names(s),
    ensures
        match r {
            Ok(v) => parsed matches Ok(s) && v@.len() == s.services@.len() && forall|i: int|
                0 <= i < v@.len() ==> service_v(#[trigger] v@[i]) == service_report(s, s.services@[i]),
            Err(e) => parsed matches Err(pe) && e@ == "failed to parse proto files: "@ + parse_error_text(pe),
        },
{
    match parsed {
        Ok(s) => Ok(services_from_pool(&s)),
        Err(pe) => {
            let m = pe.message();
            Err(crate::text::concat("failed to parse proto files: ", m.as_str()))
        },
    }
}

/// Services of a server found through reflection:
/// `reflected` is the schema the reflection produced, or its error, which is
/// reported as is.
pub fn discover_services_via_reflection(reflected: Result<ProtoSchema, String>) -> (r: Result<Vec<GrpcServiceInfo>, String>)
    requires
        reflected matches Ok(s) ==> unique_message_names(s),
    ensures
        match r {
            Ok(v) => reflected matches Ok(s) && v@.len() == s.services@.len() && forall|i: int|
                0 <= i < v@.len() ==> service_v(#[trigger] v@[i]) == service_report(s, s.services@[i]),
            Err(e) => reflected matches Err(x) && e == x,
        },
{
    match reflected {
        Ok(s) => Ok(services_from_pool(&s)),
        Err(e) => Err(e),
    }
}

} // verus!
