//! A plain model of a compiled protobuf descriptor pool: the messages,
//! enums and services that discovery, skeletons and validation read.
use vstd::prelude::*;

use crate::types::GrpcEnumValue;
use crate::types::GrpcOneofInfo;

verus! {

/// Field cardinality.
#[derive(Debug, Clone, Copy, PartialEq, Eq, Structural)]
pub enum Cardinality {
    Optional,
    Required,
    Repeated,
}

/// Field type; enum and message types are referred to by full name.
#[derive(Debug)]
pub enum FieldKind {
    Double,
    Float,
    Int32,
    Int64,
    Uint32,
    Uint64,
    Sint32,
    Sint64,
    Fixed32,
    Fixed64,
    Sfixed32,
    Sfixed64,
    Bool,
    Str,
    Bytes,
    Enum(String),
    Message(String),
}

/// A field of a message.
#[derive(Debug)]
pub struct FieldDesc {
    pub name: String,
    pub number: u32,
    pub cardinality: Cardinality,
    pub kind: FieldKind,
    /// The field is a map; its kind then names the synthetic entry message.
    pub is_map: bool,
}

/// A message type.
#[derive(Debug)]
pub struct MessageDesc {
    pub full_name: String,
    pub fields: Vec<FieldDesc>,
    pub oneofs: Vec<GrpcOneofInfo>,
    /// Synthetic entry message of a map field.
    pub is_map_entry: bool,
}

/// An enum type with its values in declaration order.
#[derive(Debug)]
pub struct EnumDesc {
    pub full_name: String,
    pub values: Vec<GrpcEnumValue>,
}

/// A method of a service.
#[derive(Debug)]
pub struct MethodDesc {
    pub name: String,
    pub input_type: String,
    pub output_type: String,
    pub is_client_streaming: bool,
    pub is_server_streaming: bool,
}

/// A service.
#[derive(Debug)]
pub struct ServiceDesc {
    pub full_name: String,
    pub methods: Vec<MethodDesc>,
}

/// All descriptors of a compiled set of proto files, in pool order.
#[derive(Debug)]
pub struct ProtoSchema {
    pub messages: Vec<MessageDesc>,
    pub enums: Vec<EnumDesc>,
    pub services: Vec<ServiceDesc>,
}

/// Index of the first message named `name`.
pub open spec fn message_index(s: ProtoSchema, name: Seq<char>) -> Option<int> {
    if exists|i: int| 0 <= i < s.messages@.len() && s.messages@[i].full_name@ == name {
        Some(
            choose|i: int|
                0 <= i < s.messages@.len() && s.messages@[i].full_name@ == name && forall|j: int|
                    0 <= j < i ==> s.messages@[j].full_name@ != name,
        )
    } else {
        None
    }
}

/// Index of the first enum named `name`.
pub open spec fn enum_index(s: ProtoSchema, name: Seq<char>) -> Option<int> {
    if exists|i: int| 0 <= i < s.enums@.len() && s.enums@[i].full_name@ == name {
        Some(
            choose|i: int|
                0 <= i < s.enums@.len() && s.enums@[i].full_name@ == name && forall|j: int|
                    0 <= j < i ==> s.enums@[j].full_name@ != name,
        )
    } else {
        None
    }
}

/// Index of the first service named `name`.
pub open spec fn service_index(s: ProtoSchema, name: Seq<char>) -> Option<int> {
    if exists|i: int| 0 <= i < s.services@.len() && s.services@[i].full_name@ == name {
        Some(
            choose|i: int|
                0 <= i < s.services@.len() && s.services@[i].full_name@ == name && forall|j: int|
                    0 <= j < i ==> s.services@[j].full_name@ != name,
        )
    } else {
        None
    }
}

/// Index of the first method of service `si` named `name`.
pub open spec fn method_index(s: ProtoSchema, si: int, name: Seq<char>) -> Option<int> {
    let ms = s.services@[si].methods@;
    if exists|i: int| 0 <= i < ms.len() && ms[i].name@ == name {
        Some(
            choose|i: int|
                0 <= i < ms.len() && ms[i].name@ == name && forall|j: int|
                    0 <= j < i ==> ms[j].name@ != name,
        )
    } else {
        None
    }
}

/// Index of the first field of `fields` with the given name.
pub open spec fn field_index_by_name(fields: Seq<FieldDesc>, name: Seq<char>) -> Option<int> {
    if exists|i: int| 0 <= i < fields.len() && fields[i].name@ == name {
        Some(
            choose|i: int|
                0 <= i < fields.len() && fields[i].name@ == name && forall|j: int|
                    0 <= j < i ==> fields[j].name@ != name,
        )
    } else {
        None
    }
}

/// Index of the first field of `fields` with the given number.
pub open spec fn field_index_by_number(fields: Seq<FieldDesc>, number: u32) -> Option<int> {
    if exists|i: int| 0 <= i < fields.len() && fields[i].number == number {
        Some(
            choose|i: int|
                0 <= i < fields.len() && fields[i].number == number && forall|j: int|
                    0 <= j < i ==> fields[j].number != number,
        )
    } else {
        None
    }
}

/// Names of all messages of the schema.
pub open spec fn message_names(s: ProtoSchema) -> Set<Seq<char>> {
    Set::new(|n: Seq<char>| exists|i: int| 0 <= i < s.messages@.len() && s.messages@[i].full_name@ == n)
}

/// Well-formed schema: message names are unique, as in a descriptor pool.
pub open spec fn unique_message_names(s: ProtoSchema) -> bool {
    forall|i: int, j: int|
        0 <= i < s.messages@.len() && 0 <= j < s.messages@.len() && i != j
            ==> s.messages@[i].full_name@ != s.messages@[j].full_name@
}

pub proof fn lemma_message_names_finite(s: ProtoSchema)
    ensures
        message_names(s).finite(),
        message_names(s).len() <= s.messages@.len(),
{
    let names = s.messages@.map_values(|m: MessageDesc| m.full_name@);
    assert(message_names(s) =~= names.to_set()) by {
        assert forall|n: Seq<char>| message_names(s).contains(n) implies names.to_set().contains(n) by {
            let i = choose|i: int| 0 <= i < s.messages@.len() && s.messages@[i].full_name@ == n;
            assert(names[i] == n);
        }
        assert forall|n: Seq<char>| names.to_set().contains(n) implies message_names(s).contains(n) by {
            let i = choose|i: int| 0 <= i < names.len() && names[i] == n;
            assert(s.messages@[i].full_name@ == n);
        }
    }
    names.lemma_cardinality_of_set();
}

/// Checks that no two messages of the schema share a name.
pub fn has_unique_message_names(s: &ProtoSchema) -> (r: bool)
    ensures
        r == unique_message_names(*s),
{
    let n = s.messages.len();
    let mut i: usize = 0;
    while i < n
        invariant
            n == s.messages@.len(),
            i <= n,
            forall|a: int, b: int|
                0 <= a < i && 0 <= b < n && a != b ==> s.messages@[a].full_name@ != s.messages@[b].full_name@,
        decreases n - i,
    {
        let mut j: usize = 0;
        while j < n
            invariant
                n == s.messages@.len(),
                i < n,
                j <= n,
                forall|a: int, b: int|
                    0 <= a < i && 0 <= b < n && a != b ==> s.messages@[a].full_name@ != s.messages@[b].full_name@,
                forall|b: int| 0 <= b < j && b != i ==> s.messages@[i as int].full_name@ != s.messages@[b].full_name@,
            decreases n - j,
        {
            if j != i && crate::text::str_eq(s.messages[i].full_name.as_str(), s.messages[j].full_name.as_str()) {
                return false;
            }
            j = j + 1;
        }
        i = i + 1;
    }
    true
}

/// Looks up a message by full name.
pub fn find_message(s: &ProtoSchema, name: &str) -> (r: Option<usize>)
    ensures
        match r {
            Some(i) => message_index(*s, name@) == Some(i as int) && i < s.messages@.len()
                && s.messages@[i as int].full_name@ == name@,
            None => message_index(*s, name@) is None,
        },
{
    let mut i: usize = 0;
    while i < s.messages.len()
        invariant
            i <= s.messages@.len(),
            forall|j: int| 0 <= j < i ==> s.messages@[j].full_name@ != name@,
        decreases s.messages.len() - i,
    {
        if crate::text::str_eq(s.messages[i].full_name.as_str(), name) {
            proof {
                let w = choose|w: int|
                    0 <= w < s.messages@.len() && s.messages@[w].full_name@ == name@ && forall|j: int|
                        0 <= j < w ==> s.messages@[j].full_name@ != name@;
                assert(0 <= i < s.messages@.len() && s.messages@[i as int].full_name@ == name@);
                if w < i {
                } else if w > i {
                }
            }
            return Some(i);
        }
        i = i + 1;
    }
    None
}

/// Looks up an enum by full name.
pub fn find_enum(s: &ProtoSchema, name: &str) -> (r: Option<usize>)
    ensures
        match r {
            Some(i) => enum_index(*s, name@) == Some(i as int) && i < s.enums@.len(),
            None => enum_index(*s, name@) is None,
        },
{
    let mut i: usize = 0;
    while i < s.enums.len()
        invariant
            i <= s.enums@.len(),
            forall|j: int| 0 <= j < i ==> s.enums@[j].full_name@ != name@,
        decreases s.enums.len() - i,
    {
        if crate::text::str_eq(s.enums[i].full_name.as_str(), name) {
            proof {
                let w = choose|w: int|
                    0 <= w < s.enums@.len() && s.enums@[w].full_name@ == name@ && forall|j: int|
                        0 <= j < w ==> s.enums@[j].full_name@ != name@;
                assert(0 <= i < s.enums@.len() && s.enums@[i as int].full_name@ == name@);
                if w < i {
                } else if w > i {
                }
            }
            return Some(i);
        }
        i = i + 1;
    }
    None
}

/// Looks up a service by full name.
pub fn find_service(s: &ProtoSchema, name: &str) -> (r: Option<usize>)
    ensures
        match r {
            Some(i) => service_index(*s, name@) == Some(i as int) && i < s.services@.len(),
            None => service_index(*s, name@) is None,
        },
{
    let mut i: usize = 0;
    while i < s.services.len()
        invariant
            i <= s.services@.len(),
            forall|j: int| 0 <= j < i ==> s.services@[j].full_name@ != name@,
        decreases s.services.len() - i,
    {
        if crate::text::str_eq(s.services[i].full_name.as_str(), name) {
            proof {
                let w = choose|w: int|
                    0 <= w < s.services@.len() && s.services@[w].full_name@ == name@ && forall|j: int|
                        0 <= j < w ==> s.services@[j].full_name@ != name@;
                assert(0 <= i < s.services@.len() && s.services@[i as int].full_name@ == name@);
                if w < i {
                } else if w > i {
                }
            }
            return Some(i);
        }
        i = i + 1;
    }
    None
}

/// Looks up a method of service `si` by name.
pub fn find_method(s: &ProtoSchema, si: usize, name: &str) -> (r: Option<usize>)
    requires
        si < s.services@.len(),
    ensures
        match r {
            Some(i) => method_index(*s, si as int, name@) == Some(i as int) && i < s.services@[si as int].methods@.len(),
            None => method_index(*s, si as int, name@) is None,
        },
{
    let ms = &s.services[si].methods;
    let mut i: usize = 0;
    while i < ms.len()
        invariant
            i <= ms@.len(),
            ms@ == s.services@[si as int].methods@,
            forall|j: int| 0 <= j < i ==> ms@[j].name@ != name@,
        decreases ms.len() - i,
    {
        if crate::text::str_eq(ms[i].name.as_str(), name) {
            proof {
                let w = choose|w: int|
                    0 <= w < ms@.len() && ms@[w].name@ == name@ && forall|j: int|
                        0 <= j < w ==> ms@[j].name@ != name@;
                assert(0 <= i < ms@.len() && ms@[i as int].name@ == name@);
                if w < i {
                } else if w > i {
                }
            }
            return Some(i);
        }
        i = i + 1;
    }
    None
}

/// The service and method a call names (the lookups before a call): an error
/// names the service, or the method and its service, that does not exist.
pub fn locate_method(s: &ProtoSchema, service_name: &str, method_name: &str) -> (r: Result<(usize, usize), String>)
    ensures
        match r {
            Ok((si, mj)) => service_index(*s, service_name@) == Some(si as int) && si < s.services@.len()
                && method_index(*s, si as int, method_name@) == Some(mj as int) && mj
                < s.services@[si as int].methods@.len(),
            Err(e) => match service_index(*s, service_name@) {
                None => e@ == "service '"@ + service_name@ + "' does not exist"@,
                Some(si) => method_index(*s, si, method_name@) is None && e@ == "method '"@ + method_name@
                    + "' does not exist in service '"@ + service_name@ + "'"@,
            },
        },
{
    let si = match find_service(s, service_name) {
        Some(si) => si,
        None => return Err(crate::text::concat3("service '", service_name, "' does not exist")),
    };
    match find_method(s, si, method_name) {
        Some(mj) => Ok((si, mj)),
        None => {
            let mut e = crate::text::concat3("method '", method_name, "' does not exist in service '");
            e.append(service_name);
            e.append("'");
            Err(e)
        },
    }
}

/// Looks up a field by name.
pub fn find_field_by_name(fields: &Vec<FieldDesc>, name: &str) -> (r: Option<usize>)
    ensures
        match r {
            Some(i) => field_index_by_name(fields@, name@) == Some(i as int) && i < fields@.len(),
            None => field_index_by_name(fields@, name@) is None,
        },
{
    let mut i: usize = 0;
    while i < fields.len()
        invariant
            i <= fields@.len(),
            forall|j: int| 0 <= j < i ==> fields@[j].name@ != name@,
        decreases fields.len() - i,
    {
        if crate::text::str_eq(fields[i].name.as_str(), name) {
            proof {
                let w = choose|w: int|
                    0 <= w < fields@.len() && fields@[w].name@ == name@ && forall|j: int|
                        0 <= j < w ==> fields@[j].name@ != name@;
                assert(0 <= i < fields@.len() && fields@[i as int].name@ == name@);
                if w < i {
                } else if w > i {
                }
            }
            return Some(i);
        }
        i = i + 1;
    }
    None
}

/// Looks up a field by number.
pub fn find_field_by_number(fields: &Vec<FieldDesc>, number: u32) -> (r: Option<usize>)
    ensures
        match r {
            Some(i) => field_index_by_number(fields@, number) == Some(i as int) && i < fields@.len(),
            None => field_index_by_number(fields@, number) is None,
        },
{
    let mut i: usize = 0;
    while i < fields.len()
        invariant
            i <= fields@.len(),
            forall|j: int| 0 <= j < i ==> fields@[j].number != number,
        decreases fields.len() - i,
    {
        if fields[i].number == number {
            proof {
                let w = choose|w: int|
                    0 <= w < fields@.len() && fields@[w].number == number && forall|j: int|
                        0 <= j < w ==> fields@[j].number != number;
                assert(0 <= i < fields@.len() && fields@[i as int].number == number);
                if w < i {
                } else if w > i {
                }
            }
            return Some(i);
        }
        i = i + 1;
    }
    None
}

} // verus!
