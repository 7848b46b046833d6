//! Message definitions: the flat map of every message type of a schema with
//! its fields expanded, and the detection of circular references.
use vstd::prelude::*;
use vstd::set_lib::{lemma_int_range, lemma_len_subset, set_int_range};

use crate::schema::{
    field_index_by_number, find_enum, find_field_by_number, find_message, lemma_message_names_finite,
    enum_index, message_index, message_names, unique_message_names, Cardinality, FieldDesc,
    FieldKind, ProtoSchema,
};
use crate::text::{concat, has_prefix, owned, starts_with, chars_of};
use crate::types::{
    enum_value_v, field_v, message_v, oneof_v, definitions_v, EnumValueV, FieldInfoV,
    GrpcEnumValue, GrpcFieldInfo, GrpcMessageInfo, GrpcOneofInfo, MessageInfoV, OneofV,
};
use crate::proto_parser::{format_type_name, kind_name};

verus! {

// ---------------------------------------------------------------------------
// Copies
// ---------------------------------------------------------------------------

pub fn clone_enum_values(v: &Vec<GrpcEnumValue>) -> (r: Vec<GrpcEnumValue>)
    ensures
        r@.map_values(|e: GrpcEnumValue| enum_value_v(e)) == v@.map_values(|e: GrpcEnumValue| enum_value_v(e)),
{
    let mut r: Vec<GrpcEnumValue> = Vec::new();
    let mut i: usize = 0;
    while i < v.len()
        invariant
            i <= v@.len(),
            r@.len() == i,
            forall|k: int| 0 <= k < i ==> enum_value_v(#[trigger] r@[k]) == enum_value_v(v@[k]),
        decreases v.len() - i,
    {
        r.push(GrpcEnumValue { name: v[i].name.clone(), number: v[i].number });
        i = i + 1;
    }
    proof {
        assert(r@.map_values(|e: GrpcEnumValue| enum_value_v(e)) =~= v@.map_values(|e: GrpcEnumValue| enum_value_v(e)));
    }
    r
}

pub fn clone_oneofs(v: &Vec<GrpcOneofInfo>) -> (r: Vec<GrpcOneofInfo>)
    ensures
        r@.map_values(|o: GrpcOneofInfo| oneof_v(o)) == v@.map_values(|o: GrpcOneofInfo| oneof_v(o)),
{
    let mut r: Vec<GrpcOneofInfo> = Vec::new();
    let mut i: usize = 0;
    while i < v.len()
        invariant
            i <= v@.len(),
            r@.len() == i,
            forall|k: int| 0 <= k < i ==> oneof_v(#[trigger] r@[k]) == oneof_v(v@[k]),
        decreases v.len() - i,
    {
        r.push(GrpcOneofInfo { name: v[i].name.clone(), field_numbers: v[i].field_numbers.clone() });
        i = i + 1;
    }
    proof {
        assert(r@.map_values(|o: GrpcOneofInfo| oneof_v(o)) =~= v@.map_values(|o: GrpcOneofInfo| oneof_v(o)));
    }
    r
}

pub fn clone_strings(v: &Vec<String>) -> (r: Vec<String>)
    ensures
        r@.map_values(|s: String| s@) == v@.map_values(|s: String| s@),
{
    let mut r: Vec<String> = Vec::new();
    let mut i: usize = 0;
    while i < v.len()
        invariant
            i <= v@.len(),
            r@.len() == i,
            forall|k: int| 0 <= k < i ==> (#[trigger] r@[k])@ == v@[k]@,
        decreases v.len() - i,
    {
        r.push(v[i].clone());
        i = i + 1;
    }
    proof {
        assert(r@.map_values(|s: String| s@) =~= v@.map_values(|s: String| s@));
    }
    r
}

pub fn clone_ranges(v: &Vec<(u32, u32)>) -> (r: Vec<(u32, u32)>)
    ensures
        r@ == v@,
{
    let mut r: Vec<(u32, u32)> = Vec::new();
    let mut i: usize = 0;
    while i < v.len()
        invariant
            i <= v@.len(),
            r@ == v@.subrange(0, i as int),
        decreases v.len() - i,
    {
        let (a, b) = v[i];
        r.push((a, b));
        proof {
            assert(v@.subrange(0, i + 1) =~= v@.subrange(0, i as int).push(v@[i as int]));
        }
        i = i + 1;
    }
    proof {
        assert(v@.subrange(0, v@.len() as int) =~= v@);
    }
    r
}

pub fn clone_message_info(m: &GrpcMessageInfo) -> (r: GrpcMessageInfo)
    ensures
        message_v(r) == message_v(*m),
    decreases m,
{
    let mut fields: Vec<GrpcFieldInfo> = Vec::new();
    let mut i: usize = 0;
    while i < m.fields.len()
        invariant
            i <= m.fields@.len(),
            fields@.len() == i,
            forall|k: int| 0 <= k < i ==> field_v(#[trigger] fields@[k]) == field_v(m.fields@[k]),
        decreases m.fields.len() - i,
    {
        proof {
            assert(decreases_to!(*m => m.fields));
            assert(decreases_to!(m.fields => m.fields@[i as int]));
        }
        fields.push(clone_field_info(&m.fields[i]));
        i = i + 1;
    }
    let r = GrpcMessageInfo {
        full_name: m.full_name.clone(),
        fields,
        oneof_groups: clone_oneofs(&m.oneof_groups),
        is_wkt: m.is_wkt,
        reserved_ranges: clone_ranges(&m.reserved_ranges),
        reserved_names: clone_strings(&m.reserved_names),
    };
    proof {
        assert(message_v(r).fields =~= message_v(*m).fields);
        assert(message_v(r).oneof_groups == message_v(*m).oneof_groups);
        assert(message_v(r).reserved_ranges == message_v(*m).reserved_ranges);
        assert(message_v(r).reserved_names == message_v(*m).reserved_names);
    }
    r
}

pub fn clone_field_info(f: &GrpcFieldInfo) -> (r: GrpcFieldInfo)
    ensures
        field_v(r) == field_v(*f),
    decreases f,
{
    let nested = match &f.nested_message {
        Some(b) => {
            proof {
                assert(decreases_to!(*f => f.nested_message));
            }
            Some(Box::new(clone_message_info(&**b)))
        },
        None => None,
    };
    GrpcFieldInfo {
        name: f.name.clone(),
        number: f.number,
        type_kind: f.type_kind.clone(),
        type_display: f.type_display.clone(),
        type_full_name: f.type_full_name.clone(),
        label: f.label.clone(),
        is_map: f.is_map,
        map_key_type: f.map_key_type.clone(),
        map_value_type: f.map_value_type.clone(),
        enum_values: clone_enum_values(&f.enum_values),
        nested_message: nested,
    }
}

} // verus!

verus! {

// ---------------------------------------------------------------------------
// Expansion of one message
// ---------------------------------------------------------------------------

/// Cardinality as shown to users.
pub open spec fn label_of(c: Cardinality) -> Seq<char> {
    match c {
        Cardinality::Optional => "optional"@,
        Cardinality::Required => "required"@,
        Cardinality::Repeated => "repeated"@,
    }
}

/// Prefix of a type display: `repeated ` for repeated fields.
pub open spec fn prefix_of(c: Cardinality) -> Seq<char> {
    match c {
        Cardinality::Repeated => "repeated "@,
        _ => Seq::empty(),
    }
}

/// Well-known types live in the `google.protobuf` package.
pub open spec fn is_wkt_name(n: Seq<char>) -> bool {
    has_prefix(n, "google.protobuf."@)
}

/// Number of message names not yet on the expansion path.
pub open spec fn path_measure(s: ProtoSchema, path: Set<Seq<char>>) -> nat {
    message_names(s).difference(path).len()
}

pub proof fn lemma_path_measure_decreases(s: ProtoSchema, path: Set<Seq<char>>, mi: int)
    requires
        0 <= mi < s.messages@.len(),
        !path.contains(s.messages@[mi].full_name@),
    ensures
        path_measure(s, path.insert(s.messages@[mi].full_name@)) < path_measure(s, path),
{
    let n = s.messages@[mi].full_name@;
    lemma_message_names_finite(s);
    let d = message_names(s).difference(path);
    assert(d.contains(n));
    assert(message_names(s).difference(path.insert(n)) =~= d.remove(n));
}

/// Type name of the map key (field 1) or value (field 2) of a map entry message.
pub open spec fn entry_part_name(s: ProtoSchema, entry: Seq<char>, number: u32) -> Seq<char> {
    match message_index(s, entry) {
        Some(e) => match field_index_by_number(s.messages@[e].fields@, number) {
            Some(k) => kind_name(s.messages@[e].fields@[k].kind),
            None => Seq::empty(),
        },
        None => Seq::empty(),
    }
}

/// Values of enum `n`.
pub open spec fn enum_values_of(s: ProtoSchema, n: Seq<char>) -> Seq<EnumValueV> {
    match enum_index(s, n) {
        Some(e) => s.enums@[e].values@.map_values(|v: GrpcEnumValue| enum_value_v(v)),
        None => Seq::empty(),
    }
}

pub open spec fn plain_field(f: FieldDesc, kind: Seq<char>, display: Seq<char>, full: Option<Seq<char>>) -> FieldInfoV {
    FieldInfoV {
        name: f.name@,
        number: f.number,
        type_kind: kind,
        type_display: display,
        type_full_name: full,
        label: label_of(f.cardinality),
        is_map: f.is_map,
        map_key_type: None,
        map_value_type: None,
        enum_values: Seq::empty(),
        nested_message: None,
    }
}

/// Description of field `f` while the messages of `path` are being expanded.
pub open spec fn field_info(s: ProtoSchema, f: FieldDesc, path: Set<Seq<char>>) -> FieldInfoV
    decreases path_measure(s, path), 1nat,
{
    let prefix = prefix_of(f.cardinality);
    if f.is_map {
        let (key, val) = match f.kind {
            FieldKind::Message(entry) => (entry_part_name(s, entry@, 1), entry_part_name(s, entry@, 2)),
            _ => (Seq::empty(), Seq::empty()),
        };
        FieldInfoV {
            map_key_type: Some(key),
            map_value_type: Some(val),
            ..plain_field(f, "map"@, "map<"@ + key + ", "@ + val + ">"@, None)
        }
    } else {
        match f.kind {
            FieldKind::Enum(n) => FieldInfoV {
                enum_values: enum_values_of(s, n@),
                ..plain_field(f, "enum"@, prefix + n@, Some(n@))
            },
            FieldKind::Message(n) => {
                if path.contains(n@) {
                    plain_field(f, "circular_ref"@, prefix + n@, Some(n@))
                } else if is_wkt_name(n@) {
                    plain_field(f, "message"@, prefix + n@, Some(n@))
                } else {
                    match message_index(s, n@) {
                        Some(j) => FieldInfoV {
                            nested_message: Some(Box::new(message_info(s, j, path))),
                            ..plain_field(f, "message"@, prefix + n@, Some(n@))
                        },
                        None => plain_field(f, "message"@, prefix + n@, Some(n@)),
                    }
                }
            },
            _ => plain_field(f, kind_name(f.kind), prefix + kind_name(f.kind), None),
        }
    }
}

/// Description of message `mi` while the messages of `path` are being expanded.
pub open spec fn message_info(s: ProtoSchema, mi: int, path: Set<Seq<char>>) -> MessageInfoV
    decreases path_measure(s, path), 0nat,
{
    if !(0 <= mi < s.messages@.len()) || path.contains(s.messages@[mi].full_name@) {
        arbitrary()
    } else {
        let m = s.messages@[mi];
        let inner = path.insert(m.full_name@);
        proof {
            lemma_path_measure_decreases(s, path, mi);
        }
        MessageInfoV {
            full_name: m.full_name@,
            fields: Seq::new(m.fields@.len(), |i: int| field_info(s, m.fields@[i], inner)),
            oneof_groups: m.oneofs@.map_values(|o: GrpcOneofInfo| oneof_v(o)),
            is_wkt: is_wkt_name(m.full_name@),
            reserved_ranges: Seq::empty(),
            reserved_names: Seq::empty(),
        }
    }
}

} // verus!

verus! {

pub open spec fn path_set(v: Seq<String>) -> Set<Seq<char>> {
    v.map_values(|x: String| x@).to_set()
}

pub proof fn lemma_path_set_push(v: Seq<String>, x: String)
    ensures
        path_set(v.push(x)) == path_set(v).insert(x@),
{
    assert(v.push(x).map_values(|y: String| y@) =~= v.map_values(|y: String| y@).push(x@));
    assert(path_set(v.push(x)) =~= path_set(v).insert(x@)) by {
        let a = v.map_values(|y: String| y@);
        assert forall|n: Seq<char>| path_set(v.push(x)).contains(n) implies path_set(v).insert(x@).contains(n) by {
            let k = choose|k: int| 0 <= k < a.push(x@).len() && a.push(x@)[k] == n;
            if k < a.len() {
                assert(a[k] == n);
            }
        }
        assert forall|n: Seq<char>| path_set(v).insert(x@).contains(n) implies path_set(v.push(x)).contains(n) by {
            if n == x@ {
                assert(a.push(x@)[a.len() as int] == n);
            } else {
                let k = choose|k: int| 0 <= k < a.len() && a[k] == n;
                assert(a.push(x@)[k] == n);
            }
        }
    }
}

pub(crate) fn path_contains(v: &Vec<String>, n: &str) -> (r: bool)
    ensures
        r == path_set(v@).contains(n@),
{
    let ghost a = v@.map_values(|y: String| y@);
    let mut i: usize = 0;
    while i < v.len()
        invariant
            i <= v@.len(),
            a == v@.map_values(|y: String| y@),
            forall|k: int| 0 <= k < i ==> a[k] != n@,
        decreases v.len() - i,
    {
        if crate::text::str_eq(v[i].as_str(), n) {
            proof {
                assert(a[i as int] == n@);
            }
            return true;
        }
        i = i + 1;
    }
    proof {
        if a.to_set().contains(n@) {
            let k = choose|k: int| 0 <= k < a.len() && a[k] == n@;
            assert(a[k] != n@);
        }
    }
    false
}

fn entry_part_name_exec(s: &ProtoSchema, entry: &str, number: u32) -> (r: String)
    ensures
        r@ == entry_part_name(*s, entry@, number),
{
    match find_message(s, entry) {
        Some(e) => match find_field_by_number(&s.messages[e].fields, number) {
            Some(k) => format_type_name(&s.messages[e].fields[k].kind),
            None => String::new(),
        },
        None => String::new(),
    }
}

fn label_exec(c: Cardinality) -> (r: String)
    ensures
        r@ == label_of(c),
{
    match c {
        Cardinality::Optional => owned("optional"),
        Cardinality::Required => owned("required"),
        Cardinality::Repeated => owned("repeated"),
    }
}

fn prefix_exec(c: Cardinality) -> (r: String)
    ensures
        r@ == prefix_of(c),
{
    match c {
        Cardinality::Repeated => owned("repeated "),
        _ => String::new(),
    }
}

fn plain_field_exec(f: &FieldDesc, kind: String, display: String, full: Option<String>) -> (r: GrpcFieldInfo)
    ensures
        field_v(r) == plain_field(*f, kind@, display@, crate::types::opt_str_v(full)),
{
    let r = GrpcFieldInfo {
        name: f.name.clone(),
        number: f.number,
        type_kind: kind,
        type_display: display,
        type_full_name: full,
        label: label_exec(f.cardinality),
        is_map: f.is_map,
        map_key_type: None,
        map_value_type: None,
        enum_values: Vec::new(),
        nested_message: None,
    };
    proof {
        assert(field_v(r).enum_values =~= Seq::empty());
    }
    r
}

fn is_wkt_exec(n: &str) -> (r: bool)
    ensures
        r == is_wkt_name(n@),
{
    let v = chars_of(n);
    let p = chars_of("google.protobuf.");
    starts_with(v.as_slice(), p.as_slice())
}

/// Describes field `f`; `visited` holds the messages being expanded.
pub fn field_to_info(s: &ProtoSchema, f: &FieldDesc, visited: &mut Vec<String>) -> (r: GrpcFieldInfo)
    ensures
        field_v(r) == field_info(*s, *f, path_set(old(visited)@)),
        final(visited)@ == old(visited)@,
    decreases path_measure(*s, path_set(old(visited)@)), 1nat,
{
    let prefix = prefix_exec(f.cardinality);
    if f.is_map {
        let (key, val) = match &f.kind {
            FieldKind::Message(entry) => (entry_part_name_exec(s, entry.as_str(), 1), entry_part_name_exec(s, entry.as_str(), 2)),
            _ => (String::new(), String::new()),
        };
        let mut display = concat("map<", key.as_str());
        display.append(", ");
        display.append(val.as_str());
        display.append(">");
        let mut r = plain_field_exec(f, owned("map"), display, None);
        r.map_key_type = Some(key);
        r.map_value_type = Some(val);
        return r;
    }
    match &f.kind {
        FieldKind::Enum(n) => {
            let mut r = plain_field_exec(f, owned("enum"), concat(prefix.as_str(), n.as_str()), Some(n.clone()));
            match find_enum(s, n.as_str()) {
                Some(e) => {
                    r.enum_values = clone_enum_values(&s.enums[e].values);
                },
                None => {},
            }
            proof {
                assert(field_v(r).enum_values =~= enum_values_of(*s, n@));
            }
            r
        },
        FieldKind::Message(n) => {
            let display = concat(prefix.as_str(), n.as_str());
            if path_contains(visited, n.as_str()) {
                plain_field_exec(f, owned("circular_ref"), display, Some(n.clone()))
            } else if is_wkt_exec(n.as_str()) {
                plain_field_exec(f, owned("message"), display, Some(n.clone()))
            } else {
                match find_message(s, n.as_str()) {
                    Some(j) => {
                        let nested = extract_message_info(s, j, visited);
                        let mut r = plain_field_exec(f, owned("message"), display, Some(n.clone()));
                        r.nested_message = Some(Box::new(nested));
                        r
                    },
                    None => plain_field_exec(f, owned("message"), display, Some(n.clone())),
                }
            }
        },
        _ => {
            let k = format_type_name(&f.kind);
            let d = concat(prefix.as_str(), k.as_str());
            plain_field_exec(f, k, d, None)
        },
    }
}

/// Describes message `mi` with its fields expanded.
pub fn extract_message_info(s: &ProtoSchema, mi: usize, visited: &mut Vec<String>) -> (r: GrpcMessageInfo)
    requires
        mi < s.messages@.len(),
        !path_set(old(visited)@).contains(s.messages@[mi as int].full_name@),
    ensures
        message_v(r) == message_info(*s, mi as int, path_set(old(visited)@)),
        final(visited)@ == old(visited)@,
    decreases path_measure(*s, path_set(old(visited)@)), 0nat,
{
    let m = &s.messages[mi];
    let ghost old_v = visited@;
    proof {
        lemma_path_measure_decreases(*s, path_set(old_v), mi as int);
        lemma_path_set_push(old_v, m.full_name);
    }
    visited.push(m.full_name.clone());
    let ghost inner = path_set(visited@);
    let mut fields: Vec<GrpcFieldInfo> = Vec::new();
    let mut i: usize = 0;
    while i < m.fields.len()
        invariant
            i <= m.fields@.len(),
            mi < s.messages@.len(),
            old_v == old(visited)@,
            m == s.messages@[mi as int],
            visited@ == old_v.push(m.full_name),
            inner == path_set(visited@),
            inner == path_set(old_v).insert(m.full_name@),
            path_measure(*s, inner) < path_measure(*s, path_set(old_v)),
            fields@.len() == i,
            forall|k: int| 0 <= k < i ==> field_v(#[trigger] fields@[k]) == field_info(*s, m.fields@[k], inner),
        decreases m.fields.len() - i,
    {
        let fi = field_to_info(s, &m.fields[i], visited);
        fields.push(fi);
        i = i + 1;
    }
    visited.pop();
    proof {
        assert(visited@ =~= old_v);
    }
    let r = GrpcMessageInfo {
        full_name: m.full_name.clone(),
        fields,
        oneof_groups: clone_oneofs(&m.oneofs),
        is_wkt: is_wkt_exec(m.full_name.as_str()),
        reserved_ranges: Vec::new(),
        reserved_names: Vec::new(),
    };
    proof {
        let spec = message_info(*s, mi as int, path_set(old_v));
        assert(message_v(r).fields =~= spec.fields);
        assert(message_v(r).reserved_ranges =~= spec.reserved_ranges);
        assert(message_v(r).reserved_names =~= spec.reserved_names);
    }
    r
}

} // verus!

verus! {

// ---------------------------------------------------------------------------
// Circular references between top-level definitions
// ---------------------------------------------------------------------------

/// A field that the cycle search follows: a message-typed field, marked or not.
pub open spec fn follows(f: FieldInfoV) -> bool {
    f.type_kind == "message"@ || f.type_kind == "circular_ref"@
}

/// Definition `x` has a followed field whose type is definition `y`.
pub open spec fn def_edge(d: Seq<(Seq<char>, MessageInfoV)>, x: int, y: int) -> bool {
    0 <= x < d.len() && 0 <= y < d.len() && exists|k: int|
        0 <= k < d[x].1.fields.len() && follows(#[trigger] d[x].1.fields[k])
            && d[x].1.fields[k].type_full_name == Some(d[y].0)
}

/// `p` is a chain of definitions linked by followed fields.
pub open spec fn is_def_path(d: Seq<(Seq<char>, MessageInfoV)>, p: Seq<int>) -> bool {
    &&& p.len() >= 1
    &&& forall|i: int| 0 <= i < p.len() ==> 0 <= #[trigger] p[i] < d.len()
    &&& forall|i: int| 0 <= i < p.len() - 1 ==> def_edge(d, #[trigger] p[i], p[i + 1])
}

/// Definition `y` can be reached from definition `x` (in zero or more steps).
pub open spec fn def_reaches(d: Seq<(Seq<char>, MessageInfoV)>, x: int, y: int) -> bool {
    exists|p: Seq<int>| #[trigger] is_def_path(d, p) && p[0] == x && p.last() == y
}

/// Index of the definition named `n`.
pub open spec fn def_index(d: Seq<(Seq<char>, MessageInfoV)>, n: Seq<char>) -> Option<int> {
    if exists|i: int| 0 <= i < d.len() && d[i].0 == n {
        Some(choose|i: int| 0 <= i < d.len() && d[i].0 == n)
    } else {
        None
    }
}

/// No name occurs twice.
pub open spec fn unique_keys(d: Seq<(Seq<char>, MessageInfoV)>) -> bool {
    forall|i: int, j: int| 0 <= i < d.len() && 0 <= j < d.len() && i != j ==> d[i].0 != d[j].0
}

/// A message-typed field of definition `a` whose type leads back to `a` becomes a
/// `circular_ref` and loses its expansion.
pub open spec fn mark_field(d: Seq<(Seq<char>, MessageInfoV)>, a: int, f: FieldInfoV) -> FieldInfoV {
    if f.type_kind == "message"@ && f.type_full_name is Some && def_index(d, f.type_full_name->0) is Some
        && def_reaches(d, def_index(d, f.type_full_name->0)->0, a) {
        FieldInfoV { type_kind: "circular_ref"@, nested_message: None, ..f }
    } else {
        f
    }
}

/// The definitions with every circular reference marked.
pub open spec fn mark_cycles(d: Seq<(Seq<char>, MessageInfoV)>) -> Seq<(Seq<char>, MessageInfoV)> {
    Seq::new(
        d.len(),
        |a: int|
            (
                d[a].0,
                MessageInfoV {
                    fields: d[a].1.fields.map_values(|f: FieldInfoV| mark_field(d, a, f)),
                    ..d[a].1
                },
            ),
    )
}

fn find_def(defs: &Vec<(String, GrpcMessageInfo)>, n: &str) -> (r: Option<usize>)
    requires
        unique_keys(definitions_v(defs@)),
    ensures
        match r {
            Some(i) => def_index(definitions_v(defs@), n@) == Some(i as int) && i < defs@.len(),
            None => def_index(definitions_v(defs@), n@) is None,
        },
{
    let ghost d = definitions_v(defs@);
    let mut i: usize = 0;
    while i < defs.len()
        invariant
            i <= defs@.len(),
            d == definitions_v(defs@),
            unique_keys(d),
            forall|j: int| 0 <= j < i ==> d[j].0 != n@,
        decreases defs.len() - i,
    {
        if crate::text::str_eq(defs[i].0.as_str(), n) {
            proof {
                assert(d[i as int].0 == n@);
                let w = choose|w: int| 0 <= w < d.len() && d[w].0 == n@;
                if w != i {
                    assert(d[w].0 != d[i as int].0);
                }
            }
            return Some(i);
        }
        i = i + 1;
    }
    None
}

proof fn lemma_path_extend(d: Seq<(Seq<char>, MessageInfoV)>, p: Seq<int>, y: int)
    requires
        is_def_path(d, p),
        def_edge(d, p.last(), y),
    ensures
        is_def_path(d, p.push(y)),
        p.push(y)[0] == p[0],
        p.push(y).last() == y,
{
    let q = p.push(y);
    assert forall|i: int| 0 <= i < q.len() - 1 implies def_edge(d, #[trigger] q[i], q[i + 1]) by {
        if i < p.len() - 1 {
            assert(q[i] == p[i] && q[i + 1] == p[i + 1]);
        } else {
            assert(q[i] == p.last());
        }
    }
}

/// Every node of a path that starts in a set closed under edges lies in the set.
proof fn lemma_closed_path(d: Seq<(Seq<char>, MessageInfoV)>, seen: Seq<bool>, p: Seq<int>, i: int)
    requires
        seen.len() == d.len(),
        is_def_path(d, p),
        seen[p[0]],
        forall|x: int, y: int| 0 <= x < d.len() && seen[x] && #[trigger] def_edge(d, x, y) ==> seen[y],
        0 <= i < p.len(),
    ensures
        seen[p[i]],
    decreases i,
{
    if i > 0 {
        lemma_closed_path(d, seen, p, i - 1);
        assert(def_edge(d, p[i - 1], p[i]));
    }
}

/// Whether definition `to` is reachable from definition `from` by following
/// message-typed fields, marked circular or not.
pub fn has_path_to(defs: &Vec<(String, GrpcMessageInfo)>, from: usize, to: usize) -> (r: bool)
    requires
        from < defs@.len(),
        to < defs@.len(),
        unique_keys(definitions_v(defs@)),
    ensures
        r == def_reaches(definitions_v(defs@), from as int, to as int),
{
    let ghost d = definitions_v(defs@);
    let n = defs.len();
    if from == to {
        proof {
            let p = seq![from as int];
            assert(is_def_path(d, p));
        }
        return true;
    }
    let mut seen: Vec<bool> = Vec::new();
    let mut z: usize = 0;
    while z < n
        invariant
            z <= n,
            seen@.len() == z,
            forall|k: int| 0 <= k < z ==> !seen@[k],
        decreases n - z,
    {
        seen.push(false);
        z = z + 1;
    }
    seen.set(from, true);
    let mut stack: Vec<usize> = Vec::new();
    stack.push(from);
    let ghost mut popped: int = 0;
    proof {
        assert(Set::new(|k: int| 0 <= k < n && seen@[k]) =~= set![from as int]);
        assert(stack@[0] == from);
        assert forall|k: int| 0 <= k < n && #[trigger] seen@[k] implies def_reaches(d, from as int, k) by {
            let p = seq![from as int];
            assert(is_def_path(d, p));
        }
    }
    loop
        invariant
            n == defs@.len(),
            d == definitions_v(defs@),
            unique_keys(d),
            from < n,
            to < n,
            from != to,
            seen@.len() == n,
            seen@[from as int],
            !seen@[to as int],
            forall|k: int| 0 <= k < stack@.len() ==> #[trigger] stack@[k] < n && seen@[stack@[k] as int],
            forall|k: int| 0 <= k < n && #[trigger] seen@[k] ==> def_reaches(d, from as int, k),
            forall|x: int, y: int|
                0 <= x < n && seen@[x] && !stack@.contains(x as usize) && #[trigger] def_edge(d, x, y) ==> seen@[y],
            0 <= popped,
            stack@.len() + popped == Set::new(|k: int| 0 <= k < n && seen@[k]).len(),
            Set::new(|k: int| 0 <= k < n && seen@[k]).finite(),
        decreases n - popped,
    {
        proof {
            let cur = Set::new(|k: int| 0 <= k < n && seen@[k]);
            lemma_int_range(0, n as int);
            lemma_len_subset(cur, set_int_range(0, n as int));
        }
        let ghost st0 = stack@;
        let i = match stack.pop() {
            Some(i) => i,
            None => {
                proof {
                    assert forall|p: Seq<int>| #[trigger] is_def_path(d, p) && p[0] == from as int implies p.last() != to as int by {
                        assert forall|x: int, y: int| 0 <= x < d.len() && seen@[x] && #[trigger] def_edge(d, x, y) implies seen@[y] by {
                            assert(!stack@.contains(x as usize));
                        }
                        lemma_closed_path(d, seen@, p, p.len() - 1);
                    }
                }
                return false;
            },
        };
        proof {
            popped = popped + 1;
            assert(st0 == stack@.push(i));
            assert forall|x: int| #![trigger st0.contains(x as usize)] 0 <= x < n && x != i && !stack@.contains(x as usize) implies !st0.contains(x as usize) by {
                if st0.contains(x as usize) {
                    let w = choose|w: int| 0 <= w < st0.len() && st0[w] == x as usize;
                    if w < stack@.len() {
                        assert(stack@[w] == x as usize);
                    }
                }
            }
        }
        let ghost stack_before = stack@;
        let fields = &defs[i].1.fields;
        let mut k: usize = 0;
        while k < fields.len()
            invariant
                n == defs@.len(),
                d == definitions_v(defs@),
                unique_keys(d),
                from < n,
                to < n,
                from != to,
                i < n,
                fields@ == defs@[i as int].1.fields@,
                k <= fields@.len(),
                seen@.len() == n,
                seen@[from as int],
                seen@[i as int],
                !seen@[to as int],
                forall|j: int| 0 <= j < stack@.len() ==> #[trigger] stack@[j] < n && seen@[stack@[j] as int],
                forall|j: int| 0 <= j < n && #[trigger] seen@[j] ==> def_reaches(d, from as int, j),
                forall|x: int, y: int|
                    0 <= x < n && seen@[x] && x != i && !stack@.contains(x as usize) && #[trigger] def_edge(d, x, y) ==> seen@[y],
                forall|y: int, q: int|
                    #![trigger d[i as int].1.fields[q], d[y]]
                    0 <= q < k && 0 <= y < n && follows(d[i as int].1.fields[q])
                        && d[i as int].1.fields[q].type_full_name == Some(d[y].0) ==> seen@[y],
                0 <= popped,
                stack@.len() + popped == Set::new(|j: int| 0 <= j < n && seen@[j]).len(),
                Set::new(|j: int| 0 <= j < n && seen@[j]).finite(),
            decreases fields.len() - k,
        {
            let f = &fields[k];
            proof {
                assert(d[i as int].1.fields[k as int] == field_v(*f));
            }
            let follow = crate::text::str_eq(f.type_kind.as_str(), "message") || crate::text::str_eq(
                f.type_kind.as_str(),
                "circular_ref",
            );
            if follow {
                match &f.type_full_name {
                    Some(t) => match find_def(defs, t.as_str()) {
                        Some(j) => {
                            proof {
                                assert(d[j as int].0 == t@);
                                assert(def_edge(d, i as int, j as int));
                                let p = choose|p: Seq<int>| #[trigger] is_def_path(d, p) && p[0] == from as int && p.last() == i as int;
                                lemma_path_extend(d, p, j as int);
                            }
                            if j == to {
                                return true;
                            }
                            if !seen[j] {
                                let ghost before = Set::new(|q: int| 0 <= q < n && seen@[q]);
                                let ghost st1 = stack@;
                                seen.set(j, true);
                                stack.push(j);
                                proof {
                                    assert(Set::new(|q: int| 0 <= q < n && seen@[q]) =~= before.insert(j as int));
                                    assert forall|x: int| #![trigger st1.contains(x as usize)] 0 <= x < n && !stack@.contains(x as usize) implies !st1.contains(x as usize) by {
                                        if st1.contains(x as usize) {
                                            let w = choose|w: int| 0 <= w < st1.len() && st1[w] == x as usize;
                                            assert(stack@[w] == x as usize);
                                        }
                                    }
                                    assert(stack@[stack@.len() - 1] == j);
                                }
                            }
                        },
                        None => {
                            proof {
                                assert forall|y: int| 0 <= y < n && d[i as int].1.fields[k as int].type_full_name == Some(d[y].0) implies false by {
                                    assert(d[y].0 == t@);
                                }
                            }
                        },
                    },
                    None => {},
                }
            }
            k = k + 1;
        }
        proof {
            assert forall|x: int, y: int|
                0 <= x < n && seen@[x] && !stack@.contains(x as usize) && #[trigger] def_edge(d, x, y) implies seen@[y] by {
                if x == i {
                    let q = choose|q: int| 0 <= q < d[x].1.fields.len() && follows(#[trigger] d[x].1.fields[q])
                        && d[x].1.fields[q].type_full_name == Some(d[y].0);
                }
            }
        }
    }
}

/// Whether the definition named `target` can be reached from the one named
/// `current` by following message-typed fields, marked circular or not. A name
/// reaches itself, defined or not; otherwise both names must be defined.
pub fn has_path_between(defs: &Vec<(String, GrpcMessageInfo)>, current: &str, target: &str) -> (r: bool)
    requires
        unique_keys(definitions_v(defs@)),
    ensures
        r == (current@ == target@ || ({
            let d = definitions_v(defs@);
            &&& def_index(d, current@) is Some
            &&& def_index(d, target@) is Some
            &&& def_reaches(d, def_index(d, current@)->0, def_index(d, target@)->0)
        })),
{
    if crate::text::str_eq(current, target) {
        return true;
    }
    match find_def(defs, current) {
        Some(from) => match find_def(defs, target) {
            Some(to) => has_path_to(defs, from, to),
            None => false,
        },
        None => false,
    }
}


/// The fields of definition `a`, each marked when it closes a cycle.
fn marked_fields(defs: &Vec<(String, GrpcMessageInfo)>, a: usize) -> (r: Vec<GrpcFieldInfo>)
    requires
        a < defs@.len(),
        unique_keys(definitions_v(defs@)),
    ensures
        r@.len() == defs@[a as int].1.fields@.len(),
        forall|k: int|
            0 <= k < r@.len() ==> field_v(#[trigger] r@[k]) == mark_field(
                definitions_v(defs@),
                a as int,
                field_v(defs@[a as int].1.fields@[k]),
            ),
{
    let ghost d = definitions_v(defs@);
    let fields = &defs[a].1.fields;
    let mut r: Vec<GrpcFieldInfo> = Vec::new();
    let mut k: usize = 0;
    while k < fields.len()
        invariant
            a < defs@.len(),
            d == definitions_v(defs@),
            unique_keys(d),
            fields@ == defs@[a as int].1.fields@,
            k <= fields@.len(),
            r@.len() == k,
            forall|q: int| 0 <= q < k ==> field_v(#[trigger] r@[q]) == mark_field(d, a as int, field_v(fields@[q])),
        decreases fields.len() - k,
    {
        let f = &fields[k];
        let mut nf = clone_field_info(f);
        if crate::text::str_eq(f.type_kind.as_str(), "message") {
            match &f.type_full_name {
                Some(t) => match find_def(defs, t.as_str()) {
                    Some(j) => {
                        if has_path_to(defs, j, a) {
                            nf.type_kind = owned("circular_ref");
                            nf.nested_message = None;
                        }
                    },
                    None => {},
                },
                None => {},
            }
        }
        proof {
            let fv = field_v(*f);
            assert(fv.type_kind == f.type_kind@);
            if mark_field(d, a as int, fv) != fv {
                assert(field_v(nf) =~= mark_field(d, a as int, fv));
            }
        }
        r.push(nf);
        k = k + 1;
    }
    r
}

/// Marks, in every definition, each message-typed field whose type leads back to
/// that definition as a `circular_ref` without expansion.
pub fn detect_top_level_cycles(defs: &mut Vec<(String, GrpcMessageInfo)>)
    requires
        unique_keys(definitions_v(old(defs)@)),
    ensures
        definitions_v(final(defs)@) == mark_cycles(definitions_v(old(defs)@)),
{
    let ghost d = definitions_v(defs@);
    let mut out: Vec<(String, GrpcMessageInfo)> = Vec::new();
    let mut a: usize = 0;
    while a < defs.len()
        invariant
            d == definitions_v(defs@),
            unique_keys(d),
            a <= defs@.len(),
            out@.len() == a,
            forall|q: int| 0 <= q < a ==> (#[trigger] definitions_v(out@)[q]) == mark_cycles(d)[q],
        decreases defs.len() - a,
    {
        let fields = marked_fields(defs, a);
        let src = &defs[a];
        let m = GrpcMessageInfo {
            full_name: src.1.full_name.clone(),
            fields,
            oneof_groups: clone_oneofs(&src.1.oneof_groups),
            is_wkt: src.1.is_wkt,
            reserved_ranges: clone_ranges(&src.1.reserved_ranges),
            reserved_names: clone_strings(&src.1.reserved_names),
        };
        let ghost prev = out@;
        out.push((src.0.clone(), m));
        proof {
            let md = mark_cycles(d)[a as int];
            assert(message_v(m).fields =~= md.1.fields);
            assert(definitions_v(out@)[a as int] == md);
            assert forall|q: int| 0 <= q < a implies (#[trigger] definitions_v(out@)[q]) == mark_cycles(d)[q] by {
                assert(out@[q] == prev[q]);
                assert(definitions_v(prev)[q] == mark_cycles(d)[q]);
            }
        }
        a = a + 1;
    }
    proof {
        assert(definitions_v(out@) =~= mark_cycles(d));
    }
    *defs = out;
}

// ---------------------------------------------------------------------------
// All definitions of a schema
// ---------------------------------------------------------------------------

/// The expanded definitions of the first `n` messages of the schema, map entries left out.
pub open spec fn raw_definitions_upto(s: ProtoSchema, n: int) -> Seq<(Seq<char>, MessageInfoV)>
    decreases n,
{
    if n <= 0 {
        Seq::empty()
    } else {
        let prev = raw_definitions_upto(s, n - 1);
        let m = s.messages@[n - 1];
        if m.is_map_entry {
            prev
        } else {
            prev.push((m.full_name@, message_info(s, n - 1, Set::empty())))
        }
    }
}

/// Every message of the schema but the map entries, in schema order, with its
/// fields expanded and circular references marked.
pub open spec fn message_definitions(s: ProtoSchema) -> Seq<(Seq<char>, MessageInfoV)> {
    mark_cycles(raw_definitions_upto(s, s.messages@.len() as int))
}

proof fn lemma_raw_definitions_keys(s: ProtoSchema, n: int)
    requires
        0 <= n <= s.messages@.len(),
        unique_message_names(s),
    ensures
        unique_keys(raw_definitions_upto(s, n)),
        forall|k: int| 0 <= k < raw_definitions_upto(s, n).len() ==> exists|j: int|
            0 <= j < n && (#[trigger] raw_definitions_upto(s, n)[k]).0 == s.messages@[j].full_name@,
    decreases n,
{
    if n > 0 {
        lemma_raw_definitions_keys(s, n - 1);
        let prev = raw_definitions_upto(s, n - 1);
        let cur = raw_definitions_upto(s, n);
        if !s.messages@[n - 1].is_map_entry {
            assert forall|k: int| 0 <= k < cur.len() implies exists|j: int|
                0 <= j < n && (#[trigger] cur[k]).0 == s.messages@[j].full_name@ by {
                if k < prev.len() {
                    assert(cur[k] == prev[k]);
                    let j = choose|j: int| 0 <= j < n - 1 && prev[k].0 == s.messages@[j].full_name@;
                } else {
                    assert(cur[k].0 == s.messages@[n - 1].full_name@);
                }
            }
            assert forall|x: int, y: int| 0 <= x < cur.len() && 0 <= y < cur.len() && x != y implies cur[x].0 != cur[y].0 by {
                if x < prev.len() && y < prev.len() {
                    assert(cur[x] == prev[x] && cur[y] == prev[y]);
                } else if x < prev.len() {
                    assert(cur[x] == prev[x]);
                    let j = choose|j: int| 0 <= j < n - 1 && prev[x].0 == s.messages@[j].full_name@;
                } else {
                    assert(cur[y] == prev[y]);
                    let j = choose|j: int| 0 <= j < n - 1 && prev[y].0 == s.messages@[j].full_name@;
                }
            }
        }
    }
}

/// The definition of every message of the schema:
/// map entries are left out, well-known types flagged, nested messages expanded
/// up to the first repetition on a chain, and every message-typed field whose type
/// leads back to its own definition marked as a `circular_ref`.
pub fn get_message_definitions(s: &ProtoSchema) -> (r: Vec<(String, GrpcMessageInfo)>)
    requires
        unique_message_names(*s),
    ensures
        definitions_v(r@) == message_definitions(*s),
        unique_keys(definitions_v(r@)),
{
    let mut defs: Vec<(String, GrpcMessageInfo)> = Vec::new();
    let mut visited: Vec<String> = Vec::new();
    let mut i: usize = 0;
    while i < s.messages.len()
        invariant
            i <= s.messages@.len(),
            unique_message_names(*s),
            visited@.len() == 0,
            definitions_v(defs@) == raw_definitions_upto(*s, i as int),
        decreases s.messages.len() - i,
    {
        proof {
            assert(path_set(visited@) =~= Set::empty());
        }
        if !s.messages[i].is_map_entry {
            let info = extract_message_info(s, i, &mut visited);
            let ghost prev = defs@;
            defs.push((s.messages[i].full_name.clone(), info));
            proof {
                assert(definitions_v(defs@) =~= definitions_v(prev).push(
                    (s.messages@[i as int].full_name@, message_info(*s, i as int, Set::empty())),
                ));
            }
        }
        i = i + 1;
    }
    proof {
        lemma_raw_definitions_keys(*s, s.messages@.len() as int);
    }
    detect_top_level_cycles(&mut defs);
    proof {
        assert(unique_keys(definitions_v(defs@)));
    }
    defs
}

} // verus!
