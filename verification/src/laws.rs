//! Properties that relate several operations of the library.
use vstd::prelude::*;

use crate::call::{backoff_base, sat_mul, sat_pow2, MAX_BACKOFF_CAP_MS};
use crate::config::{connect_config_matches, pairs_v, string_pairs, ConnectConfig};
use crate::connect::{configured_entry, connect_success_report, method_summary, service_summary, url_with_scheme_spec};
use crate::definitions::{
    def_edge, def_index, def_reaches, follows, is_def_path, mark_cycles, mark_field, unique_keys,
};
use crate::error_detail::{grpc_error_text, split_error, ERROR_DETAILS_MARKER};
use crate::helpers::{has_meta_key, kept_defaults};
use crate::pool::{retry_defaults, without_execution, GrpcConnection};
use crate::schema::{field_index_by_name, field_index_by_number, message_index, Cardinality, FieldDesc, FieldKind, ProtoSchema};
use crate::definitions::field_info;
use crate::scan::{join, scan_entries, scan_listing, DirListing, FsEntry};
use crate::proto_parser::kind_name;
use crate::validation::{child_path, member_errors, object_errors, validation_outcome};
use crate::services::service_report;
use crate::types::{service_v, GrpcMethodInfo, GrpcServiceInfo};
use crate::json::{lemma_assoc_get_absent, lemma_assoc_get_first, Json};
use crate::text::{first_occurrence, has_prefix, occurs_at, trimmed};
use crate::types::{GrpcPattern, MessageInfoV};

verus! {

// ---------------------------------------------------------------------------
// Connection pool
// ---------------------------------------------------------------------------

/// A connection stored under a key is what the pool then finds under that key,
/// and its retry defaults are the connection's own.
pub proof fn law_stored_connection_is_found<C, T>(
    m: Map<(Seq<char>, Seq<char>), GrpcConnection<C, T>>,
    k: (Seq<char>, Seq<char>),
    conn: GrpcConnection<C, T>,
)
    ensures
        m.insert(k, conn).contains_key(k),
        m.insert(k, conn)[k] == conn,
        retry_defaults(m.insert(k, conn), k) == (conn.max_retries, conn.initial_backoff_ms),
{
}

/// After a close, the key is gone, so closing it again fails; every other
/// connection is untouched.
pub proof fn law_close_forgets_only_its_key<C, T>(
    m: Map<(Seq<char>, Seq<char>), GrpcConnection<C, T>>,
    k: (Seq<char>, Seq<char>),
)
    ensures
        !m.remove(k).contains_key(k),
        forall|x: (Seq<char>, Seq<char>)|
            x != k ==> (#[trigger] m.remove(k).contains_key(x) == m.contains_key(x)) && (m.contains_key(x)
                ==> m.remove(k)[x] == m[x]),
{
}

/// Ending an execution drops exactly its own connections and keeps the others.
pub proof fn law_close_all_drops_only_the_execution<C, T>(
    m: Map<(Seq<char>, Seq<char>), GrpcConnection<C, T>>,
    e: Seq<char>,
)
    ensures
        forall|x: (Seq<char>, Seq<char>)|
            #[trigger] without_execution(m, e).contains_key(x) == (m.contains_key(x) && x.0 != e),
        forall|x: (Seq<char>, Seq<char>)|
            m.contains_key(x) && x.0 != e ==> #[trigger] without_execution(m, e)[x] == m[x],
{
}

/// Connecting with proto files reports what discovering the same files reports:
/// two service lists that each report every service of the compiled schema, as
/// `finish_connect` and `discover_services_via_proto` do, are the same list.
pub proof fn law_proto_connect_reports_discovery(
    s: ProtoSchema,
    connected: Seq<GrpcServiceInfo>,
    discovered: Seq<GrpcServiceInfo>,
)
    requires
        connected.len() == s.services@.len(),
        forall|i: int| 0 <= i < connected.len() ==> service_v(#[trigger] connected[i]) == service_report(s, s.services@[i]),
        discovered.len() == s.services@.len(),
        forall|i: int| 0 <= i < discovered.len() ==> service_v(#[trigger] discovered[i]) == service_report(s, s.services@[i]),
    ensures
        connected.map_values(|x: GrpcServiceInfo| service_v(x)) == discovered.map_values(|x: GrpcServiceInfo| service_v(x)),
{
    let a = connected.map_values(|x: GrpcServiceInfo| service_v(x));
    let b = discovered.map_values(|x: GrpcServiceInfo| service_v(x));
    assert forall|i: int| 0 <= i < a.len() implies #[trigger] a[i] == b[i] by {
        assert(service_v(connected[i]) == service_report(s, s.services@[i]));
        assert(service_v(discovered[i]) == service_report(s, s.services@[i]));
    }
    assert(a =~= b);
}

/// Without a connection the retry defaults are no retries and 1000 ms.
pub proof fn law_missing_connection_retry_defaults<C, T>(
    m: Map<(Seq<char>, Seq<char>), GrpcConnection<C, T>>,
    k: (Seq<char>, Seq<char>),
)
    requires
        !m.contains_key(k),
    ensures
        retry_defaults(m, k) == (0u32, 1000u64),
{
}

/// The retries and backoff configured at connect time are the retry defaults of
/// that connection (no retries and 1000 ms where the configuration is silent),
/// and connecting under another key leaves them as they are.
pub proof fn law_connect_configures_retries<C, T>(
    m: Map<(Seq<char>, Seq<char>), GrpcConnection<C, T>>,
    k: (Seq<char>, Seq<char>),
    entry: GrpcConnection<C, T>,
    cfg: ConnectConfig,
    handle: C,
    schema: ProtoSchema,
    other: (Seq<char>, Seq<char>),
    other_entry: GrpcConnection<C, T>,
)
    requires
        configured_entry(entry, cfg, handle, schema),
        other != k,
    ensures
        retry_defaults(m.insert(k, entry), k) == (
            match cfg.max_retries {
                Some(r) => r,
                None => 0u32,
            },
            match cfg.initial_backoff_ms {
                Some(b) => b,
                None => 1000u64,
            },
        ),
        retry_defaults(m.insert(k, entry).insert(other, other_entry), k) == retry_defaults(m.insert(k, entry), k),
{
}

// ---------------------------------------------------------------------------
// Retries
// ---------------------------------------------------------------------------

proof fn lemma_sat_pow2_grows(a: nat)
    ensures
        sat_pow2(a) <= sat_pow2(a + 1),
{
    vstd::arithmetic::power2::lemma_pow2_strictly_increases(a, a + 1);
}

proof fn lemma_sat_mul_grows(x: u64, b1: u64, b2: u64)
    requires
        b1 <= b2,
    ensures
        sat_mul(x, b1) <= sat_mul(x, b2),
{
    assert(x * b1 <= x * b2) by (nonlinear_arith)
        requires
            b1 <= b2,
    ;
}

/// The backoff before jitter never exceeds 30 s and never shrinks from one
/// attempt to the next.
pub proof fn law_backoff_grows_up_to_the_cap(initial: u64, attempt: u32)
    requires
        attempt < u32::MAX,
    ensures
        backoff_base(initial, attempt) <= MAX_BACKOFF_CAP_MS,
        backoff_base(initial, attempt) <= backoff_base(initial, (attempt + 1) as u32),
{
    lemma_sat_pow2_grows(attempt as nat);
    lemma_sat_mul_grows(initial, sat_pow2(attempt as nat), sat_pow2((attempt + 1) as nat));
}

// ---------------------------------------------------------------------------
// Addresses, metadata, patterns
// ---------------------------------------------------------------------------

/// An address with its scheme keeps it: adding the scheme twice is adding it once.
pub proof fn law_scheme_added_once(url: Seq<char>, use_tls: bool, again: bool)
    ensures
        url_with_scheme_spec(url_with_scheme_spec(url, use_tls), again) == url_with_scheme_spec(url, use_tls),
        has_prefix(url_with_scheme_spec(url, use_tls), "http://"@) || has_prefix(
            url_with_scheme_spec(url, use_tls),
            "https://"@,
        ),
{
    let r = url_with_scheme_spec(url, use_tls);
    reveal_strlit("http://");
    reveal_strlit("https://");
    if !(has_prefix(url, "http://"@) || has_prefix(url, "https://"@)) {
        if use_tls {
            assert(r.subrange(0, 8) =~= "https://"@);
        } else {
            assert(r.subrange(0, 7) =~= "http://"@);
        }
    }
}

/// Merged metadata: every key the call sets keeps the call's entries only, and
/// every other default entry is kept.
pub proof fn law_call_metadata_overrides(d: Seq<(Seq<char>, Seq<char>)>, c: Seq<(Seq<char>, Seq<char>)>)
    ensures
        forall|i: int|
            0 <= i < kept_defaults(d, c).len() ==> !has_meta_key(c, #[trigger] kept_defaults(d, c)[i].0),
        forall|i: int|
            0 <= i < d.len() && !has_meta_key(c, #[trigger] d[i].0) ==> kept_defaults(d, c).contains(d[i]),
    decreases d.len(),
{
    if d.len() > 0 {
        law_call_metadata_overrides(d.drop_last(), c);
        let p = kept_defaults(d.drop_last(), c);
        assert forall|i: int| 0 <= i < d.len() && !has_meta_key(c, #[trigger] d[i].0) implies kept_defaults(
            d,
            c,
        ).contains(d[i]) by {
            if i < d.len() - 1 {
                assert(d.drop_last()[i] == d[i]);
                let j = choose|j: int| 0 <= j < p.len() && p[j] == d[i];
                assert(kept_defaults(d, c)[j] == d[i]);
            } else {
                assert(kept_defaults(d, c)[p.len() as int] == d[i]);
            }
        }
        assert forall|i: int| 0 <= i < kept_defaults(d, c).len() implies !has_meta_key(
            c,
            #[trigger] kept_defaults(d, c)[i].0,
        ) by {
            if i < p.len() {
                assert(kept_defaults(d, c)[i] == p[i]);
            }
        }
    }
}

/// Distinct streaming flags give distinct patterns.
pub proof fn law_pattern_determines_flags(a: bool, b: bool, c: bool, d: bool)
    requires
        GrpcPattern::spec_from_method_info(a, b) == GrpcPattern::spec_from_method_info(c, d),
    ensures
        a == c && b == d,
{
}

// ---------------------------------------------------------------------------
// Error details
// ---------------------------------------------------------------------------

/// An error text with details splits back into its trimmed message and its
/// trimmed details, when the marker does not occur earlier; without details the
/// whole text is the message, when the marker does not occur in it.
pub proof fn law_error_details_round_trip(prefix: Seq<char>, message: Seq<char>, code: Seq<char>, details: Seq<char>)
    ensures
        ({
            let base = prefix + ": "@ + message + " ("@ + code + ")"@;
            let t = grpc_error_text(prefix, message, code, Some(details));
            (forall|i: int| 0 <= i < base.len() ==> !occurs_at(t, ERROR_DETAILS_MARKER@, i)) ==> split_error(t) == (
            trimmed(base), Some(trimmed(details)))
        }),
        ({
            let base = prefix + ": "@ + message + " ("@ + code + ")"@;
            (forall|i: int| !occurs_at(base, ERROR_DETAILS_MARKER@, i)) ==> split_error(grpc_error_text(
                prefix,
                message,
                code,
                None,
            )) == (base, None::<Seq<char>>)
        }),
{
    let base = prefix + ": "@ + message + " ("@ + code + ")"@;
    let m = ERROR_DETAILS_MARKER@;
    let t = base + m + details;
    assert(grpc_error_text(prefix, message, code, Some(details)) == t);
    if forall|i: int| 0 <= i < base.len() ==> !occurs_at(t, m, i) {
        assert(t.subrange(base.len() as int, (base.len() + m.len()) as int) =~= m);
        assert(occurs_at(t, m, base.len() as int));
        let f = first_occurrence(t, m);
        let w = choose|i: int| occurs_at(t, m, i) && forall|j: int| 0 <= j < i ==> !occurs_at(t, m, j);
        if w < base.len() {
        } else if w > base.len() {
            assert(!occurs_at(t, m, base.len() as int));
        }
        assert(f == Some(base.len() as int));
        assert(t.subrange(0, base.len() as int) =~= base);
        assert(t.subrange((base.len() + m.len()) as int, t.len() as int) =~= details);
    }
    assert(grpc_error_text(prefix, message, code, None) == base);
}

// ---------------------------------------------------------------------------
// Circular references
// ---------------------------------------------------------------------------

proof fn lemma_mark_keeps_edges(d: Seq<(Seq<char>, MessageInfoV)>, x: int, y: int)
    ensures
        def_edge(mark_cycles(d), x, y) == def_edge(d, x, y),
{
    let md = mark_cycles(d);
    if def_edge(d, x, y) {
        let k = choose|k: int|
            0 <= k < d[x].1.fields.len() && follows(#[trigger] d[x].1.fields[k]) && d[x].1.fields[k].type_full_name
                == Some(d[y].0);
        assert(md[x].1.fields[k] == mark_field(d, x, d[x].1.fields[k]));
        assert(follows(md[x].1.fields[k]));
    }
    if def_edge(md, x, y) {
        let k = choose|k: int|
            0 <= k < md[x].1.fields.len() && follows(#[trigger] md[x].1.fields[k]) && md[x].1.fields[k].type_full_name
                == Some(md[y].0);
        assert(md[x].1.fields[k] == mark_field(d, x, d[x].1.fields[k]));
        assert(follows(d[x].1.fields[k]));
    }
}

proof fn lemma_mark_keeps_paths(d: Seq<(Seq<char>, MessageInfoV)>, p: Seq<int>)
    ensures
        is_def_path(mark_cycles(d), p) == is_def_path(d, p),
{
    let md = mark_cycles(d);
    assert forall|i: int| 0 <= i < p.len() - 1 implies def_edge(md, #[trigger] p[i], p[i + 1]) == def_edge(d, p[i], p[i + 1]) by {
        lemma_mark_keeps_edges(d, p[i], p[i + 1]);
    }
}

proof fn lemma_mark_keeps_reach(d: Seq<(Seq<char>, MessageInfoV)>, x: int, y: int)
    ensures
        def_reaches(mark_cycles(d), x, y) == def_reaches(d, x, y),
{
    let md = mark_cycles(d);
    if def_reaches(d, x, y) {
        let p = choose|p: Seq<int>| #[trigger] is_def_path(d, p) && p[0] == x && p.last() == y;
        lemma_mark_keeps_paths(d, p);
    }
    if def_reaches(md, x, y) {
        let p = choose|p: Seq<int>| #[trigger] is_def_path(md, p) && p[0] == x && p.last() == y;
        lemma_mark_keeps_paths(d, p);
    }
}

/// Detecting circular references twice marks nothing more than doing it once.
pub proof fn law_cycle_marking_is_idempotent(d: Seq<(Seq<char>, MessageInfoV)>)
    requires
        unique_keys(d),
    ensures
        mark_cycles(mark_cycles(d)) == mark_cycles(d),
{
    let md = mark_cycles(d);
    assert forall|n: Seq<char>| #[trigger] def_index(md, n) == def_index(d, n) by {
        if exists|i: int| 0 <= i < d.len() && d[i].0 == n {
            let i = choose|i: int| 0 <= i < d.len() && d[i].0 == n;
            assert(md[i].0 == n);
            let j = choose|j: int| 0 <= j < md.len() && md[j].0 == n;
            assert(d[j].0 == md[j].0);
            if i != j {
                assert(d[i].0 != d[j].0);
            }
        } else {
            if exists|j: int| 0 <= j < md.len() && md[j].0 == n {
                let j = choose|j: int| 0 <= j < md.len() && md[j].0 == n;
                assert(d[j].0 == md[j].0);
            }
        }
    }
    assert forall|a: int| 0 <= a < md.len() implies #[trigger] mark_cycles(md)[a] == md[a] by {
        assert forall|k: int| 0 <= k < md[a].1.fields.len() implies mark_field(md, a, #[trigger] md[a].1.fields[k])
            == md[a].1.fields[k] by {
            let f = d[a].1.fields[k];
            assert(md[a].1.fields[k] == mark_field(d, a, f));
            match f.type_full_name {
                Some(n) => {
                    match def_index(d, n) {
                        Some(t) => {
                            lemma_mark_keeps_reach(d, t, a);
                        },
                        None => {},
                    }
                },
                None => {},
            }
        }
        assert(mark_cycles(md)[a].1.fields =~= md[a].1.fields);
    }
    assert(mark_cycles(md) =~= md);
}

// ---------------------------------------------------------------------------
// Connect report
// ---------------------------------------------------------------------------

/// In the report of a successful connection, service `i` is listed under
/// `services` with its name, and its method `k` under `methods` with its name,
/// its input and output types and whether the server streams, as the method
/// says.
pub proof fn law_connect_report_lists_methods(
    connection_id: Seq<char>,
    url: Seq<char>,
    connect_ms: u64,
    total_ms: u64,
    services: Seq<GrpcServiceInfo>,
    c: ConnectConfig,
    i: int,
    k: int,
)
    requires
        0 <= i < services.len(),
        0 <= k < services[i].methods@.len(),
    ensures
        ({
            let report = connect_success_report(connection_id, url, connect_ms, total_ms, services, c);
            let m = services[i].methods@[k];
            &&& report.get("services"@) matches Some(Json::Array(listed))
            &&& i < listed.len()
            &&& listed[i].get("service_name"@) == Some(Json::Str(services[i].service_name@))
            &&& listed[i].get("methods"@) matches Some(Json::Array(ms))
            &&& k < ms.len()
            &&& ms[k].get("method_name"@) == Some(Json::Str(m.method_name@))
            &&& ms[k].get("input_type"@) == Some(Json::Str(m.input_type@))
            &&& ms[k].get("output_type"@) == Some(Json::Str(m.output_type@))
            &&& ms[k].get("is_server_streaming"@) == Some(Json::Bool(m.is_server_streaming))
        }),
{
    reveal_strlit("success");
    reveal_strlit("connection_id");
    reveal_strlit("url");
    reveal_strlit("request");
    reveal_strlit("timing");
    reveal_strlit("services");
    reveal_strlit("service_count");
    reveal_strlit("service_name");
    reveal_strlit("methods");
    reveal_strlit("method_name");
    reveal_strlit("input_type");
    reveal_strlit("output_type");
    reveal_strlit("is_server_streaming");
    let report = connect_success_report(connection_id, url, connect_ms, total_ms, services, c);
    let listed = services.map_values(|x: GrpcServiceInfo| service_summary(x));
    let pairs = report->Object_0;
    assert("success"@[2] != "services"@[2]);
    assert("connection_id"@[0] != "services"@[0]);
    assert("url"@.len() != "services"@.len());
    assert("request"@.len() != "services"@.len());
    assert("timing"@.len() != "services"@.len());
    lemma_assoc_get_first(pairs, "services"@, 5);
    let sp = service_summary(services[i])->Object_0;
    assert("service_name"@.len() != "methods"@.len());
    lemma_assoc_get_first(sp, "service_name"@, 0);
    lemma_assoc_get_first(sp, "methods"@, 1);
    let ms = services[i].methods@.map_values(|x: GrpcMethodInfo| method_summary(x));
    let mp = method_summary(services[i].methods@[k])->Object_0;
    assert("method_name"@.len() != "input_type"@.len());
    assert("method_name"@[0] != "output_type"@[0]);
    assert("input_type"@[0] != "output_type"@[0]);
    assert("method_name"@.len() != "is_server_streaming"@.len());
    assert("input_type"@.len() != "is_server_streaming"@.len());
    assert("output_type"@.len() != "is_server_streaming"@.len());
    lemma_assoc_get_first(mp, "method_name"@, 0);
    lemma_assoc_get_first(mp, "input_type"@, 1);
    lemma_assoc_get_first(mp, "output_type"@, 2);
    lemma_assoc_get_first(mp, "is_server_streaming"@, 3);
}

// ---------------------------------------------------------------------------
// Connect configuration
// ---------------------------------------------------------------------------

/// The `{key, value}` object of a metadata entry.
pub open spec fn metadata_entry_json(key: Seq<char>, value: Seq<char>) -> Json {
    Json::Object(seq![("key"@, Json::Str(key)), ("value"@, Json::Str(value))])
}

proof fn lemma_entries_read_in_order(items: Seq<Json>, keys: Seq<Seq<char>>, values: Seq<Seq<char>>)
    requires
        items.len() == keys.len(),
        keys.len() == values.len(),
        forall|t: int| 0 <= t < items.len() ==> #[trigger] items[t] == metadata_entry_json(keys[t], values[t]),
    ensures
        string_pairs(items, "key"@, "value"@) == Seq::new(keys.len(), |t: int| (keys[t], values[t])),
    decreases items.len(),
{
    reveal_strlit("key");
    reveal_strlit("value");
    if items.len() > 0 {
        let n = items.len() - 1;
        lemma_entries_read_in_order(items.drop_last(), keys.drop_last(), values.drop_last());
        let e = metadata_entry_json(keys[n], values[n]);
        assert(items.last() == e);
        assert("key"@.len() != "value"@.len());
        lemma_assoc_get_first(e->Object_0, "key"@, 0);
        lemma_assoc_get_first(e->Object_0, "value"@, 1);
        assert(string_pairs(items, "key"@, "value"@) =~= Seq::new(keys.len(), |t: int| (keys[t], values[t])));
    }
}

/// The reflection metadata of a connect configuration are the `{key, value}`
/// entries of the document's `reflection_metadata` member, in order, and none
/// when the document has no such member, whatever its other members say.
pub proof fn law_connect_reads_reflection_metadata(
    c: ConnectConfig,
    members: Seq<(Seq<char>, Json)>,
    at: int,
    keys: Seq<Seq<char>>,
    values: Seq<Seq<char>>,
)
    requires
        connect_config_matches(c, Json::Object(members)),
        keys.len() == values.len(),
    ensures
        (0 <= at < members.len() && members[at].0 == "reflection_metadata"@ && (forall|j: int|
            0 <= j < at ==> members[j].0 != "reflection_metadata"@) && members[at].1 == Json::Array(
            Seq::new(keys.len(), |t: int| metadata_entry_json(keys[t], values[t])),
        )) ==> pairs_v(c.reflection_metadata@) == Seq::new(keys.len(), |t: int| (keys[t], values[t])),
        (forall|j: int| 0 <= j < members.len() ==> members[j].0 != "reflection_metadata"@) ==> c.reflection_metadata@.len()
            == 0,
{
    if 0 <= at < members.len() && members[at].0 == "reflection_metadata"@ && (forall|j: int|
        0 <= j < at ==> members[j].0 != "reflection_metadata"@) && members[at].1 == Json::Array(
        Seq::new(keys.len(), |t: int| metadata_entry_json(keys[t], values[t])),
    ) {
        lemma_assoc_get_first(members, "reflection_metadata"@, at);
        let items = Seq::new(keys.len(), |t: int| metadata_entry_json(keys[t], values[t]));
        lemma_entries_read_in_order(items, keys, values);
    }
    if forall|j: int| 0 <= j < members.len() ==> members[j].0 != "reflection_metadata"@ {
        lemma_assoc_get_absent(members, "reflection_metadata"@);
        assert(pairs_v(c.reflection_metadata@).len() == 0);
    }
}

// ---------------------------------------------------------------------------
// Request validation
// ---------------------------------------------------------------------------

/// A message that no earlier message shares a name with is the one found by name.
pub proof fn lemma_first_message_found(s: ProtoSchema, j: int)
    requires
        0 <= j < s.messages@.len(),
        forall|i: int| 0 <= i < j ==> s.messages@[i].full_name@ != s.messages@[j].full_name@,
    ensures
        message_index(s, s.messages@[j].full_name@) == Some(j),
{
    let n = s.messages@[j].full_name@;
    let w = choose|i: int|
        0 <= i < s.messages@.len() && s.messages@[i].full_name@ == n && forall|q: int|
            0 <= q < i ==> s.messages@[q].full_name@ != n;
    assert(w == j) by {
        if w < j {
            assert(s.messages@[w].full_name@ != n);
        } else if w > j {
            assert(s.messages@[j].full_name@ != n);
        }
    }
}

/// A field that no earlier field shares a name with is the one found by name.
pub proof fn lemma_first_field_found(fields: Seq<FieldDesc>, k: int)
    requires
        0 <= k < fields.len(),
        forall|i: int| 0 <= i < k ==> fields[i].name@ != fields[k].name@,
    ensures
        field_index_by_name(fields, fields[k].name@) == Some(k),
{
    let n = fields[k].name@;
    assert(fields[k].name@ == n && forall|q: int| 0 <= q < k ==> fields[q].name@ != n);
    let w = choose|i: int| 0 <= i < fields.len() && fields[i].name@ == n && forall|q: int| 0 <= q < i ==> fields[q].name@ != n;
    assert(0 <= w < fields.len() && fields[w].name@ == n && forall|q: int| 0 <= q < w ==> fields[q].name@ != n);
    if w < k {
        assert(fields[w].name@ != n);
    } else if w > k {
        assert(fields[k].name@ != n);
    }
}

proof fn lemma_single_member_outcome(s: ProtoSchema, j: int, key: Seq<char>, v: Json)
    requires
        0 <= j < s.messages@.len(),
        forall|i: int| 0 <= i < j ==> s.messages@[i].full_name@ != s.messages@[j].full_name@,
    ensures
        ({
            let errs = member_errors(s, s.messages@[j].fields@, key, v, key);
            validation_outcome(s, s.messages@[j].full_name@, Ok(Json::Object(seq![(key, v)])))
                == Ok::<(bool, Seq<(Seq<char>, Seq<char>)>), Seq<char>>((errs.len() == 0, errs))
        }),
{
    lemma_first_message_found(s, j);
    let pairs = seq![(key, v)];
    assert(pairs.drop_last() =~= Seq::<(Seq<char>, Json)>::empty());
    assert(child_path(Seq::empty(), key) == key);
    assert(object_errors(s, s.messages@[j].fields@, pairs, Seq::empty()) =~= object_errors(
        s,
        s.messages@[j].fields@,
        Seq::empty(),
        Seq::empty(),
    ) + member_errors(s, s.messages@[j].fields@, key, v, key));
    assert(object_errors(s, s.messages@[j].fields@, Seq::empty(), Seq::empty()) =~= Seq::empty());
}

/// A member whose name is no field of the message is reported once, at its
/// own path, as `unknown field`, whatever its value.
pub proof fn law_unknown_member_reported(s: ProtoSchema, j: int, key: Seq<char>, v: Json)
    requires
        0 <= j < s.messages@.len(),
        forall|i: int| 0 <= i < j ==> s.messages@[i].full_name@ != s.messages@[j].full_name@,
        forall|i: int| 0 <= i < s.messages@[j].fields@.len() ==> s.messages@[j].fields@[i].name@ != key,
    ensures
        validation_outcome(s, s.messages@[j].full_name@, Ok(Json::Object(seq![(key, v)])))
            == Ok::<(bool, Seq<(Seq<char>, Seq<char>)>), Seq<char>>((false, seq![(key, "unknown field"@)])),
{
    lemma_single_member_outcome(s, j, key, v);
}

/// A singular string field takes strings and `null`; any other value is
/// reported once, at the field's path, as `expected string type, got ` and the
/// kind of the value.
pub proof fn law_string_field_takes_only_strings(s: ProtoSchema, j: int, k: int, v: Json)
    requires
        0 <= j < s.messages@.len(),
        forall|i: int| 0 <= i < j ==> s.messages@[i].full_name@ != s.messages@[j].full_name@,
        0 <= k < s.messages@[j].fields@.len(),
        s.messages@[j].fields@[k].kind is Str,
        !s.messages@[j].fields@[k].is_map,
        s.messages@[j].fields@[k].cardinality != Cardinality::Repeated,
        forall|i: int|
            0 <= i < k ==> s.messages@[j].fields@[i].name@ != s.messages@[j].fields@[k].name@,
    ensures
        ({
            let f = s.messages@[j].fields@[k];
            let out = validation_outcome(s, s.messages@[j].full_name@, Ok(Json::Object(seq![(f.name@, v)])));
            &&& (v is Str || v is Null) ==> out == Ok::<(bool, Seq<(Seq<char>, Seq<char>)>), Seq<char>>((true, Seq::empty()))
            &&& !(v is Str || v is Null) ==> out == Ok::<(bool, Seq<(Seq<char>, Seq<char>)>), Seq<char>>(
                (false, seq![(f.name@, "expected string type, got "@ + v.kind_name())]),
            )
        }),
{
    let f = s.messages@[j].fields@[k];
    lemma_first_field_found(s.messages@[j].fields@, k);
    lemma_single_member_outcome(s, j, f.name@, v);
    reveal_strlit("expected ");
    reveal_strlit(", got ");
    reveal_strlit("string type");
    reveal_strlit("expected string type, got ");
    assert("expected "@ + "string type"@ + ", got "@ =~= "expected string type, got "@);
}

/// A singular signed integer field takes numbers and `null`; any other value is
/// reported once, at the field's path, as `expected integer type, got ` and the
/// kind of the value.
pub proof fn law_integer_field_takes_only_numbers(s: ProtoSchema, j: int, k: int, v: Json)
    requires
        0 <= j < s.messages@.len(),
        forall|i: int| 0 <= i < j ==> s.messages@[i].full_name@ != s.messages@[j].full_name@,
        0 <= k < s.messages@[j].fields@.len(),
        ({
            let kd = s.messages@[j].fields@[k].kind;
            kd is Int32 || kd is Int64 || kd is Sint32 || kd is Sint64 || kd is Sfixed32 || kd is Sfixed64
        }),
        !s.messages@[j].fields@[k].is_map,
        s.messages@[j].fields@[k].cardinality != Cardinality::Repeated,
        forall|i: int|
            0 <= i < k ==> s.messages@[j].fields@[i].name@ != s.messages@[j].fields@[k].name@,
    ensures
        ({
            let f = s.messages@[j].fields@[k];
            let out = validation_outcome(s, s.messages@[j].full_name@, Ok(Json::Object(seq![(f.name@, v)])));
            &&& (v is Number || v is Null) ==> out == Ok::<(bool, Seq<(Seq<char>, Seq<char>)>), Seq<char>>((true, Seq::empty()))
            &&& !(v is Number || v is Null) ==> out == Ok::<(bool, Seq<(Seq<char>, Seq<char>)>), Seq<char>>(
                (false, seq![(f.name@, "expected integer type, got "@ + v.kind_name())]),
            )
        }),
{
    let f = s.messages@[j].fields@[k];
    lemma_first_field_found(s.messages@[j].fields@, k);
    lemma_single_member_outcome(s, j, f.name@, v);
    reveal_strlit("expected ");
    reveal_strlit(", got ");
    reveal_strlit("integer type");
    reveal_strlit("expected integer type, got ");
    assert("expected "@ + "integer type"@ + ", got "@ =~= "expected integer type, got "@);
}

/// A singular `bool` field takes `true`, `false` and `null`; any other value is
/// reported once, at the field's path, as `expected bool type, got ` and the
/// kind of the value (`string` for a string, `number` for a number).
pub proof fn law_bool_field_takes_only_booleans(s: ProtoSchema, j: int, k: int, v: Json)
    requires
        0 <= j < s.messages@.len(),
        forall|i: int| 0 <= i < j ==> s.messages@[i].full_name@ != s.messages@[j].full_name@,
        0 <= k < s.messages@[j].fields@.len(),
        s.messages@[j].fields@[k].kind is Bool,
        !s.messages@[j].fields@[k].is_map,
        s.messages@[j].fields@[k].cardinality != Cardinality::Repeated,
        forall|i: int|
            0 <= i < k ==> s.messages@[j].fields@[i].name@ != s.messages@[j].fields@[k].name@,
    ensures
        ({
            let f = s.messages@[j].fields@[k];
            let out = validation_outcome(s, s.messages@[j].full_name@, Ok(Json::Object(seq![(f.name@, v)])));
            &&& (v is Bool || v is Null) ==> out == Ok::<(bool, Seq<(Seq<char>, Seq<char>)>), Seq<char>>((true, Seq::empty()))
            &&& !(v is Bool || v is Null) ==> out == Ok::<(bool, Seq<(Seq<char>, Seq<char>)>), Seq<char>>(
                (false, seq![(f.name@, "expected bool type, got "@ + v.kind_name())]),
            )
            &&& v is Str ==> out == Ok::<(bool, Seq<(Seq<char>, Seq<char>)>), Seq<char>>(
                (false, seq![(f.name@, "expected bool type, got string"@)]),
            )
            &&& v is Number ==> out == Ok::<(bool, Seq<(Seq<char>, Seq<char>)>), Seq<char>>(
                (false, seq![(f.name@, "expected bool type, got number"@)]),
            )
        }),
{
    let f = s.messages@[j].fields@[k];
    lemma_first_message_found(s, j);
    lemma_first_field_found(s.messages@[j].fields@, k);
    let pairs = seq![(f.name@, v)];
    assert(pairs.drop_last() =~= Seq::<(Seq<char>, Json)>::empty());
    assert(child_path(Seq::empty(), f.name@) == f.name@);
    assert(object_errors(s, s.messages@[j].fields@, pairs, Seq::empty()) =~= object_errors(
        s,
        s.messages@[j].fields@,
        Seq::empty(),
        Seq::empty(),
    ) + member_errors(s, s.messages@[j].fields@, f.name@, v, f.name@));
    assert(object_errors(s, s.messages@[j].fields@, Seq::empty(), Seq::empty()) =~= Seq::empty());
    assert(member_errors(s, s.messages@[j].fields@, f.name@, v, f.name@) == crate::validation::check_field(
        s,
        f,
        v,
        f.name@,
    ));
    reveal_strlit("expected ");
    reveal_strlit(", got ");
    reveal_strlit("bool type");
    reveal_strlit("string");
    reveal_strlit("number");
    reveal_strlit("expected bool type, got string");
    reveal_strlit("expected bool type, got number");
    assert("expected "@ + "bool type"@ + ", got "@ + "string"@ =~= "expected bool type, got string"@);
    assert("expected "@ + "bool type"@ + ", got "@ + "number"@ =~= "expected bool type, got number"@);
    assert("expected "@ + "bool type"@ + ", got "@ =~= "expected bool type, got "@) by {
        reveal_strlit("expected bool type, got ");
    }
}

// ---------------------------------------------------------------------------
// Message definitions
// ---------------------------------------------------------------------------

proof fn lemma_first_field_numbered(fields: Seq<FieldDesc>, k: int, number: u32)
    requires
        0 <= k < fields.len(),
        fields[k].number == number,
        forall|i: int| 0 <= i < k ==> fields[i].number != number,
    ensures
        field_index_by_number(fields, number) == Some(k),
{
    assert(fields[k].number == number && forall|q: int| 0 <= q < k ==> fields[q].number != number);
    let w = choose|i: int|
        0 <= i < fields.len() && fields[i].number == number && forall|q: int| 0 <= q < i ==> fields[q].number != number;
    assert(0 <= w < fields.len() && fields[w].number == number && forall|q: int| 0 <= q < w ==> fields[q].number != number);
    if w < k {
        assert(fields[w].number != number);
    } else if w > k {
        assert(fields[k].number != number);
    }
}

/// A map field is described by its entry message: the key type is the type of
/// the entry's field number 1, the value type that of its field number 2, and
/// the field is shown as `map<key, value>`.
pub proof fn law_map_field_types(s: ProtoSchema, f: FieldDesc, path: Set<Seq<char>>, e: int, k1: int, k2: int)
    requires
        f.is_map,
        0 <= e < s.messages@.len(),
        f.kind matches FieldKind::Message(n) && n@ == s.messages@[e].full_name@,
        forall|i: int| 0 <= i < e ==> s.messages@[i].full_name@ != s.messages@[e].full_name@,
        0 <= k1 < s.messages@[e].fields@.len(),
        s.messages@[e].fields@[k1].number == 1,
        forall|i: int| 0 <= i < k1 ==> s.messages@[e].fields@[i].number != 1,
        0 <= k2 < s.messages@[e].fields@.len(),
        s.messages@[e].fields@[k2].number == 2,
        forall|i: int| 0 <= i < k2 ==> s.messages@[e].fields@[i].number != 2,
    ensures
        ({
            let r = field_info(s, f, path);
            let key = kind_name(s.messages@[e].fields@[k1].kind);
            let value = kind_name(s.messages@[e].fields@[k2].kind);
            &&& r.map_key_type == Some(key)
            &&& r.map_value_type == Some(value)
            &&& r.type_display == "map<"@ + key + ", "@ + value + ">"@
            &&& r.type_kind == "map"@
            &&& r.is_map
            &&& r.name == f.name@
        }),
{
    lemma_first_message_found(s, e);
    lemma_first_field_numbered(s.messages@[e].fields@, k1, 1);
    lemma_first_field_numbered(s.messages@[e].fields@, k2, 2);
}

// ---------------------------------------------------------------------------
// Scanning for proto files
// ---------------------------------------------------------------------------

/// `segs` leads to a file among `entries`: each segment but the last names a
/// directory holding the rest, and the last names a file.
pub open spec fn leads_to_file(entries: Seq<FsEntry>, segs: Seq<Seq<char>>) -> bool
    decreases segs.len(),
{
    if segs.len() == 0 {
        false
    } else {
        exists|i: int|
            0 <= i < entries.len() && match #[trigger] entries[i] {
                FsEntry::File { name } => segs.len() == 1 && name@ == segs[0],
                FsEntry::Dir { name, listing } => segs.len() > 1 && name@ == segs[0] && leads_to_file(
                    listing.entries@,
                    segs.drop_first(),
                ),
            }
    }
}

/// The path of `segs` below the directory at path `dir`: the names joined by `/`.
pub open spec fn path_below(dir: Seq<char>, segs: Seq<Seq<char>>) -> Seq<char>
    decreases segs.len(),
{
    if segs.len() == 0 {
        dir
    } else {
        path_below(if dir.len() == 0 { segs[0] } else { dir + "/"@ + segs[0] }, segs.drop_first())
    }
}

proof fn lemma_leads_in_longer(entries: Seq<FsEntry>, more: Seq<FsEntry>, segs: Seq<Seq<char>>)
    requires
        leads_to_file(entries, segs),
        entries.len() <= more.len(),
        forall|i: int| 0 <= i < entries.len() ==> more[i] == entries[i],
    ensures
        leads_to_file(more, segs),
{
    let i = choose|i: int|
        0 <= i < entries.len() && match #[trigger] entries[i] {
            FsEntry::File { name } => segs.len() == 1 && name@ == segs[0],
            FsEntry::Dir { name, listing } => segs.len() > 1 && name@ == segs[0] && leads_to_file(
                listing.entries@,
                segs.drop_first(),
            ),
        };
    assert(more[i] == entries[i]);
}

/// No segment is hidden and the last one names a proto file.
pub open spec fn visible_proto(segs: Seq<Seq<char>>) -> bool {
    &&& segs.len() > 0
    &&& forall|t: int| 0 <= t < segs.len() ==> !((#[trigger] segs[t]).len() > 0 && segs[t][0] == '.')
    &&& segs.last().len() >= ".proto"@.len()
    &&& segs.last().subrange(segs.last().len() - ".proto"@.len(), segs.last().len() as int) == ".proto"@
}

proof fn lemma_scan_entries_paths(prefix: Seq<char>, entries: Seq<FsEntry>, idx: int)
    requires
        0 <= idx < scan_entries(prefix, entries).0.len(),
    ensures
        exists|segs: Seq<Seq<char>>|
            leads_to_file(entries, segs) && visible_proto(segs) && #[trigger] path_below(prefix, segs) == scan_entries(prefix, entries).0[idx],
    decreases entries, 1nat,
{
    let n = entries.len() - 1;
    let prev = entries.drop_last();
    let (f, e) = scan_entries(prefix, prev);
    let out = scan_entries(prefix, entries).0;
    if idx < f.len() {
        lemma_scan_entries_paths(prefix, prev, idx);
        let segs = choose|segs: Seq<Seq<char>>|
            leads_to_file(prev, segs) && visible_proto(segs) && #[trigger] path_below(prefix, segs) == f[idx];
        lemma_leads_in_longer(prev, entries, segs);
        assert(out[idx] == f[idx]);
    } else {
        match entries[n] {
            FsEntry::Dir { name, listing } => {
                assert(decreases_to!(entries => entries[entries.len() - 1]));
                let sub = join(prefix, name@);
                let g = scan_listing(sub, listing).0;
                assert(out == f + g);
                lemma_scan_listing_paths(sub, listing, idx - f.len());
                let rest = choose|segs: Seq<Seq<char>>|
                    leads_to_file(listing.entries@, segs) && visible_proto(segs) && #[trigger] path_below(sub, segs) == g[idx - f.len()];
                let segs = seq![name@] + rest;
                assert(segs.drop_first() =~= rest);
                assert(segs.len() > 1) by {
                    assert(rest.len() > 0);
                }
                assert(match entries[n] {
                    FsEntry::File { name } => segs.len() == 1 && name@ == segs[0],
                    FsEntry::Dir { name, listing } => segs.len() > 1 && name@ == segs[0] && leads_to_file(
                        listing.entries@,
                        segs.drop_first(),
                    ),
                });
                assert(leads_to_file(entries, segs));
                assert(segs.last() == rest.last());
                assert(forall|t: int| 0 < t < segs.len() ==> segs[t] == rest[t - 1]);
                assert(visible_proto(segs));
                assert(path_below(prefix, segs) == path_below(sub, rest));
            },
            FsEntry::File { name } => {
                let segs = seq![name@];
                assert(segs.drop_first() =~= Seq::<Seq<char>>::empty());
                assert(out == f.push(join(prefix, name@)));
                assert(match entries[n] {
                    FsEntry::File { name } => segs.len() == 1 && name@ == segs[0],
                    FsEntry::Dir { name, listing } => segs.len() > 1 && name@ == segs[0] && leads_to_file(
                        listing.entries@,
                        segs.drop_first(),
                    ),
                });
                assert(leads_to_file(entries, segs));
                assert(visible_proto(segs));
                assert(path_below(join(prefix, name@), segs.drop_first()) == join(prefix, name@));
                assert(path_below(prefix, segs) == join(prefix, name@));
            },
        }
    }
}

proof fn lemma_scan_listing_paths(prefix: Seq<char>, l: DirListing, idx: int)
    requires
        0 <= idx < scan_listing(prefix, l).0.len(),
    ensures
        exists|segs: Seq<Seq<char>>|
            leads_to_file(l.entries@, segs) && visible_proto(segs) && #[trigger] path_below(prefix, segs) == scan_listing(prefix, l).0[idx],
    decreases l, 0nat,
{
    assert(decreases_to!(l => l.entries));
    assert(decreases_to!(l.entries => l.entries@));
    lemma_scan_entries_paths(prefix, l.entries@, idx);
}

/// Every path a scan returns is the path of a file of the scanned tree relative
/// to the scanned root: the names of the directories that lead to it, then its
/// own name, joined by `/`; none of those names is hidden, and the file's name
/// ends in `.proto`.
pub proof fn law_scan_paths_are_relative(listing: DirListing, idx: int)
    requires
        0 <= idx < scan_listing(Seq::empty(), listing).0.len(),
    ensures
        exists|segs: Seq<Seq<char>>|
            leads_to_file(listing.entries@, segs) && visible_proto(segs) && #[trigger] path_below(Seq::empty(), segs) == scan_listing(
                Seq::empty(),
                listing,
            ).0[idx],
{
    lemma_scan_listing_paths(Seq::empty(), listing, idx);
}

} // verus!
