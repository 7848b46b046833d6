//! Decisions of the `grpc:call` node: which pattern a call uses, whether and
//! how long to wait before a retry, which messages a streaming call sends, and
//! the report of a finished call.
use rand::Rng;
use vstd::prelude::*;

use crate::config::{messages_v, CallConfig};
use crate::error_detail::{grpc_error_text, parse_error_details, split_error, ERROR_DETAILS_MARKER};
use crate::json::{array, member, num, object, opt_text, pairs_model, text, values_model, JNum, Json, JsonValue};
use crate::text::{chars_of, decimal, decimal_spec, last_index_of, rfind_char, slice_range, string_from_chars, trim_bounds, trimmed};
use crate::types::{GrpcErrorDetail, GrpcPattern, GrpcServiceInfo, GrpcStreamingResult, GrpcTimingInfo};

verus! {

// ---------------------------------------------------------------------------
// Retries
// ---------------------------------------------------------------------------

/// Upper bound of a backoff before jitter, in milliseconds.
pub const MAX_BACKOFF_CAP_MS: u64 = 30_000;

/// The status code written in the last parentheses that close an error message.
pub open spec fn error_code(e: Seq<char>) -> Option<Seq<char>> {
    match last_index_of(e, '(') {
        None => None,
        Some(p) => {
            let rest = e.subrange(p + 1, e.len() as int);
            if rest.len() > 0 && rest.last() == ')' {
                Some(trimmed(rest.drop_last()))
            } else {
                None
            }
        },
    }
}

/// An error is retried when the status code of its readable message (the text
/// before any details) is `UNAVAILABLE` or `DEADLINE_EXCEEDED`.
pub open spec fn retryable(e: Seq<char>) -> bool {
    match error_code(split_error(e).0) {
        Some(c) => c == "UNAVAILABLE"@ || c == "DEADLINE_EXCEEDED"@,
        None => false,
    }
}

fn code_of(error: &str) -> (r: Option<String>)
    ensures
        match r {
            Some(c) => error_code(error@) == Some(c@),
            None => error_code(error@) is None,
        },
{
    let v = chars_of(error);
    let sl = v.as_slice();
    assert(sl@ == v@);
    let p = match rfind_char(sl, '(') {
        Some(p) => p,
        None => return None,
    };
    let n = v.len();
    let rest = slice_range(&v, p + 1, n);
    let ghost g = error@.subrange(p + 1, error@.len() as int);
    assert(rest@ == g);
    assert(last_index_of(error@, '(') == Some(p as int));
    if rest.len() == 0 {
        return None;
    }
    let last = rest[rest.len() - 1];
    assert(last == g.last());
    if last != ')' {
        return None;
    }
    let code_chars = slice_range(&rest, 0, rest.len() - 1);
    assert(code_chars@ =~= g.drop_last());
    let (a, b) = trim_bounds(code_chars.as_slice());
    let t = slice_range(&code_chars, a, b);
    let r = string_from_chars(t.as_slice());
    assert(r@ == trimmed(g.drop_last()));
    Some(r)
}

/// Whether a failed call may be retried: in the readable
/// message, before any details, the text between the last `(` and a closing `)`
/// at its very end, trimmed, names a transient code.
pub fn is_retryable_error(error: &str) -> (r: bool)
    ensures
        r == retryable(error@),
{
    let (message, _) = parse_error_details(error);
    match code_of(message.as_str()) {
        Some(code) => crate::text::str_eq(code.as_str(), "UNAVAILABLE") || crate::text::str_eq(
            code.as_str(),
            "DEADLINE_EXCEEDED",
        ),
        None => false,
    }
}

/// The name of a gRPC status code (`UNAVAILABLE`, ...); codes outside the
/// defined range are `UNKNOWN`.
pub open spec fn code_name(c: i32) -> Seq<char> {
    if c == 0 { "OK"@ } else if c == 1 { "CANCELLED"@ } else if c == 2 { "UNKNOWN"@ } else if c == 3 {
        "INVALID_ARGUMENT"@
    } else if c == 4 { "DEADLINE_EXCEEDED"@ } else if c == 5 { "NOT_FOUND"@ } else if c == 6 {
        "ALREADY_EXISTS"@
    } else if c == 7 { "PERMISSION_DENIED"@ } else if c == 8 { "RESOURCE_EXHAUSTED"@ } else if c == 9 {
        "FAILED_PRECONDITION"@
    } else if c == 10 { "ABORTED"@ } else if c == 11 { "OUT_OF_RANGE"@ } else if c == 12 { "UNIMPLEMENTED"@ } else if c
        == 13 { "INTERNAL"@ } else if c == 14 { "UNAVAILABLE"@ } else if c == 15 { "DATA_LOSS"@ } else if c == 16 {
        "UNAUTHENTICATED"@
    } else { "UNKNOWN"@ }
}

/// The name of a gRPC status code, as written in the error of a failed call.
pub fn grpc_code_name(c: i32) -> (r: String)
    ensures
        r@ == code_name(c),
{
    crate::text::owned(
        if c == 0 { "OK" } else if c == 1 { "CANCELLED" } else if c == 2 { "UNKNOWN" } else if c == 3 {
            "INVALID_ARGUMENT"
        } else if c == 4 { "DEADLINE_EXCEEDED" } else if c == 5 { "NOT_FOUND" } else if c == 6 {
            "ALREADY_EXISTS"
        } else if c == 7 { "PERMISSION_DENIED" } else if c == 8 { "RESOURCE_EXHAUSTED" } else if c == 9 {
            "FAILED_PRECONDITION"
        } else if c == 10 { "ABORTED" } else if c == 11 { "OUT_OF_RANGE" } else if c == 12 { "UNIMPLEMENTED" } else if c
            == 13 { "INTERNAL" } else if c == 14 { "UNAVAILABLE" } else if c == 15 { "DATA_LOSS" } else if c == 16 {
            "UNAUTHENTICATED"
        } else { "UNKNOWN" },
    )
}

/// The code read from `z (code)` is the code, whatever `z` holds.
proof fn lemma_code_after_last_paren(z: Seq<char>, code: Seq<char>)
    requires
        forall|i: int| 0 <= i < code.len() ==> code[i] != '(',
    ensures
        error_code(z + "("@ + code + ")"@) == Some(trimmed(code)),
{
    reveal_strlit("(");
    reveal_strlit(")");
    let y = z + "("@ + code + ")"@;
    let p = z.len() as int;
    assert(y[p] == '(');
    assert forall|j: int| p < j < y.len() implies y[j] != '(' by {
        if j < p + 1 + code.len() {
            assert(y[j] == code[j - p - 1]);
        } else {
            assert(y[j] == ')');
        }
    }
    let q = choose|i: int| 0 <= i < y.len() && y[i] == '(' && forall|j: int| i < j < y.len() ==> y[j] != '(';
    assert(0 <= q < y.len() && y[q] == '(' && forall|j: int| q < j < y.len() ==> y[j] != '(');
    if q < p {
        assert(y[p] != '(');
    }
    assert(q == p);
    assert(last_index_of(y, '(') == Some(p));
    let rest = y.subrange(p + 1, y.len() as int);
    assert(rest =~= code + ")"@);
    assert(rest.drop_last() =~= code);
}

/// A text without white space is its own trim.
proof fn lemma_trimmed_no_white_space(s: Seq<char>)
    requires
        forall|i: int| 0 <= i < s.len() ==> !crate::text::is_white_space(#[trigger] s[i]),
    ensures
        trimmed(s) == s,
{
    assert(crate::text::lead_ws(s) == 0);
    assert(s.skip(0) =~= s);
    assert(crate::text::trail_ws(s) == 0);
    assert(s.take(s.len() as int) =~= s);
}

/// Trimming `z (code)` keeps the closing `(code)`.
proof fn lemma_trimmed_code(z: Seq<char>, code: Seq<char>)
    requires
        forall|i: int| 0 <= i < code.len() ==> code[i] != '(',
    ensures
        error_code(trimmed(z + "("@ + code + ")"@)) == Some(trimmed(code)),
{
    reveal_strlit("(");
    reveal_strlit(")");
    let y = z + "("@ + code + ")"@;
    let p = z.len() as int;
    assert(y[p] == '(');
    crate::text::lemma_lead_ws_bound(y);
    let a = crate::text::lead_ws(y) as int;
    if a > p {
        assert(crate::text::is_white_space(y[p]));
    }
    let t = y.skip(a);
    assert(t.last() == ')');
    assert(crate::text::trail_ws(t) == 0);
    assert(t.take(t.len() as int) =~= t);
    assert(t =~= z.skip(a) + "("@ + code + ")"@);
    lemma_code_after_last_paren(z.skip(a), code);
}

/// The formatted error of a failed call is retried exactly when its code is
/// `UNAVAILABLE` or `DEADLINE_EXCEEDED`, details or not, when the code holds no
/// `(` and no white space and the details marker does not occur before the details.
pub proof fn law_formatted_error_retryable(
    prefix: Seq<char>,
    message: Seq<char>,
    code: Seq<char>,
    details: Option<Seq<char>>,
)
    requires
        forall|i: int| 0 <= i < code.len() ==> code[i] != '(' && !crate::text::is_white_space(#[trigger] code[i]),
        ({
            let base = prefix + ": "@ + message + " ("@ + code + ")"@;
            let t = grpc_error_text(prefix, message, code, details);
            forall|i: int| 0 <= i < base.len() ==> !crate::text::occurs_at(t, ERROR_DETAILS_MARKER@, i)
        }),
    ensures
        retryable(grpc_error_text(prefix, message, code, details)) <==> (code == "UNAVAILABLE"@ || code
            == "DEADLINE_EXCEEDED"@),
{
    reveal_strlit(" (");
    reveal_strlit("(");
    reveal_strlit(" ");
    let base = prefix + ": "@ + message + " ("@ + code + ")"@;
    let z = prefix + ": "@ + message + " "@;
    assert(base =~= z + "("@ + code + ")"@);
    lemma_trimmed_no_white_space(code);
    let t = grpc_error_text(prefix, message, code, details);
    match details {
        Some(d) => {
            crate::laws::law_error_details_round_trip(prefix, message, code, d);
            assert(split_error(t).0 == trimmed(base));
            lemma_trimmed_code(z, code);
        },
        None => {
            assert(t == base);
            reveal_strlit("\n---GRPC_ERROR_DETAILS---\n");
            assert(ERROR_DETAILS_MARKER@.len() > 0);
            assert forall|i: int| !crate::text::occurs_at(base, ERROR_DETAILS_MARKER@, i) by {
                if 0 <= i < base.len() {
                }
            }
            crate::laws::law_error_details_round_trip(prefix, message, code, Seq::empty());
            assert(split_error(t).0 == base);
            lemma_code_after_last_paren(z, code);
        },
    }
}

/// `a * b`, or `u64::MAX` when the product does not fit.
pub open spec fn sat_mul(a: u64, b: u64) -> u64 {
    if a * b > u64::MAX {
        u64::MAX
    } else {
        (a * b) as u64
    }
}

/// `2^e`, or `u64::MAX` when the power does not fit.
pub open spec fn sat_pow2(e: nat) -> u64 {
    if vstd::arithmetic::power2::pow2(e) > u64::MAX {
        u64::MAX
    } else {
        vstd::arithmetic::power2::pow2(e) as u64
    }
}

/// Backoff before jitter: `initial * 2^attempt`, saturating, capped at 30 s.
pub open spec fn backoff_base(initial: u64, attempt: u32) -> u64 {
    let b = sat_mul(initial, sat_pow2(attempt as nat));
    if b < MAX_BACKOFF_CAP_MS {
        b
    } else {
        MAX_BACKOFF_CAP_MS
    }
}

fn saturating_pow2(e: u32) -> (r: u64)
    ensures
        r == sat_pow2(e as nat),
{
    let mut p: u64 = 1;
    let mut i: u32 = 0;
    proof {
        vstd::arithmetic::power2::lemma2_to64();
    }
    while i < e
        invariant
            i <= e,
            p as nat == vstd::arithmetic::power2::pow2(i as nat),
        decreases e - i,
    {
        if p > u64::MAX / 2 {
            proof {
                vstd::arithmetic::power2::lemma_pow2_unfold((i + 1) as nat);
                if i + 1 < e {
                    vstd::arithmetic::power2::lemma_pow2_strictly_increases((i + 1) as nat, e as nat);
                }
            }
            return u64::MAX;
        }
        proof {
            vstd::arithmetic::power2::lemma_pow2_unfold((i + 1) as nat);
        }
        p = p * 2;
        i = i + 1;
    }
    p
}

fn saturating_mul(a: u64, b: u64) -> (r: u64)
    ensures
        r == sat_mul(a, b),
{
    match a.checked_mul(b) {
        Some(v) => v,
        None => u64::MAX,
    }
}

/// A random number in `0..=max` (`rand::Rng::gen_range` on the thread generator).
#[verifier::external_body]
fn random_up_to(max: u64) -> (r: u64)
    ensures
        r <= max,
{
    rand::thread_rng().gen_range(0..=max)
}

/// The base backoff before retry number `attempt + 1`: `initial * 2^attempt`
/// (saturating) capped at 30 s.
fn capped_backoff(initial_backoff_ms: u64, attempt: u32) -> (r: u64)
    ensures
        r == backoff_base(initial_backoff_ms, attempt),
{
    let base = saturating_mul(initial_backoff_ms, saturating_pow2(attempt));
    if base < MAX_BACKOFF_CAP_MS {
        base
    } else {
        MAX_BACKOFF_CAP_MS
    }
}

/// The backoff before retry number `attempt + 1` once the jitter is drawn: the
/// capped base plus `jitter`, which is at most half the base.
pub fn backoff_with_jitter(initial_backoff_ms: u64, attempt: u32, jitter: u64) -> (r: u64)
    requires
        jitter <= backoff_base(initial_backoff_ms, attempt) / 2,
    ensures
        r == backoff_base(initial_backoff_ms, attempt) + jitter,
{
    capped_backoff(initial_backoff_ms, attempt) + jitter
}

/// Backoff before retry number `attempt + 1`: the base `initial * 2^attempt`
/// capped at 30 s, plus a random jitter drawn from `0..=base/2` (none when the
/// base is 0). Which jitter is drawn is up to the random generator.
pub fn calculate_backoff_ms(initial_backoff_ms: u64, attempt: u32) -> (r: u64)
    ensures
        backoff_base(initial_backoff_ms, attempt) <= r,
        r <= backoff_base(initial_backoff_ms, attempt) + backoff_base(initial_backoff_ms, attempt) / 2,
{
    let capped = capped_backoff(initial_backoff_ms, attempt);
    let jitter = if capped > 0 {
        random_up_to(capped / 2)
    } else {
        0
    };
    backoff_with_jitter(initial_backoff_ms, attempt, jitter)
}

proof fn lemma_code_name_letters(c: i32)
    ensures
        forall|i: int|
            0 <= i < code_name(c).len() ==> ('A' <= #[trigger] code_name(c)[i] <= 'Z' || code_name(c)[i] == '_'),
        code_name(c) == "UNAVAILABLE"@ <==> c == 14,
        code_name(c) == "DEADLINE_EXCEEDED"@ <==> c == 4,
{
    reveal_strlit("OK");
    reveal_strlit("CANCELLED");
    reveal_strlit("UNKNOWN");
    reveal_strlit("INVALID_ARGUMENT");
    reveal_strlit("DEADLINE_EXCEEDED");
    reveal_strlit("NOT_FOUND");
    reveal_strlit("ALREADY_EXISTS");
    reveal_strlit("PERMISSION_DENIED");
    reveal_strlit("RESOURCE_EXHAUSTED");
    reveal_strlit("FAILED_PRECONDITION");
    reveal_strlit("ABORTED");
    reveal_strlit("OUT_OF_RANGE");
    reveal_strlit("UNIMPLEMENTED");
    reveal_strlit("INTERNAL");
    reveal_strlit("UNAVAILABLE");
    reveal_strlit("DATA_LOSS");
    reveal_strlit("UNAUTHENTICATED");
    assert(c != 14 ==> code_name(c).len() != "UNAVAILABLE"@.len());
    assert(c != 4 && c != 7 ==> code_name(c).len() != "DEADLINE_EXCEEDED"@.len());
    if c == 7 {
        assert(code_name(c)[0] != "DEADLINE_EXCEEDED"@[0]);
    }
}

/// The error of a failed call with status code `c` is retried exactly when `c`
/// is `UNAVAILABLE` (14) or `DEADLINE_EXCEEDED` (4), details or not, when the
/// details marker does not occur before the details.
pub proof fn law_status_error_retryable(prefix: Seq<char>, message: Seq<char>, c: i32, details: Option<Seq<char>>)
    requires
        ({
            let base = prefix + ": "@ + message + " ("@ + code_name(c) + ")"@;
            let t = grpc_error_text(prefix, message, code_name(c), details);
            forall|i: int| 0 <= i < base.len() ==> !crate::text::occurs_at(t, ERROR_DETAILS_MARKER@, i)
        }),
    ensures
        retryable(grpc_error_text(prefix, message, code_name(c), details)) <==> (c == 14 || c == 4),
{
    lemma_code_name_letters(c);
    let code = code_name(c);
    assert forall|i: int| 0 <= i < code.len() implies code[i] != '(' && !crate::text::is_white_space(#[trigger] code[i]) by {
        assert('A' <= code[i] <= 'Z' || code[i] == '_');
    }
    law_formatted_error_retryable(prefix, message, code, details);
}

/// What to do after a failed attempt of a retried call (unary and server
/// streaming): `Some(wait)` to retry after `wait` ms, `None` to give up.
pub fn retry_decision(attempt: u32, max_retries: u32, initial_backoff_ms: u64, error: &str) -> (r: Option<u64>)
    ensures
        r is Some <==> (attempt < max_retries && retryable(error@)),
        match r {
            Some(w) => backoff_base(initial_backoff_ms, attempt) <= w && w <= backoff_base(initial_backoff_ms, attempt)
                + backoff_base(initial_backoff_ms, attempt) / 2,
            None => true,
        },
{
    if attempt < max_retries && is_retryable_error(error) {
        Some(calculate_backoff_ms(initial_backoff_ms, attempt))
    } else {
        None
    }
}

// ---------------------------------------------------------------------------
// Planning a call
// ---------------------------------------------------------------------------

/// Position of the first service named `name`.
pub open spec fn service_position(s: Seq<GrpcServiceInfo>, name: Seq<char>) -> Option<int> {
    if exists|i: int| 0 <= i < s.len() && s[i].service_name@ == name {
        Some(choose|i: int| 0 <= i < s.len() && s[i].service_name@ == name && forall|j: int| 0 <= j < i ==> s[j].service_name@ != name)
    } else {
        None
    }
}

/// Position of the first method named `name`.
pub open spec fn method_position(m: Seq<crate::types::GrpcMethodInfo>, name: Seq<char>) -> Option<int> {
    if exists|i: int| 0 <= i < m.len() && m[i].method_name@ == name {
        Some(choose|i: int| 0 <= i < m.len() && m[i].method_name@ == name && forall|j: int| 0 <= j < i ==> m[j].method_name@ != name)
    } else {
        None
    }
}

/// The pattern of the named method among the services of the connection; unary
/// when the connection, the service or the method is unknown.
pub open spec fn detected_pattern(services: Option<Seq<GrpcServiceInfo>>, service: Seq<char>, method: Seq<char>) -> GrpcPattern {
    match services {
        None => GrpcPattern::Unary,
        Some(sv) => match service_position(sv, service) {
            None => GrpcPattern::Unary,
            Some(i) => match method_position(sv[i].methods@, method) {
                None => GrpcPattern::Unary,
                Some(j) => GrpcPattern::spec_from_method_info(
                    sv[i].methods@[j].is_client_streaming,
                    sv[i].methods@[j].is_server_streaming,
                ),
            },
        },
    }
}

/// Detects the communication pattern of a call from the connection's services.
pub fn detect_pattern(services: Option<&Vec<GrpcServiceInfo>>, service_name: &str, method_name: &str) -> (r: GrpcPattern)
    ensures
        r == detected_pattern(
            match services {
                Some(v) => Some(v@),
                None => None,
            },
            service_name@,
            method_name@,
        ),
{
    let sv = match services {
        Some(v) => v,
        None => return GrpcPattern::Unary,
    };
    let mut i: usize = 0;
    while i < sv.len()
        invariant
            i <= sv@.len(),
            services == Some(sv),
            forall|j: int| 0 <= j < i ==> sv@[j].service_name@ != service_name@,
        decreases sv.len() - i,
    {
        if crate::text::str_eq(sv[i].service_name.as_str(), service_name) {
            proof {
                let w = choose|w: int|
                    0 <= w < sv@.len() && sv@[w].service_name@ == service_name@ && forall|j: int|
                        0 <= j < w ==> sv@[j].service_name@ != service_name@;
                assert(0 <= i < sv@.len() && sv@[i as int].service_name@ == service_name@);
                if w < i {
                } else if w > i {
                }
                assert(service_position(sv@, service_name@) == Some(i as int));
            }
            let methods = &sv[i].methods;
            let mut j: usize = 0;
            while j < methods.len()
                invariant
                    j <= methods@.len(),
                    i < sv@.len(),
                    services == Some(sv),
                    methods@ == sv@[i as int].methods@,
                    service_position(sv@, service_name@) == Some(i as int),
                    forall|q: int| 0 <= q < j ==> methods@[q].method_name@ != method_name@,
                decreases methods.len() - j,
            {
                if crate::text::str_eq(methods[j].method_name.as_str(), method_name) {
                    proof {
                        let w = choose|w: int|
                            0 <= w < methods@.len() && methods@[w].method_name@ == method_name@ && forall|q: int|
                                0 <= q < w ==> methods@[q].method_name@ != method_name@;
                        assert(0 <= j < methods@.len() && methods@[j as int].method_name@ == method_name@);
                        if w < j {
                        } else if w > j {
                        }
                    }
                    return GrpcPattern::from_method_info(methods[j].is_client_streaming, methods[j].is_server_streaming);
                }
                j = j + 1;
            }
            return GrpcPattern::Unary;
        }
        i = i + 1;
    }
    GrpcPattern::Unary
}

/// Contents of the enabled messages, in order.
pub open spec fn enabled_contents(m: Seq<(Seq<char>, bool)>) -> Seq<Seq<char>>
    decreases m.len(),
{
    if m.len() == 0 {
        Seq::empty()
    } else {
        let prev = enabled_contents(m.drop_last());
        if m.last().1 {
            prev.push(m.last().0)
        } else {
            prev
        }
    }
}

/// The messages a streaming call sends: the enabled ones, in order.
pub fn enabled_messages(request_messages: &Vec<(String, bool)>) -> (r: Vec<String>)
    ensures
        crate::config::strings_v(r@) == enabled_contents(messages_v(request_messages@)),
{
    let ghost all = messages_v(request_messages@);
    let mut r: Vec<String> = Vec::new();
    let mut i: usize = 0;
    while i < request_messages.len()
        invariant
            i <= request_messages@.len(),
            all == messages_v(request_messages@),
            crate::config::strings_v(r@) == enabled_contents(all.take(i as int)),
        decreases request_messages.len() - i,
    {
        proof {
            assert(all.take(i + 1).drop_last() =~= all.take(i as int));
            assert(all.take(i + 1).last() == (request_messages@[i as int].0@, request_messages@[i as int].1));
        }
        let ghost before = r@;
        if request_messages[i].1 {
            r.push(request_messages[i].0.clone());
            proof {
                assert(crate::config::strings_v(r@) =~= crate::config::strings_v(before).push(request_messages@[i as int].0@));
            }
        }
        i = i + 1;
    }
    proof {
        assert(all.take(request_messages@.len() as int) =~= all);
    }
    r
}

/// Identifier of a call: the node instance id, the elapsed milliseconds and the
/// call's sequence number in the process.
pub open spec fn call_id_spec(node_uuid: Seq<char>, elapsed_ms: u64, seq: u64) -> Seq<char> {
    node_uuid + "-"@ + decimal_spec(elapsed_ms as nat) + "-"@ + decimal_spec(seq as nat)
}

/// Builds the identifier of a call.
pub fn make_call_id(node_uuid: &str, elapsed_ms: u64, seq: u64) -> (r: String)
    ensures
        r@ == call_id_spec(node_uuid@, elapsed_ms, seq),
{
    let d = decimal(elapsed_ms);
    let mut r = crate::text::concat3(node_uuid, "-", d.as_str());
    let n = decimal(seq);
    r.append("-");
    r.append(n.as_str());
    r
}

/// Calls of one node with distinct sequence numbers have distinct identifiers,
/// whenever they start.
pub proof fn law_call_ids_differ(node_uuid: Seq<char>, e1: u64, s1: u64, e2: u64, s2: u64)
    requires
        s1 != s2,
    ensures
        call_id_spec(node_uuid, e1, s1) != call_id_spec(node_uuid, e2, s2),
{
    reveal_strlit("-");
    let d1 = decimal_spec(e1 as nat);
    let d2 = decimal_spec(e2 as nat);
    let n1 = decimal_spec(s1 as nat);
    let n2 = decimal_spec(s2 as nat);
    crate::text::lemma_decimal_digits(e1 as nat);
    crate::text::lemma_decimal_digits(e2 as nat);
    let h = node_uuid + "-"@;
    let r1 = d1 + "-"@ + n1;
    let r2 = d2 + "-"@ + n2;
    let i1 = call_id_spec(node_uuid, e1, s1);
    let i2 = call_id_spec(node_uuid, e2, s2);
    assert(i1 =~= h + r1);
    assert(i2 =~= h + r2);
    if i1 == i2 {
        assert(r1 =~= i1.subrange(h.len() as int, i1.len() as int));
        assert(r2 =~= i2.subrange(h.len() as int, i2.len() as int));
        assert(r1 == r2);
        assert(r1[d1.len() as int] == '-');
        assert(r2[d2.len() as int] == '-');
        if d1.len() < d2.len() {
            assert(r2[d1.len() as int] == d2[d1.len() as int]);
        } else if d2.len() < d1.len() {
            assert(r1[d2.len() as int] == d1[d2.len() as int]);
        }
        assert(n1 =~= r1.subrange(d1.len() as int + 1, r1.len() as int));
        assert(n2 =~= r2.subrange(d2.len() as int + 1, r2.len() as int));
        crate::text::lemma_decimal_injective(s1 as nat, s2 as nat);
    }
}

/// The sequence numbers of the calls of the process.
pub struct CallIds {
    next: u64,
}

impl CallIds {
    /// The number the next call gets.
    pub closed spec fn next_seq(&self) -> u64 {
        self.next
    }

    pub fn new() -> (r: Self)
        ensures
            r.next_seq() == 0,
    {
        CallIds { next: 0 }
    }

    /// Whether another identifier can be issued.
    pub fn can_issue(&self) -> (r: bool)
        ensures
            r == (self.next_seq() < u64::MAX),
    {
        self.next < u64::MAX
    }

    /// The identifier of the next call of node `node_uuid`; every identifier
    /// issued takes a new sequence number, so no two are alike.
    pub fn issue(&mut self, node_uuid: &str, elapsed_ms: u64) -> (r: String)
        requires
            old(self).next_seq() < u64::MAX,
        ensures
            r@ == call_id_spec(node_uuid@, elapsed_ms, old(self).next_seq()),
            final(self).next_seq() == old(self).next_seq() + 1,
    {
        let seq = self.next;
        self.next = self.next + 1;
        make_call_id(node_uuid, elapsed_ms, seq)
    }
}

/// Everything a call decides before it starts.
pub struct CallPlan {
    pub pattern: GrpcPattern,
    pub max_retries: u32,
    pub initial_backoff_ms: u64,
    /// Messages sent by a client or bidirectional streaming call.
    pub messages: Vec<String>,
}

/// Plans a call: its pattern, its retry settings (the call's own, else the
/// connection's defaults) and the messages it streams.
pub fn plan_call(config: &CallConfig, services: Option<&Vec<GrpcServiceInfo>>, defaults: (u32, u64)) -> (r: CallPlan)
    ensures
        r.pattern == detected_pattern(
            match services {
                Some(v) => Some(v@),
                None => None,
            },
            config.service_name@,
            config.method_name@,
        ),
        r.max_retries == match config.max_retries {
            Some(m) => m,
            None => defaults.0,
        },
        r.initial_backoff_ms == match config.initial_backoff_ms {
            Some(b) => b,
            None => defaults.1,
        },
        crate::config::strings_v(r.messages@) == enabled_contents(messages_v(config.request_messages@)),
{
    CallPlan {
        pattern: detect_pattern(services, config.service_name.as_str(), config.method_name.as_str()),
        max_retries: match config.max_retries {
            Some(m) => m,
            None => defaults.0,
        },
        initial_backoff_ms: match config.initial_backoff_ms {
            Some(b) => b,
            None => defaults.1,
        },
        messages: enabled_messages(&config.request_messages),
    }
}

// ---------------------------------------------------------------------------
// Outcome of a call
// ---------------------------------------------------------------------------

/// What a successful call produced, in the same shape for every pattern.
pub struct CallOutcome {
    pub pattern: GrpcPattern,
    /// The single response of a unary or client streaming call, else `null`.
    pub response_data: JsonValue,
    /// The responses of a server or bidirectional streaming call.
    pub responses: Vec<JsonValue>,
    pub sent_count: usize,
    pub received_count: usize,
    pub trailers: Vec<(String, String)>,
    pub streaming_timing: Option<GrpcTimingInfo>,
    pub response_metadata: Vec<(String, String)>,
    pub cancelled: bool,
}

/// Outcome of a unary call.
pub fn unary_outcome(response: JsonValue, metadata: Vec<(String, String)>) -> (r: CallOutcome)
    ensures
        r.pattern == GrpcPattern::Unary,
        r.response_data == response,
        r.responses@.len() == 0,
        r.sent_count == 0 && r.received_count == 0,
        r.trailers@.len() == 0,
        r.streaming_timing is None,
        r.response_metadata == metadata,
        !r.cancelled,
{
    CallOutcome {
        pattern: GrpcPattern::Unary,
        response_data: response,
        responses: Vec::new(),
        sent_count: 0,
        received_count: 0,
        trailers: Vec::new(),
        streaming_timing: None,
        response_metadata: metadata,
        cancelled: false,
    }
}

/// Outcome of a server streaming call: one request sent, every response received.
pub fn server_streaming_outcome(responses: Vec<JsonValue>, metadata: Vec<(String, String)>) -> (r: CallOutcome)
    ensures
        r.pattern == GrpcPattern::ServerStreaming,
        r.response_data == JsonValue::Null,
        r.responses == responses,
        r.sent_count == 1 && r.received_count == responses@.len(),
        r.trailers@.len() == 0,
        r.streaming_timing is None,
        r.response_metadata == metadata,
        !r.cancelled,
{
    let received = responses.len();
    CallOutcome {
        pattern: GrpcPattern::ServerStreaming,
        response_data: JsonValue::Null,
        responses,
        sent_count: 1,
        received_count: received,
        trailers: Vec::new(),
        streaming_timing: None,
        response_metadata: metadata,
        cancelled: false,
    }
}

/// Outcome of a client streaming call: `sent` messages, one response.
pub fn client_streaming_outcome(response: JsonValue, metadata: Vec<(String, String)>, sent: usize) -> (r: CallOutcome)
    ensures
        r.pattern == GrpcPattern::ClientStreaming,
        r.response_data == response,
        r.responses@.len() == 0,
        r.sent_count == sent && r.received_count == 1,
        r.trailers@.len() == 0,
        r.streaming_timing is None,
        r.response_metadata == metadata,
        !r.cancelled,
{
    CallOutcome {
        pattern: GrpcPattern::ClientStreaming,
        response_data: response,
        responses: Vec::new(),
        sent_count: sent,
        received_count: 1,
        trailers: Vec::new(),
        streaming_timing: None,
        response_metadata: metadata,
        cancelled: false,
    }
}

/// Outcome of a bidirectional streaming call: `sent` messages and the collected result.
pub fn bidi_outcome(result: GrpcStreamingResult, sent: usize) -> (r: CallOutcome)
    ensures
        r.pattern == GrpcPattern::BidiStreaming,
        r.response_data == JsonValue::Null,
        r.responses == result.responses,
        r.sent_count == sent && r.received_count == result.received_count,
        r.trailers == result.trailers,
        r.streaming_timing == Some(result.timing),
        r.response_metadata == result.response_metadata,
        r.cancelled == result.cancelled,
{
    CallOutcome {
        pattern: GrpcPattern::BidiStreaming,
        response_data: JsonValue::Null,
        responses: result.responses,
        sent_count: sent,
        received_count: result.received_count,
        trailers: result.trailers,
        streaming_timing: Some(result.timing),
        response_metadata: result.response_metadata,
        cancelled: result.cancelled,
    }
}

// ---------------------------------------------------------------------------
// Reports
// ---------------------------------------------------------------------------

pub open spec fn jn(n: u64) -> Json {
    Json::Number(JNum::PosInt(n))
}

pub open spec fn js(s: Seq<char>) -> Json {
    Json::Str(s)
}

/// Position of key `k` among the keys of `s`.
pub open spec fn key_position(s: Seq<(Seq<char>, Seq<char>)>, k: Seq<char>) -> Option<int> {
    if exists|i: int| 0 <= i < s.len() && s[i].0 == k {
        Some(choose|i: int| 0 <= i < s.len() && s[i].0 == k)
    } else {
        None
    }
}

/// Sets `k` to `v`: in place when the key is there, else at the end.
pub open spec fn upsert(s: Seq<(Seq<char>, Seq<char>)>, k: Seq<char>, v: Seq<char>) -> Seq<(Seq<char>, Seq<char>)> {
    match key_position(s, k) {
        Some(i) => s.update(i, (k, v)),
        None => s.push((k, v)),
    }
}

/// Key/value pairs collected into a map: a repeated key keeps its first
/// position and its last value.
pub open spec fn last_wins(s: Seq<(Seq<char>, Seq<char>)>) -> Seq<(Seq<char>, Seq<char>)>
    decreases s.len(),
{
    if s.len() == 0 {
        Seq::empty()
    } else {
        upsert(last_wins(s.drop_last()), s.last().0, s.last().1)
    }
}

pub open spec fn string_map_json(s: Seq<(Seq<char>, Seq<char>)>) -> Json {
    Json::Object(last_wins(s).map_values(|p: (Seq<char>, Seq<char>)| (p.0, js(p.1))))
}

pub open spec fn timing_json(t: GrpcTimingInfo) -> Json {
    Json::Object(
        seq![
            ("total_ms"@, jn(t.total_ms)),
            (
                "first_response_ms"@,
                match t.first_response_ms {
                    Some(v) => jn(v),
                    None => Json::Null,
                },
            ),
        ],
    )
}

/// The `request` section of a report.
pub open spec fn request_json(c: CallConfig) -> Json {
    Json::Object(
        seq![
            ("connection_id"@, js(c.connection_id@)),
            ("service_name"@, js(c.service_name@)),
            ("method_name"@, js(c.method_name@)),
            ("request_json"@, js(c.request_json@)),
            ("timeout_ms"@, jn(c.timeout_ms)),
            ("metadata_count"@, jn(c.metadata@.len() as u64)),
        ],
    )
}

pub open spec fn call_timing_json(call_ms: u64, total_ms: u64) -> Json {
    Json::Object(seq![("call_ms"@, jn(call_ms)), ("total_ms"@, jn(total_ms))])
}

pub open spec fn str_pairs_v(v: Seq<(String, String)>) -> Seq<(Seq<char>, Seq<char>)> {
    v.map_values(|p: (String, String)| (p.0@, p.1@))
}

/// The report of a successful call.
pub open spec fn success_report(c: CallConfig, o: CallOutcome, call_ms: u64, total_ms: u64) -> Json {
    let base = seq![
        ("success"@, Json::Bool(true)),
        ("pattern"@, js(o.pattern.spec_wire_name())),
        ("connection_id"@, js(c.connection_id@)),
        ("service_name"@, js(c.service_name@)),
        ("method_name"@, js(c.method_name@)),
        ("status"@, js(if o.cancelled { "cancelled"@ } else { "ok"@ })),
        ("status_message"@, js(if o.cancelled { "User cancelled"@ } else { ""@ })),
        ("request"@, request_json(c)),
        ("timing"@, call_timing_json(call_ms, total_ms)),
    ];
    let a = if o.sent_count > 0 || o.received_count > 0 {
        base.push(("sent_count"@, jn(o.sent_count as u64))).push(("received_count"@, jn(o.received_count as u64)))
    } else {
        base
    };
    let b = if o.responses@.len() > 0 {
        a.push(("responses"@, Json::Array(values_model(o.responses@))))
    } else {
        a
    };
    let d = if o.trailers@.len() > 0 {
        b.push(("trailers"@, string_map_json(str_pairs_v(o.trailers@))))
    } else {
        b
    };
    let e = if o.response_metadata@.len() > 0 {
        d.push(("response_metadata"@, string_map_json(str_pairs_v(o.response_metadata@))))
    } else {
        d
    };
    let f = match o.streaming_timing {
        Some(t) => e.push(("streaming_timing"@, timing_json(t))),
        None => e,
    };
    let g = if o.cancelled {
        f.push(("cancelled"@, Json::Bool(true)))
    } else {
        f
    };
    let h = if o.response_data.model() is Null {
        g
    } else {
        g.push(("data"@, o.response_data.model()))
    };
    Json::Object(h)
}

pub open spec fn detail_json(d: GrpcErrorDetail) -> Json {
    Json::Object(
        seq![
            ("type_url"@, js(d.type_url@)),
            (
                "decoded"@,
                match d.decoded {
                    Some(v) => v.model(),
                    None => Json::Null,
                },
            ),
            (
                "raw_hex"@,
                match d.raw_hex {
                    Some(h) => js(h@),
                    None => Json::Null,
                },
            ),
        ],
    )
}

/// The report of a failed call.
pub open spec fn error_report(
    c: CallConfig,
    pattern: GrpcPattern,
    message: Seq<char>,
    details: Seq<GrpcErrorDetail>,
    call_ms: u64,
    total_ms: u64,
) -> Json {
    let base = seq![
        ("success"@, Json::Bool(false)),
        ("pattern"@, js(pattern.spec_debug_lower())),
        ("connection_id"@, js(c.connection_id@)),
        ("service_name"@, js(c.service_name@)),
        ("method_name"@, js(c.method_name@)),
        ("request"@, request_json(c)),
        ("timing"@, call_timing_json(call_ms, total_ms)),
        ("data"@, Json::Null),
        ("status"@, js("error"@)),
        ("status_message"@, js(message)),
        ("error"@, js(message)),
    ];
    if details.len() > 0 {
        Json::Object(base.push(("error_details"@, Json::Array(details.map_values(|d: GrpcErrorDetail| detail_json(d))))))
    } else {
        Json::Object(base)
    }
}

fn find_key(s: &Vec<(String, String)>, k: &str) -> (r: Option<usize>)
    ensures
        match r {
            Some(i) => i < s@.len() && s@[i as int].0@ == k@,
            None => forall|i: int| 0 <= i < s@.len() ==> s@[i].0@ != k@,
        },
{
    let mut i: usize = 0;
    while i < s.len()
        invariant
            i <= s@.len(),
            forall|j: int| 0 <= j < i ==> s@[j].0@ != k@,
        decreases s.len() - i,
    {
        if crate::text::str_eq(s[i].0.as_str(), k) {
            return Some(i);
        }
        i = i + 1;
    }
    None
}

pub open spec fn distinct_keys(s: Seq<(Seq<char>, Seq<char>)>) -> bool {
    forall|i: int, j: int| 0 <= i < s.len() && 0 <= j < s.len() && i != j ==> s[i].0 != s[j].0
}

/// Collects key/value pairs as a map would hold them.
pub fn collect_last_wins(pairs: &Vec<(String, String)>) -> (r: Vec<(String, String)>)
    ensures
        str_pairs_v(r@) == last_wins(str_pairs_v(pairs@)),
        distinct_keys(str_pairs_v(r@)),
{
    let ghost all = str_pairs_v(pairs@);
    let mut r: Vec<(String, String)> = Vec::new();
    let mut i: usize = 0;
    proof {
        assert(all.take(0) =~= Seq::<(Seq<char>, Seq<char>)>::empty());
        assert(str_pairs_v(r@) =~= Seq::<(Seq<char>, Seq<char>)>::empty());
    }
    while i < pairs.len()
        invariant
            i <= pairs@.len(),
            all == str_pairs_v(pairs@),
            str_pairs_v(r@) == last_wins(all.take(i as int)),
            distinct_keys(str_pairs_v(r@)),
        decreases pairs.len() - i,
    {
        proof {
            assert(all.take(i + 1).drop_last() =~= all.take(i as int));
            assert(all.take(i + 1).last() == all[i as int]);
        }
        let ghost cur = str_pairs_v(r@);
        let k = &pairs[i].0;
        let v = &pairs[i].1;
        match find_key(&r, k.as_str()) {
            Some(j) => {
                r.set(j, (k.clone(), v.clone()));
                proof {
                    assert(cur[j as int].0 == k@);
                    let w = choose|w: int| 0 <= w < cur.len() && cur[w].0 == k@;
                    if w != j {
                        assert(cur[w].0 != cur[j as int].0);
                    }
                    assert(key_position(cur, k@) == Some(j as int));
                    assert(str_pairs_v(r@) =~= cur.update(j as int, (k@, v@)));
                }
            },
            None => {
                r.push((k.clone(), v.clone()));
                proof {
                    assert(forall|q: int| 0 <= q < cur.len() ==> cur[q].0 != k@);
                    assert(key_position(cur, k@) is None);
                    assert(str_pairs_v(r@) =~= cur.push((k@, v@)));
                }
            },
        }
        i = i + 1;
    }
    proof {
        assert(all.take(pairs@.len() as int) =~= all);
    }
    r
}

fn string_map(pairs: &Vec<(String, String)>) -> (r: JsonValue)
    ensures
        r.model() == string_map_json(str_pairs_v(pairs@)),
{
    let m = collect_last_wins(pairs);
    let mut out: Vec<(String, JsonValue)> = Vec::new();
    let mut i: usize = 0;
    while i < m.len()
        invariant
            i <= m@.len(),
            pairs_model(out@) == str_pairs_v(m@).take(i as int).map_values(|p: (Seq<char>, Seq<char>)| (p.0, js(p.1))),
        decreases m.len() - i,
    {
        let ghost before = out@;
        member(&mut out, m[i].0.as_str(), text(m[i].1.as_str()));
        proof {
            assert(str_pairs_v(m@).take(i + 1) =~= str_pairs_v(m@).take(i as int).push(str_pairs_v(m@)[i as int]));
            assert(pairs_model(out@) =~= str_pairs_v(m@).take(i + 1).map_values(|p: (Seq<char>, Seq<char>)| (p.0, js(p.1))));
        }
        i = i + 1;
    }
    proof {
        assert(str_pairs_v(m@).take(m@.len() as int) =~= str_pairs_v(m@));
    }
    object(out)
}

fn timing_value(t: &GrpcTimingInfo) -> (r: JsonValue)
    ensures
        r.model() == timing_json(*t),
{
    let mut p: Vec<(String, JsonValue)> = Vec::new();
    member(&mut p, "total_ms", num(t.total_ms));
    let first = match t.first_response_ms {
        Some(v) => num(v),
        None => JsonValue::Null,
    };
    member(&mut p, "first_response_ms", first);
    proof {
        assert(pairs_model(p@) =~= seq![
            ("total_ms"@, jn(t.total_ms)),
            ("first_response_ms"@, match t.first_response_ms { Some(v) => jn(v), None => Json::Null }),
        ]);
    }
    object(p)
}

fn request_value(c: &CallConfig) -> (r: JsonValue)
    ensures
        r.model() == request_json(*c),
{
    let mut p: Vec<(String, JsonValue)> = Vec::new();
    member(&mut p, "connection_id", text(c.connection_id.as_str()));
    member(&mut p, "service_name", text(c.service_name.as_str()));
    member(&mut p, "method_name", text(c.method_name.as_str()));
    member(&mut p, "request_json", text(c.request_json.as_str()));
    member(&mut p, "timeout_ms", num(c.timeout_ms));
    member(&mut p, "metadata_count", num(c.metadata.len() as u64));
    proof {
        assert(pairs_model(p@) =~= seq![
            ("connection_id"@, js(c.connection_id@)),
            ("service_name"@, js(c.service_name@)),
            ("method_name"@, js(c.method_name@)),
            ("request_json"@, js(c.request_json@)),
            ("timeout_ms"@, jn(c.timeout_ms)),
            ("metadata_count"@, jn(c.metadata@.len() as u64)),
        ]);
    }
    object(p)
}

fn call_timing_value(call_ms: u64, total_ms: u64) -> (r: JsonValue)
    ensures
        r.model() == call_timing_json(call_ms, total_ms),
{
    let mut p: Vec<(String, JsonValue)> = Vec::new();
    member(&mut p, "call_ms", num(call_ms));
    member(&mut p, "total_ms", num(total_ms));
    proof {
        assert(pairs_model(p@) =~= seq![("call_ms"@, jn(call_ms)), ("total_ms"@, jn(total_ms))]);
    }
    object(p)
}

/// The report of a successful call.
pub fn build_success_output(config: &CallConfig, outcome: CallOutcome, call_ms: u64, total_ms: u64) -> (r: JsonValue)
    ensures
        r.model() == success_report(*config, outcome, call_ms, total_ms),
{
    let ghost o = outcome;
    let mut p: Vec<(String, JsonValue)> = Vec::new();
    member(&mut p, "success", JsonValue::Bool(true));
    member(&mut p, "pattern", JsonValue::Str(outcome.pattern.wire_name()));
    member(&mut p, "connection_id", text(config.connection_id.as_str()));
    member(&mut p, "service_name", text(config.service_name.as_str()));
    member(&mut p, "method_name", text(config.method_name.as_str()));
    member(&mut p, "status", text(if outcome.cancelled { "cancelled" } else { "ok" }));
    member(&mut p, "status_message", text(if outcome.cancelled { "User cancelled" } else { "" }));
    member(&mut p, "request", request_value(config));
    member(&mut p, "timing", call_timing_value(call_ms, total_ms));
    let ghost base = pairs_model(p@);
    proof {
        assert(base =~= seq![
            ("success"@, Json::Bool(true)),
            ("pattern"@, js(o.pattern.spec_wire_name())),
            ("connection_id"@, js(config.connection_id@)),
            ("service_name"@, js(config.service_name@)),
            ("method_name"@, js(config.method_name@)),
            ("status"@, js(if o.cancelled { "cancelled"@ } else { "ok"@ })),
            ("status_message"@, js(if o.cancelled { "User cancelled"@ } else { ""@ })),
            ("request"@, request_json(*config)),
            ("timing"@, call_timing_json(call_ms, total_ms)),
        ]);
    }
    if outcome.sent_count > 0 || outcome.received_count > 0 {
        member(&mut p, "sent_count", num(outcome.sent_count as u64));
        member(&mut p, "received_count", num(outcome.received_count as u64));
    }
    if outcome.responses.len() > 0 {
        let responses = outcome.responses;
        member(&mut p, "responses", array(responses));
    }
    if outcome.trailers.len() > 0 {
        member(&mut p, "trailers", string_map(&outcome.trailers));
    }
    if outcome.response_metadata.len() > 0 {
        member(&mut p, "response_metadata", string_map(&outcome.response_metadata));
    }
    match &outcome.streaming_timing {
        Some(t) => member(&mut p, "streaming_timing", timing_value(t)),
        None => {},
    }
    if outcome.cancelled {
        member(&mut p, "cancelled", JsonValue::Bool(true));
    }
    match outcome.response_data {
        JsonValue::Null => {},
        data => member(&mut p, "data", data),
    }
    object(p)
}

fn detail_value(d: GrpcErrorDetail) -> (r: JsonValue)
    ensures
        r.model() == detail_json(d),
{
    let ghost g = d;
    let mut p: Vec<(String, JsonValue)> = Vec::new();
    member(&mut p, "type_url", JsonValue::Str(d.type_url));
    let decoded = match d.decoded {
        Some(v) => v,
        None => JsonValue::Null,
    };
    member(&mut p, "decoded", decoded);
    member(&mut p, "raw_hex", opt_text(d.raw_hex));
    proof {
        assert(pairs_model(p@) =~= seq![
            ("type_url"@, js(g.type_url@)),
            ("decoded"@, match g.decoded { Some(v) => v.model(), None => Json::Null }),
            ("raw_hex"@, match g.raw_hex { Some(h) => js(h@), None => Json::Null }),
        ]);
    }
    object(p)
}

/// The report of a failed call; `message` and `details`
/// are the two parts of the call's error (see `parse_error_details`).
pub fn build_error_output(
    config: &CallConfig,
    pattern: GrpcPattern,
    message: &str,
    details: Vec<GrpcErrorDetail>,
    call_ms: u64,
    total_ms: u64,
) -> (r: JsonValue)
    ensures
        r.model() == error_report(*config, pattern, message@, details@, call_ms, total_ms),
{
    let ghost ds = details@;
    let mut p: Vec<(String, JsonValue)> = Vec::new();
    member(&mut p, "success", JsonValue::Bool(false));
    member(&mut p, "pattern", JsonValue::Str(pattern.debug_lower()));
    member(&mut p, "connection_id", text(config.connection_id.as_str()));
    member(&mut p, "service_name", text(config.service_name.as_str()));
    member(&mut p, "method_name", text(config.method_name.as_str()));
    member(&mut p, "request", request_value(config));
    member(&mut p, "timing", call_timing_value(call_ms, total_ms));
    member(&mut p, "data", JsonValue::Null);
    member(&mut p, "status", text("error"));
    member(&mut p, "status_message", text(message));
    member(&mut p, "error", text(message));
    proof {
        assert(pairs_model(p@) =~= seq![
            ("success"@, Json::Bool(false)),
            ("pattern"@, js(pattern.spec_debug_lower())),
            ("connection_id"@, js(config.connection_id@)),
            ("service_name"@, js(config.service_name@)),
            ("method_name"@, js(config.method_name@)),
            ("request"@, request_json(*config)),
            ("timing"@, call_timing_json(call_ms, total_ms)),
            ("data"@, Json::Null),
            ("status"@, js("error"@)),
            ("status_message"@, js(message@)),
            ("error"@, js(message@)),
        ]);
    }
    if details.len() > 0 {
        let mut items: Vec<JsonValue> = Vec::new();
        let mut details = details;
        let mut rest: Vec<GrpcErrorDetail> = Vec::new();
        let n = details.len();
        let mut i: usize = 0;
        while i < n
            invariant
                i <= n,
                n == ds.len(),
                details@ == ds.subrange(i as int, n as int),
                values_model(items@) == ds.take(i as int).map_values(|d: GrpcErrorDetail| detail_json(d)),
            decreases n - i,
        {
            let d = details.remove(0);
            let ghost before = items@;
            proof {
                assert(d == ds[i as int]);
            }
            let dv = detail_value(d);
            items.push(dv);
            proof {
                assert(values_model(items@) =~= values_model(before).push(dv.model()));
                assert(ds.take(i + 1) =~= ds.take(i as int).push(ds[i as int]));
                assert(details@ =~= ds.subrange(i + 1, n as int));
                assert(values_model(items@) =~= ds.take(i + 1).map_values(|d: GrpcErrorDetail| detail_json(d)));
            }
            i = i + 1;
        }
        proof {
            assert(ds.take(n as int) =~= ds);
        }
        member(&mut p, "error_details", array(items));
    }
    object(p)
}

// ---------------------------------------------------------------------------
// Node results
// ---------------------------------------------------------------------------

/// Result of a node execution handed back to the host.
pub struct ExecOutcome {
    pub success: bool,
    pub output: JsonValue,
    /// Ports the flow continues on.
    pub next_ports: Vec<String>,
    pub errors: Vec<String>,
    /// Data added to the execution report.
    pub report_data: Option<JsonValue>,
}

/// A success that continues on the `true` port.
pub fn ok_result(output: JsonValue) -> (r: ExecOutcome)
    ensures
        r.success,
        r.output == output,
        r.next_ports@.len() == 1 && r.next_ports@[0]@ == "true"@,
        r.errors@.len() == 0,
        r.report_data is None,
{
    let mut ports: Vec<String> = Vec::new();
    ports.push(crate::text::owned("true"));
    ExecOutcome { success: true, output, next_ports: ports, errors: Vec::new(), report_data: None }
}

/// A failure with one error message and the error report.
pub fn fail_result(message: String, error_output: JsonValue) -> (r: ExecOutcome)
    ensures
        !r.success,
        r.output == JsonValue::Null,
        r.next_ports@.len() == 0,
        r.errors@.len() == 1 && r.errors@[0] == message,
        r.report_data == Some(error_output),
{
    let mut errors: Vec<String> = Vec::new();
    errors.push(message);
    ExecOutcome { success: false, output: JsonValue::Null, next_ports: Vec::new(), errors, report_data: Some(error_output) }
}

/// The failure of a call whose configuration cannot be read or which runs outside
/// an execution: `{success: false, pattern: "unary", error}`.
pub fn early_failure(message: String, error: &str) -> (r: ExecOutcome)
    ensures
        !r.success,
        r.errors@.len() == 1 && r.errors@[0] == message,
        r.report_data matches Some(d) && d.model() == Json::Object(
            seq![("success"@, Json::Bool(false)), ("pattern"@, js("unary"@)), ("error"@, js(error@))],
        ),
{
    let mut p: Vec<(String, JsonValue)> = Vec::new();
    member(&mut p, "success", JsonValue::Bool(false));
    member(&mut p, "pattern", text("unary"));
    member(&mut p, "error", text(error));
    proof {
        assert(pairs_model(p@) =~= seq![("success"@, Json::Bool(false)), ("pattern"@, js("unary"@)), ("error"@, js(error@))]);
    }
    fail_result(message, object(p))
}

} // verus!
