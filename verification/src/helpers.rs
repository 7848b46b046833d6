//! Request helpers: metadata merging, method paths and compression choice.
use vstd::prelude::*;

use crate::call::str_pairs_v;
use crate::text::{concat, concat3, str_eq};

verus! {

/// Whether `k` is a key of `s`.
pub open spec fn has_meta_key(s: Seq<(Seq<char>, Seq<char>)>, k: Seq<char>) -> bool {
    exists|i: int| 0 <= i < s.len() && s[i].0 == k
}

/// Default entries whose key the call does not set, in order.
pub open spec fn kept_defaults(d: Seq<(Seq<char>, Seq<char>)>, call: Seq<(Seq<char>, Seq<char>)>) -> Seq<(Seq<char>, Seq<char>)>
    decreases d.len(),
{
    if d.len() == 0 {
        Seq::empty()
    } else if has_meta_key(call, d.last().0) {
        kept_defaults(d.drop_last(), call)
    } else {
        kept_defaults(d.drop_last(), call).push(d.last())
    }
}

/// The metadata of a call: the connection's defaults whose
/// key the call does not set, followed by all of the call's own entries.
pub fn merge_metadata(default_metadata: &Vec<(String, String)>, call_metadata: Vec<(String, String)>) -> (r: Vec<(String, String)>)
    ensures
        str_pairs_v(r@) == kept_defaults(str_pairs_v(default_metadata@), str_pairs_v(call_metadata@)) + str_pairs_v(
            call_metadata@,
        ),
{
    let ghost d = str_pairs_v(default_metadata@);
    let ghost c = str_pairs_v(call_metadata@);
    let mut r: Vec<(String, String)> = Vec::new();
    let mut i: usize = 0;
    proof {
        assert(d.take(0) =~= Seq::<(Seq<char>, Seq<char>)>::empty());
        assert(str_pairs_v(r@) =~= Seq::empty());
    }
    while i < default_metadata.len()
        invariant
            i <= default_metadata@.len(),
            d == str_pairs_v(default_metadata@),
            c == str_pairs_v(call_metadata@),
            str_pairs_v(r@) == kept_defaults(d.take(i as int), c),
        decreases default_metadata.len() - i,
    {
        proof {
            assert(d.take(i + 1).drop_last() =~= d.take(i as int));
            assert(d.take(i + 1).last() == d[i as int]);
        }
        let k = &default_metadata[i].0;
        let mut found = false;
        let mut j: usize = 0;
        while j < call_metadata.len()
            invariant
                j <= call_metadata@.len(),
                c == str_pairs_v(call_metadata@),
                found == exists|q: int| 0 <= q < j && c[q].0 == k@,
            decreases call_metadata.len() - j,
        {
            let eq = str_eq(call_metadata[j].0.as_str(), k.as_str());
            proof {
                assert(c[j as int].0 == call_metadata@[j as int].0@);
            }
            if eq {
                found = true;
            }
            j = j + 1;
        }
        proof {
            assert(found == has_meta_key(c, d[i as int].0));
        }
        let ghost before = r@;
        if !found {
            r.push((k.clone(), default_metadata[i].1.clone()));
            proof {
                assert(str_pairs_v(r@) =~= str_pairs_v(before).push(d[i as int]));
            }
        }
        i = i + 1;
    }
    proof {
        assert(d.take(default_metadata@.len() as int) =~= d);
    }
    let ghost kept = str_pairs_v(r@);
    let mut j: usize = 0;
    while j < call_metadata.len()
        invariant
            j <= call_metadata@.len(),
            c == str_pairs_v(call_metadata@),
            str_pairs_v(r@) == kept + c.take(j as int),
        decreases call_metadata.len() - j,
    {
        let ghost before = r@;
        r.push((call_metadata[j].0.clone(), call_metadata[j].1.clone()));
        proof {
            assert(str_pairs_v(r@) =~= str_pairs_v(before).push(c[j as int]));
            assert(c.take(j + 1) =~= c.take(j as int).push(c[j as int]));
            assert(kept + c.take(j + 1) =~= (kept + c.take(j as int)).push(c[j as int]));
        }
        j = j + 1;
    }
    proof {
        assert(c.take(call_metadata@.len() as int) =~= c);
    }
    r
}

/// Whether the `http` crate accepts a text as a path-and-query component: `None`
/// when it does, else the text of its error.
pub uninterp spec fn path_rejection(path: Seq<char>) -> Option<Seq<char>>;

/// Parses a path with `http::uri::PathAndQuery`; the error is turned
/// into its display text. What the crate accepts is named by `path_rejection`.
#[verifier::external_body]
fn check_path(path: &str) -> (r: Option<String>)
    ensures
        match r {
            Some(e) => path_rejection(path@) == Some(e@),
            None => path_rejection(path@) is None,
        },
{
    match path.parse::<http::uri::PathAndQuery>() {
        Ok(_) => None,
        Err(e) => Some(e.to_string()),
    }
}

/// The gRPC path of a method: `/{service}/{method}`.
pub open spec fn method_path(service: Seq<char>, method: Seq<char>) -> Seq<char> {
    "/"@ + service + "/"@ + method
}

/// What a method path becomes once checked: the path, or the rejection.
pub open spec fn path_outcome(path: Seq<char>, rejection: Option<Seq<char>>) -> Result<Seq<char>, Seq<char>> {
    match rejection {
        None => Ok(path),
        Some(e) => Err("Invalid gRPC path '"@ + path + "': "@ + e),
    }
}

/// Turns the check of a method path into the call's outcome.
pub fn method_path_outcome(path: String, rejection: Option<String>) -> (r: Result<String, String>)
    ensures
        match r {
            Ok(p) => path_outcome(path@, match rejection { Some(e) => Some(e@), None => None }) == Ok::<Seq<char>, Seq<char>>(p@),
            Err(e) => path_outcome(path@, match rejection { Some(e) => Some(e@), None => None }) == Err::<Seq<char>, Seq<char>>(e@),
        },
{
    match rejection {
        None => Ok(path),
        Some(e) => {
            let mut m = concat3("Invalid gRPC path '", path.as_str(), "': ");
            m.append(e.as_str());
            Err(m)
        },
    }
}

/// Builds and checks the path of a method.
pub fn build_method_path(service_name: &str, method_name: &str) -> (r: Result<String, String>)
    ensures
        match r {
            Ok(p) => p@ == method_path(service_name@, method_name@) && path_rejection(p@) is None,
            Err(e) => path_outcome(
                method_path(service_name@, method_name@),
                path_rejection(method_path(service_name@, method_name@)),
            ) == Err::<Seq<char>, Seq<char>>(e@),
        },
{
    let mut path = concat3("/", service_name, "/");
    path.append(method_name);
    let rejection = check_path(path.as_str());
    method_path_outcome(path, rejection)
}

/// Compression of requests.
#[derive(Debug, PartialEq, Eq, Structural, Clone, Copy)]
pub enum Compression {
    Gzip,
}

/// A letter in either case.
pub open spec fn either_case(c: char, lower: char, upper: char) -> bool {
    c == lower || c == upper
}

/// `gzip` in any mix of cases: the strings whose `to_lowercase()` is `gzip`.
pub open spec fn is_gzip(s: Seq<char>) -> bool {
    &&& s.len() == 4
    &&& either_case(s[0], 'g', 'G')
    &&& either_case(s[1], 'z', 'Z')
    &&& either_case(s[2], 'i', 'I')
    &&& either_case(s[3], 'p', 'P')
}

/// The compression an encoding names: only `gzip`, in any case.
pub fn parse_compression(encoding: &str) -> (r: Option<Compression>)
    ensures
        r is Some <==> is_gzip(encoding@),
{
    let v = crate::text::chars_of(encoding);
    if v.len() == 4 && (v[0] == 'g' || v[0] == 'G') && (v[1] == 'z' || v[1] == 'Z') && (v[2] == 'i' || v[2] == 'I')
        && (v[3] == 'p' || v[3] == 'P') {
        Some(Compression::Gzip)
    } else {
        None
    }
}

pub open spec fn compression_spec(call_level: Option<Seq<char>>, connect_level: Option<Seq<char>>) -> Option<Compression> {
    match call_level {
        Some(c) => if c == "none"@ {
            None
        } else if is_gzip(c) {
            Some(Compression::Gzip)
        } else {
            None
        },
        None => match connect_level {
            Some(c) => if is_gzip(c) {
                Some(Compression::Gzip)
            } else {
                None
            },
            None => None,
        },
    }
}

/// The compression of a call: the call's own setting,
/// where `none` switches it off, else the connection's.
pub fn resolve_compression(call_level: Option<&str>, connect_level: Option<&str>) -> (r: Option<Compression>)
    ensures
        r == compression_spec(
            match call_level { Some(c) => Some(c@), None => None },
            match connect_level { Some(c) => Some(c@), None => None },
        ),
{
    match call_level {
        Some(c) => {
            if str_eq(c, "none") {
                None
            } else {
                parse_compression(c)
            }
        },
        None => match connect_level {
            Some(c) => parse_compression(c),
            None => None,
        },
    }
}

/// An entry of response metadata, as read from the transport.
pub enum MetadataEntry {
    /// A text entry whose value is valid text.
    Text(String),
    /// A text entry whose value is not valid text, with its length in bytes.
    NotText(usize),
    /// A binary entry.
    Binary,
}

/// What a metadata entry is reported as: text values as they are, other
/// values of text entries as `<non-utf8: N bytes>`, binary entries not at all.
pub open spec fn reported_entry(key: Seq<char>, e: MetadataEntry) -> Option<(Seq<char>, Seq<char>)> {
    match e {
        MetadataEntry::Text(v) => Some((key, v@)),
        MetadataEntry::NotText(n) => Some((key, "<non-utf8: "@ + crate::text::decimal_spec(n as nat) + " bytes>"@)),
        MetadataEntry::Binary => None,
    }
}

/// The reported entries of response metadata, in order.
pub open spec fn reported_metadata(entries: Seq<(String, MetadataEntry)>) -> Seq<(Seq<char>, Seq<char>)>
    decreases entries.len(),
{
    if entries.len() == 0 {
        Seq::empty()
    } else {
        let rest = reported_metadata(entries.drop_last());
        match reported_entry(entries.last().0@, entries.last().1) {
            Some(p) => rest.push(p),
            None => rest,
        }
    }
}

/// The response metadata of a call as key and value texts.
pub fn extract_metadata(entries: Vec<(String, MetadataEntry)>) -> (r: Vec<(String, String)>)
    ensures
        str_pairs_v(r@) == reported_metadata(entries@),
{
    let ghost all = entries@;
    let mut r: Vec<(String, String)> = Vec::new();
    let mut rest = entries;
    proof {
        assert(all.take(0) =~= Seq::<(String, MetadataEntry)>::empty());
    }
    let n = rest.len();
    let mut i: usize = 0;
    while i < n
        invariant
            n == all.len(),
            i <= n,
            rest@ =~= all.subrange(i as int, n as int),
            str_pairs_v(r@) == reported_metadata(all.take(i as int)),
        decreases n - i,
    {
        let (key, entry) = rest.remove(0);
        proof {
            assert(all.take(i + 1).drop_last() =~= all.take(i as int));
            assert(all.take(i + 1).last() == (key, entry));
        }
        match entry {
            MetadataEntry::Text(v) => {
                r.push((key, v));
            },
            MetadataEntry::NotText(len) => {
                let mut v = crate::text::owned("<non-utf8: ");
                let d = crate::text::decimal(len as u64);
                v.append(d.as_str());
                v.append(" bytes>");
                r.push((key, v));
            },
            MetadataEntry::Binary => {},
        }
        proof {
            assert(str_pairs_v(r@) =~= reported_metadata(all.take(i + 1)));
        }
        i = i + 1;
    }
    proof {
        assert(all.take(n as int) =~= all);
    }
    r
}

} // verus!
