//! Error details of a failed call: the type name of a detail, the hexadecimal
//! form of undecodable bytes, and the framing of details inside an error text.
use vstd::prelude::*;

use crate::json::JsonValue;
use crate::text::{
    chars_of, concat, find_first, first_occurrence, last_index_of, rfind_char, slice_range, string_from_chars,
    trim_bounds, trimmed,
};
use crate::types::GrpcErrorDetail;

verus! {

/// What separates the readable message from the JSON details in an error text.
pub const ERROR_DETAILS_MARKER: &'static str = "\n---GRPC_ERROR_DETAILS---\n";

/// The type name of a type URL: what follows its last `/`, or the whole URL.
pub open spec fn type_name_of(url: Seq<char>) -> Seq<char> {
    match last_index_of(url, '/') {
        Some(p) => url.subrange(p + 1, url.len() as int),
        None => url,
    }
}

/// `type.googleapis.com/google.rpc.RetryInfo` → `google.rpc.RetryInfo`.
pub fn extract_type_name(type_url: &str) -> (r: String)
    ensures
        r@ == type_name_of(type_url@),
{
    let v = chars_of(type_url);
    let n = v.len();
    match rfind_char(v.as_slice(), '/') {
        Some(p) => string_from_chars(slice_range(&v, p + 1, n).as_slice()),
        None => crate::text::owned(type_url),
    }
}

/// Lower-case hexadecimal digit of `d < 16`.
pub open spec fn hex_digit(d: nat) -> char {
    if d < 10 {
        crate::text::digit_char(d)
    } else if d == 10 {
        'a'
    } else if d == 11 {
        'b'
    } else if d == 12 {
        'c'
    } else if d == 13 {
        'd'
    } else if d == 14 {
        'e'
    } else {
        'f'
    }
}

/// Two lower-case hexadecimal digits per byte, in order.
pub open spec fn hex_spec(b: Seq<u8>) -> Seq<char>
    decreases b.len(),
{
    if b.len() == 0 {
        Seq::empty()
    } else {
        hex_spec(b.drop_last()).push(hex_digit(b.last() as nat / 16)).push(hex_digit(b.last() as nat % 16))
    }
}

fn hex_char(d: u8) -> (r: char)
    requires
        d < 16,
    ensures
        r == hex_digit(d as nat),
{
    if d == 0 { '0' } else if d == 1 { '1' } else if d == 2 { '2' } else if d == 3 { '3' } else if d == 4 {
        '4'
    } else if d == 5 { '5' } else if d == 6 { '6' } else if d == 7 { '7' } else if d == 8 { '8' } else if d
        == 9 { '9' } else if d == 10 { 'a' } else if d == 11 { 'b' } else if d == 12 { 'c' } else if d == 13 {
        'd'
    } else if d == 14 { 'e' } else { 'f' }
}

/// Hexadecimal form of bytes.
pub fn bytes_to_hex(bytes: &[u8]) -> (r: String)
    ensures
        r@ == hex_spec(bytes@),
{
    let mut out: Vec<char> = Vec::new();
    let mut i: usize = 0;
    while i < bytes.len()
        invariant
            i <= bytes@.len(),
            out@ == hex_spec(bytes@.take(i as int)),
        decreases bytes.len() - i,
    {
        let b = bytes[i];
        proof {
            assert(bytes@.take(i + 1).drop_last() =~= bytes@.take(i as int));
            assert(bytes@.take(i + 1).last() == b);
        }
        out.push(hex_char(b / 16));
        out.push(hex_char(b % 16));
        i = i + 1;
    }
    proof {
        assert(bytes@.take(bytes@.len() as int) =~= bytes@);
    }
    string_from_chars(out.as_slice())
}

/// The two parts of an error text: the readable message and, after the marker,
/// the JSON text of the details (both trimmed). Without the marker, the whole
/// text is the message.
pub open spec fn split_error(e: Seq<char>) -> (Seq<char>, Option<Seq<char>>) {
    match first_occurrence(e, ERROR_DETAILS_MARKER@) {
        Some(p) => (
            trimmed(e.subrange(0, p)),
            Some(trimmed(e.subrange(p + ERROR_DETAILS_MARKER@.len(), e.len() as int))),
        ),
        None => (e, None),
    }
}

/// Splits an error text into its message and the JSON text of its details;
/// the details text is for the caller to parse.
pub fn parse_error_details(error: &str) -> (r: (String, Option<String>))
    ensures
        (r.0@, match r.1 {
            Some(d) => Some(d@),
            None => None,
        }) == split_error(error@),
{
    let v = chars_of(error);
    let m = chars_of(ERROR_DETAILS_MARKER);
    let n = v.len();
    let vs = v.as_slice();
    let ms = m.as_slice();
    assert(vs@ == error@ && ms@ == ERROR_DETAILS_MARKER@);
    match find_first(vs, ms) {
        Some(p) => {
            let ml = m.len();
            let head = slice_range(&v, 0, p);
            let tail = slice_range(&v, p + ml, n);
            let (a, b) = trim_bounds(head.as_slice());
            let (c, d) = trim_bounds(tail.as_slice());
            let message = string_from_chars(slice_range(&head, a, b).as_slice());
            let details = string_from_chars(slice_range(&tail, c, d).as_slice());
            (message, Some(details))
        },
        None => (crate::text::owned(error), None),
    }
}

/// The error text of a failed call: `prefix: message (code)`, followed by the
/// marker and the JSON text of the details when there are details.
pub open spec fn grpc_error_text(prefix: Seq<char>, message: Seq<char>, code: Seq<char>, details_json: Option<Seq<char>>) -> Seq<char> {
    let base = prefix + ": "@ + message + " ("@ + code + ")"@;
    match details_json {
        Some(j) => base + ERROR_DETAILS_MARKER@ + j,
        None => base,
    }
}

/// Formats the error of a failed call; `code` is the
/// status code as displayed, `details_json` the serialized details if any.
pub fn format_grpc_error(prefix: &str, message: &str, code: &str, details_json: Option<&str>) -> (r: String)
    ensures
        r@ == grpc_error_text(
            prefix@,
            message@,
            code@,
            match details_json {
                Some(j) => Some(j@),
                None => None,
            },
        ),
{
    let mut r = concat(prefix, ": ");
    r.append(message);
    r.append(" (");
    r.append(code);
    r.append(")");
    match details_json {
        Some(j) => {
            r.append(ERROR_DETAILS_MARKER);
            r.append(j);
        },
        None => {},
    }
    r
}

/// What a detail is reported as: decoded with the connection's types first, else
/// with the standard error types; otherwise its bytes in hexadecimal, unless empty.
pub open spec fn detail_of(
    type_url: Seq<char>,
    value: Seq<u8>,
    from_connection: Option<crate::json::Json>,
    from_standard: Option<crate::json::Json>,
) -> (Seq<char>, Option<crate::json::Json>, Option<Seq<char>>) {
    match from_connection {
        Some(j) => (type_url, Some(j), None),
        None => match from_standard {
            Some(j) => (type_url, Some(j), None),
            None => if value.len() == 0 {
                (type_url, None, None)
            } else {
                (type_url, None, Some(hex_spec(value)))
            },
        },
    }
}

pub open spec fn detail_v(d: GrpcErrorDetail) -> (Seq<char>, Option<crate::json::Json>, Option<Seq<char>>) {
    (
        d.type_url@,
        match d.decoded {
            Some(v) => Some(v.model()),
            None => None,
        },
        match d.raw_hex {
            Some(h) => Some(h@),
            None => None,
        },
    )
}

/// One detail of an error status:
/// `from_connection` and `from_standard` are the detail decoded with the
/// connection's types and with the standard error types, when that succeeded.
pub fn error_detail_entry(
    type_url: String,
    value: &[u8],
    from_connection: Option<JsonValue>,
    from_standard: Option<JsonValue>,
) -> (r: GrpcErrorDetail)
    ensures
        detail_v(r) == detail_of(
            type_url@,
            value@,
            match from_connection {
                Some(j) => Some(j.model()),
                None => None,
            },
            match from_standard {
                Some(j) => Some(j.model()),
                None => None,
            },
        ),
{
    match from_connection {
        Some(j) => GrpcErrorDetail { type_url, decoded: Some(j), raw_hex: None },
        None => match from_standard {
            Some(j) => GrpcErrorDetail { type_url, decoded: Some(j), raw_hex: None },
            None => if value.len() == 0 {
                GrpcErrorDetail { type_url, decoded: None, raw_hex: None }
            } else {
                GrpcErrorDetail { type_url, decoded: None, raw_hex: Some(bytes_to_hex(value)) }
            },
        },
    }
}

/// The entries of a status's details:
/// `decoded` is what decoding `details_bytes` as a `google.rpc.Status` gave, its
/// details as (type URL, value bytes), or `None` when they did not decode. A
/// status without detail bytes, or whose details do not decode, has no entries.
pub fn status_detail_entries(details_bytes: &[u8], decoded: Option<Vec<(String, Vec<u8>)>>) -> (r: Vec<(String, Vec<u8>)>)
    ensures
        details_bytes@.len() == 0 ==> r@.len() == 0,
        details_bytes@.len() > 0 ==> r@ == match decoded {
            Some(v) => v@,
            None => Seq::empty(),
        },
{
    if details_bytes.len() == 0 {
        return Vec::new();
    }
    match decoded {
        Some(v) => v,
        None => Vec::new(),
    }
}

} // verus!
