//! How a channel is built from the TLS settings: plaintext, TLS without
//! certificate checks, TLS with a custom CA, client certificate or server name,
//! or standard TLS; and which addresses a balanced channel spreads over.
use vstd::prelude::*;

use crate::config::strings_v;
use crate::connect::{url_with_scheme, url_with_scheme_spec};

verus! {

/// The kind of channel to build.
#[derive(Debug, PartialEq, Eq, Structural, Clone, Copy)]
pub enum TlsMode {
    Plaintext,
    SkipVerify,
    Custom,
    Standard,
}

/// Some custom TLS setting is given.
pub open spec fn has_custom_settings(ca: bool, cert: bool, key: bool, sni: bool) -> bool {
    ca || cert || key || sni
}

/// The channel kind: plaintext without TLS; with TLS, no
/// certificate checks when asked, else custom TLS when a CA, client certificate,
/// client key or server name is given, else standard TLS.
pub open spec fn tls_mode_spec(use_tls: bool, skip_verify: bool, ca: bool, cert: bool, key: bool, sni: bool) -> TlsMode {
    if !use_tls {
        TlsMode::Plaintext
    } else if skip_verify {
        TlsMode::SkipVerify
    } else if has_custom_settings(ca, cert, key, sni) {
        TlsMode::Custom
    } else {
        TlsMode::Standard
    }
}

pub fn tls_mode(
    use_tls: bool,
    tls_skip_verify: bool,
    tls_ca_cert: Option<&str>,
    tls_client_cert: Option<&str>,
    tls_client_key: Option<&str>,
    tls_server_name_override: Option<&str>,
) -> (r: TlsMode)
    ensures
        r == tls_mode_spec(
            use_tls,
            tls_skip_verify,
            tls_ca_cert is Some,
            tls_client_cert is Some,
            tls_client_key is Some,
            tls_server_name_override is Some,
        ),
{
    if !use_tls {
        TlsMode::Plaintext
    } else if tls_skip_verify {
        TlsMode::SkipVerify
    } else if tls_ca_cert.is_some() || tls_client_cert.is_some() || tls_client_key.is_some()
        || tls_server_name_override.is_some() {
        TlsMode::Custom
    } else {
        TlsMode::Standard
    }
}

pub open spec fn balancing_refused_message() -> Seq<char> {
    "Load balancing mode does not support skipping certificate verification or custom TLS configuration (CA/mTLS/SNI). Please remove extra endpoints or simplify TLS configuration."@
}

/// The addresses of a balanced channel: the primary
/// first, then the extra endpoints, each with its scheme; refused with TLS that
/// skips checks or has custom settings.
pub fn balanced_endpoints(
    primary_url: &str,
    additional_endpoints: &Vec<String>,
    use_tls: bool,
    tls_skip_verify: bool,
    tls_ca_cert: Option<&str>,
    tls_client_cert: Option<&str>,
    tls_client_key: Option<&str>,
    tls_server_name_override: Option<&str>,
) -> (r: Result<Vec<String>, String>)
    ensures
        match r {
            Ok(v) => !(use_tls && (tls_skip_verify || has_custom_settings(
                tls_ca_cert is Some,
                tls_client_cert is Some,
                tls_client_key is Some,
                tls_server_name_override is Some,
            ))) && strings_v(v@) == seq![url_with_scheme_spec(primary_url@, use_tls)] + strings_v(
                additional_endpoints@,
            ).map_values(|u: Seq<char>| url_with_scheme_spec(u, use_tls)),
            Err(e) => use_tls && (tls_skip_verify || has_custom_settings(
                tls_ca_cert is Some,
                tls_client_cert is Some,
                tls_client_key is Some,
                tls_server_name_override is Some,
            )) && e@ == balancing_refused_message(),
        },
{
    if use_tls && (tls_skip_verify || tls_ca_cert.is_some() || tls_client_cert.is_some() || tls_client_key.is_some()
        || tls_server_name_override.is_some()) {
        return Err(crate::text::owned(
            "Load balancing mode does not support skipping certificate verification or custom TLS configuration (CA/mTLS/SNI). Please remove extra endpoints or simplify TLS configuration.",
        ));
    }
    let ghost extra = strings_v(additional_endpoints@).map_values(|u: Seq<char>| url_with_scheme_spec(u, use_tls));
    let mut v: Vec<String> = Vec::new();
    v.push(url_with_scheme(primary_url, use_tls));
    let ghost first = strings_v(v@);
    let mut i: usize = 0;
    while i < additional_endpoints.len()
        invariant
            i <= additional_endpoints@.len(),
            extra == strings_v(additional_endpoints@).map_values(|u: Seq<char>| url_with_scheme_spec(u, use_tls)),
            first == seq![url_with_scheme_spec(primary_url@, use_tls)],
            strings_v(v@) == first + extra.take(i as int),
        decreases additional_endpoints.len() - i,
    {
        let ghost before = v@;
        v.push(url_with_scheme(additional_endpoints[i].as_str(), use_tls));
        proof {
            assert(strings_v(v@) =~= strings_v(before).push(extra[i as int]));
            assert(extra.take(i + 1) =~= extra.take(i as int).push(extra[i as int]));
            assert(first + extra.take(i + 1) =~= (first + extra.take(i as int)).push(extra[i as int]));
        }
        i = i + 1;
    }
    proof {
        assert(extra.take(additional_endpoints@.len() as int) =~= extra);
    }
    Ok(v)
}

} // verus!
