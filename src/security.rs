//! Validation of client-supplied values and the fixed security headers.
use crate::text::{char_is_control, is_control, trim_white_space, trimmed};
use vstd::prelude::*;
use vstd::string::StringSliceAdditionalSpecFns;

verus! {

/// Longest user agent accepted, in bytes.
pub const MAX_USER_AGENT_LENGTH: usize = 512;

/// Whether `s` is the text of an IPv4 or IPv6 address, as the standard
/// library's address parser reads it.
pub uninterp spec fn ip_syntax(s: Seq<char>) -> bool;

/// Relies on `<core::net::IpAddr as FromStr>::from_str`: whether `s` parses as
/// an address.
#[verifier::external_body]
fn parses_as_ip(s: &str) -> (r: bool)
    ensures
        r == ip_syntax(s@),
{
    s.parse::<core::net::IpAddr>().is_ok()
}

/// Whether `ip` is the text of an IPv4 or IPv6 address.
pub fn is_valid_ip(ip: &str) -> (r: bool)
    ensures
        r == ip_syntax(ip@),
{
    parses_as_ip(ip)
}

/// The address text with surrounding white space removed, when what remains
/// is an address; `None` otherwise.
pub fn sanitize_ip(ip: &str) -> (r: Option<String>)
    ensures
        ip_syntax(trimmed(ip@)) ==> (r matches Some(s) && s@ == trimmed(ip@)),
        !ip_syntax(trimmed(ip@)) ==> r is None,
{
    let t = trim_white_space(ip);
    if is_valid_ip(t) {
        Some(t.to_owned())
    } else {
        None
    }
}

/// A user agent is accepted when its UTF-8 form is at most
/// `MAX_USER_AGENT_LENGTH` bytes long and it holds no control character
/// other than tab.
pub open spec fn user_agent_ok(s: &str) -> bool {
    &&& s.spec_bytes().len() <= MAX_USER_AGENT_LENGTH
    &&& forall|i: int| 0 <= i < s@.len() ==> !(is_control(#[trigger] s@[i]) && s@[i] != '\t')
}

/// Whether `user_agent` is accepted.
pub fn is_valid_user_agent(user_agent: &str) -> (r: bool)
    ensures
        r == user_agent_ok(user_agent),
{
    if user_agent.as_bytes().len() > MAX_USER_AGENT_LENGTH {
        return false;
    }
    let n = user_agent.unicode_len();
    let mut i: usize = 0;
    while i < n
        invariant
            n == user_agent@.len(),
            user_agent.spec_bytes().len() <= MAX_USER_AGENT_LENGTH,
            i <= n,
            forall|j: int| 0 <= j < i ==> !(is_control(#[trigger] user_agent@[j]) && user_agent@[j] != '\t'),
        decreases n - i,
    {
        let c = user_agent.get_char(i);
        if char_is_control(c) && c != '\t' {
            return false;
        }
        i = i + 1;
    }
    true
}

/// The values of the security headers that every response carries.
pub struct SecurityHeaders;

impl SecurityHeaders {
    pub fn x_content_type_options() -> (r: &'static str)
        ensures
            r@ == "nosniff"@,
    {
        "nosniff"
    }

    pub fn x_frame_options() -> (r: &'static str)
        ensures
            r@ == "DENY"@,
    {
        "DENY"
    }

    pub fn x_xss_protection() -> (r: &'static str)
        ensures
            r@ == "1; mode=block"@,
    {
        "1; mode=block"
    }

    pub fn referrer_policy() -> (r: &'static str)
        ensures
            r@ == "strict-origin-when-cross-origin"@,
    {
        "strict-origin-when-cross-origin"
    }

    pub fn content_security_policy() -> (r: &'static str)
        ensures
            r@ == "default-src 'none'; frame-ancestors 'none'"@,
    {
        "default-src 'none'; frame-ancestors 'none'"
    }

    /// Sent only on requests that arrived over HTTPS.
    pub fn strict_transport_security() -> (r: &'static str)
        ensures
            r@ == "max-age=31536000; includeSubDomains"@,
    {
        "max-age=31536000; includeSubDomains"
    }
}

/// The headers that a response carries, by name and value, in this order;
/// the last one only for a request that arrived over HTTPS.
pub open spec fn response_header_pairs(is_https: bool) -> Seq<(Seq<char>, Seq<char>)> {
    let base = seq![
        ("x-content-type-options"@, "nosniff"@),
        ("x-frame-options"@, "DENY"@),
        ("x-xss-protection"@, "1; mode=block"@),
        ("referrer-policy"@, "strict-origin-when-cross-origin"@),
        ("content-security-policy"@, "default-src 'none'; frame-ancestors 'none'"@),
    ];
    if is_https {
        base.push(("strict-transport-security"@, "max-age=31536000; includeSubDomains"@))
    } else {
        base
    }
}

/// The security headers for a response, by name and value.
pub fn response_headers(is_https: bool) -> (r: Vec<(&'static str, &'static str)>)
    ensures
        r@.map_values(|p: (&'static str, &'static str)| (p.0@, p.1@)) == response_header_pairs(
            is_https,
        ),
{
    let mut headers: Vec<(&'static str, &'static str)> = Vec::new();
    headers.push(("x-content-type-options", SecurityHeaders::x_content_type_options()));
    headers.push(("x-frame-options", SecurityHeaders::x_frame_options()));
    headers.push(("x-xss-protection", SecurityHeaders::x_xss_protection()));
    headers.push(("referrer-policy", SecurityHeaders::referrer_policy()));
    headers.push(("content-security-policy", SecurityHeaders::content_security_policy()));
    if is_https {
        headers.push(("strict-transport-security", SecurityHeaders::strict_transport_security()));
    }
    proof {
        assert(headers@.map_values(|p: (&'static str, &'static str)| (p.0@, p.1@))
            =~= response_header_pairs(is_https));
    }
    headers
}

/// Whether the forwarded protocol `proto` says the request came over HTTPS.
pub fn is_https(proto: Option<&str>) -> (r: bool)
    ensures
        r == (proto matches Some(p) && p@ == "https"@),
{
    match proto {
        Some(p) => p.to_owned() == String::from_str("https"),
        None => false,
    }
}

} // verus!
