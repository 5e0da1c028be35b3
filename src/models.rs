//! Response data and the choice between a JSON and a plain-text body.
use crate::metrics::Metrics;
use crate::text::{decimal_string, decimal_text};
use std::collections::HashMap;
use vstd::prelude::*;

verus! {

/// What the service reports about a client address.
pub struct IpResponse {
    /// Client address, IPv4 or IPv6.
    pub ip: String,
    /// Reverse name of the address, `None` when the lookup found none.
    pub rdns: Option<String>,
    /// User agent of the request, when it sent one.
    pub user_agent: Option<String>,
    /// Seconds since the Unix epoch.
    pub unix_timestamp: u64,
    /// The time in UTC, as `YYYY-MM-DD HH:MM:SS UTC`.
    pub utc_time: String,
    /// The server's local time.
    pub local_time: String,
}

/// Body format of a response.
#[derive(Clone, Copy, Debug, PartialEq, Eq, Structural)]
pub enum ResponseFormat {
    Json,
    PlainText,
}

/// Health report.
pub struct HealthResponse {
    pub status: String,
    pub timestamp: u64,
    pub uptime_seconds: u64,
}

/// Usage report.
pub struct MetricsResponse {
    pub total_requests: u64,
    pub successful_requests: u64,
    pub failed_requests: u64,
    pub uptime_seconds: u64,
    pub timestamp: u64,
}

/// Version report.
pub struct VersionResponse {
    pub version: String,
    pub name: String,
    pub authors: Vec<String>,
    pub repository: String,
    pub rust_edition: String,
}

/// The request headers, by name.
pub struct HeadersResponse {
    pub headers: HashMap<String, String>,
}

/// Query of the address endpoint.
pub struct IpQuery {
    pub format: Option<String>,
}

/// Query of the lookup endpoint.
pub struct LookupQuery {
    pub ip: String,
}

impl HealthResponse {
    /// The report of a running server at `timestamp`, up for `uptime_seconds`.
    pub fn healthy(timestamp: u64, uptime_seconds: u64) -> (r: HealthResponse)
        ensures
            r.status@ == "healthy"@,
            r.timestamp == timestamp,
            r.uptime_seconds == uptime_seconds,
    {
        HealthResponse { status: String::from_str("healthy"), timestamp, uptime_seconds }
    }
}

impl MetricsResponse {
    /// The report of the counters `metrics` at `timestamp`.
    pub fn from_metrics(metrics: &Metrics, uptime_seconds: u64, timestamp: u64) -> (r: MetricsResponse)
        ensures
            r.total_requests == metrics.total_count(),
            r.successful_requests == metrics.success_count(),
            r.failed_requests == metrics.failure_count(),
            r.uptime_seconds == uptime_seconds,
            r.timestamp == timestamp,
    {
        MetricsResponse {
            total_requests: metrics.total(),
            successful_requests: metrics.success(),
            failed_requests: metrics.failure(),
            uptime_seconds,
            timestamp,
        }
    }
}

impl VersionResponse {
    /// The report for the build `name` at `version`.
    pub fn describe(name: String, version: String) -> (r: VersionResponse)
        ensures
            r.name == name,
            r.version == version,
            r.authors@.len() == 2,
            r.authors@[0]@ == "xFanexx"@,
            r.authors@[1]@ == "NotKeira"@,
            r.repository@ == "https://github.com/xFanexx/ip-api"@,
            r.rust_edition@ == "2024"@,
    {
        let mut authors: Vec<String> = Vec::new();
        authors.push(String::from_str("xFanexx"));
        authors.push(String::from_str("NotKeira"));
        VersionResponse {
            version,
            name,
            authors,
            repository: String::from_str("https://github.com/xFanexx/ip-api"),
            rust_edition: String::from_str("2024"),
        }
    }
}

/// The text of an optional value, `null` when there is none.
pub open spec fn or_null(v: Option<String>) -> Seq<char> {
    match v {
        Some(s) => s@,
        None => "null"@,
    }
}

/// The plain-text body for `r`: one `Name: value` line per field.
pub open spec fn plain_text(r: IpResponse) -> Seq<char> {
    "IP: "@ + r.ip@ + "\nrDNS: "@ + or_null(r.rdns) + "\nUser-Agent: "@ + or_null(r.user_agent)
        + "\nUnix-Timestamp: "@ + decimal_text(r.unix_timestamp as nat) + "\nUTC-Time: "@
        + r.utc_time@ + "\nLocal-Time: "@ + r.local_time@
}

fn append_or_null(s: &mut String, v: &Option<String>)
    ensures
        final(s)@ == old(s)@ + or_null(*v),
{
    match v {
        Some(t) => s.append(t.as_str()),
        None => s.append("null"),
    }
}

impl IpResponse {
    /// The response as plain text.
    pub fn to_plain_text(&self) -> (r: String)
        ensures
            r@ == plain_text(*self),
    {
        let mut s = String::from_str("IP: ");
        s.append(self.ip.as_str());
        s.append("\nrDNS: ");
        append_or_null(&mut s, &self.rdns);
        s.append("\nUser-Agent: ");
        append_or_null(&mut s, &self.user_agent);
        s.append("\nUnix-Timestamp: ");
        let ts = decimal_string(self.unix_timestamp);
        s.append(ts.as_str());
        s.append("\nUTC-Time: ");
        s.append(self.utc_time.as_str());
        s.append("\nLocal-Time: ");
        s.append(self.local_time.as_str());
        s
    }
}

/// `s` holds `t` as a contiguous part.
pub open spec fn has_infix(s: Seq<char>, t: Seq<char>) -> bool {
    exists|i: int| 0 <= i && i + t.len() <= s.len() && #[trigger] s.subrange(i, i + t.len()) == t
}

/// The lower-case form of `s`, as the standard library maps each character.
pub uninterp spec fn lower_of(s: Seq<char>) -> Seq<char>;

/// Relies on `str::to_lowercase`: the lower-case form of `s`.
#[verifier::external_body]
fn lowercase(s: &str) -> (r: String)
    ensures
        r@ == lower_of(s@),
{
    s.to_lowercase()
}

/// Relies on `str::contains`: whether `t` occurs in `s`.
#[verifier::external_body]
fn contains_text(s: &str, t: &str) -> (r: bool)
    ensures
        r == has_infix(s@, t@),
{
    s.contains(t)
}

/// The format that a lower-case format name asks for: plain text for
/// `text`, `plain` and `txt`, JSON for any other name.
pub open spec fn named_format(name: Seq<char>) -> ResponseFormat {
    if name == "text"@ || name == "plain"@ || name == "txt"@ {
        ResponseFormat::PlainText
    } else {
        ResponseFormat::Json
    }
}

/// The format a request asks for: by its format parameter, read without
/// regard to case, when it has one; else plain text when its `Accept` header
/// names `text/plain`; else JSON.
pub open spec fn chosen_format(format: Option<Seq<char>>, accept: Option<Seq<char>>) -> ResponseFormat {
    match format {
        Some(f) => named_format(lower_of(f)),
        None => match accept {
            Some(a) => if has_infix(a, "text/plain"@) {
                ResponseFormat::PlainText
            } else {
                ResponseFormat::Json
            },
            None => ResponseFormat::Json,
        },
    }
}

pub open spec fn opt_text(s: Option<&str>) -> Option<Seq<char>> {
    match s {
        Some(t) => Some(t@),
        None => None,
    }
}

/// The format for the lower-case format name `name`.
pub fn format_named(name: &str) -> (r: ResponseFormat)
    ensures
        r == named_format(name@),
{
    let n = name.to_owned();
    if n == String::from_str("text") || n == String::from_str("plain") || n == String::from_str(
        "txt",
    ) {
        ResponseFormat::PlainText
    } else {
        ResponseFormat::Json
    }
}

/// The format for a request with the format parameter `format` and the
/// `Accept` header `accept`.
pub fn determine_format(format: Option<&str>, accept: Option<&str>) -> (r: ResponseFormat)
    ensures
        r == chosen_format(opt_text(format), opt_text(accept)),
{
    match format {
        Some(f) => {
            let lowered = lowercase(f);
            format_named(lowered.as_str())
        },
        None => match accept {
            Some(a) => if contains_text(a, "text/plain") {
                ResponseFormat::PlainText
            } else {
                ResponseFormat::Json
            },
            None => ResponseFormat::Json,
        },
    }
}

} // verus!
