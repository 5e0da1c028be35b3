//! Service settings: the listening port, the request quota, and the lengths
//! of the limiter window, the cache lifetime and the request timeout.
use vstd::prelude::*;

verus! {

pub const DEFAULT_RATE_LIMIT_REQUESTS: usize = 60;

pub const DEFAULT_RATE_LIMIT_WINDOW_SECS: u64 = 60;

pub const DEFAULT_DNS_CACHE_TTL_SECS: u64 = 300;

pub const DEFAULT_REQUEST_TIMEOUT_SECS: u64 = 30;

/// Characters `0` to `9`.
pub open spec fn is_digit(c: char) -> bool {
    '0' <= c && c <= '9'
}

/// The value of the decimal digits `s`.
pub open spec fn digits_value(s: Seq<char>) -> nat
    decreases s.len(),
{
    if s.len() == 0 {
        0
    } else {
        digits_value(s.drop_last()) * 10 + ((s.last() as u32) - ('0' as u32)) as nat
    }
}

/// The number that `s` writes in decimal, with an optional leading `+`;
/// `None` when `s` is no such text.
pub open spec fn unsigned_value(s: Seq<char>) -> Option<nat> {
    let d = if s.len() > 0 && s[0] == '+' {
        s.drop_first()
    } else {
        s
    };
    if d.len() > 0 && forall|i: int| 0 <= i < d.len() ==> is_digit(#[trigger] d[i]) {
        Some(digits_value(d))
    } else {
        None
    }
}

/// The number that `s` writes when it is at most `max`.
pub open spec fn bounded_value(s: Seq<char>, max: nat) -> Option<nat> {
    match unsigned_value(s) {
        Some(v) => if v <= max {
            Some(v)
        } else {
            None
        },
        None => None,
    }
}

/// Relies on `<u16 as FromStr>::from_str`: decimal digits with an optional `+`,
/// within range.
#[verifier::external_body]
fn parse_u16(s: &str) -> (r: Option<u16>)
    ensures
        r matches Some(v) ==> bounded_value(s@, u16::MAX as nat) == Some(v as nat),
        r is None ==> bounded_value(s@, u16::MAX as nat) is None,
{
    s.parse::<u16>().ok()
}

/// Relies on `<usize as FromStr>::from_str`: decimal digits with an optional `+`,
/// within range.
#[verifier::external_body]
fn parse_usize(s: &str) -> (r: Option<usize>)
    ensures
        r matches Some(v) ==> bounded_value(s@, usize::MAX as nat) == Some(v as nat),
        r is None ==> bounded_value(s@, usize::MAX as nat) is None,
{
    s.parse::<usize>().ok()
}

/// Relies on `<u64 as FromStr>::from_str`: decimal digits with an optional `+`,
/// within range.
#[verifier::external_body]
fn parse_u64(s: &str) -> (r: Option<u64>)
    ensures
        r matches Some(v) ==> bounded_value(s@, u64::MAX as nat) == Some(v as nat),
        r is None ==> bounded_value(s@, u64::MAX as nat) is None,
{
    s.parse::<u64>().ok()
}

/// `secs` seconds in milliseconds, held at the largest reading.
pub open spec fn secs_to_millis(secs: u64) -> u64 {
    if secs * 1000 <= u64::MAX {
        (secs * 1000) as u64
    } else {
        u64::MAX
    }
}

/// The setting that `text` gives, or `default` when it is missing or is not
/// a number in range.
pub open spec fn setting_or(text: Option<Seq<char>>, max: nat, default: nat) -> nat {
    match text {
        Some(t) => match bounded_value(t, max) {
            Some(v) => v,
            None => default,
        },
        None => default,
    }
}

/// Service settings.
pub struct Config {
    /// Port to listen on.
    pub port: u16,
    /// Requests admitted per client within one window.
    pub rate_limit_requests: usize,
    /// Length of a limiter window, in seconds.
    pub rate_limit_window_secs: u64,
    /// Lifetime of a cache entry, in seconds.
    pub dns_cache_ttl_secs: u64,
    /// Time allowed for one request, in seconds.
    pub request_timeout_secs: u64,
}

pub open spec fn opt_view(s: Option<&str>) -> Option<Seq<char>> {
    match s {
        Some(t) => Some(t@),
        None => None,
    }
}

impl Config {
    /// The settings for `port` from the texts given for the other settings;
    /// each one that is missing or unreadable takes its default.
    pub fn from_settings(
        port: u16,
        rate_limit_requests: Option<&str>,
        rate_limit_window_secs: Option<&str>,
        dns_cache_ttl_secs: Option<&str>,
        request_timeout_secs: Option<&str>,
    ) -> (r: Config)
        ensures
            r.port == port,
            r.rate_limit_requests == setting_or(
                opt_view(rate_limit_requests),
                usize::MAX as nat,
                DEFAULT_RATE_LIMIT_REQUESTS as nat,
            ),
            r.rate_limit_window_secs == setting_or(
                opt_view(rate_limit_window_secs),
                u64::MAX as nat,
                DEFAULT_RATE_LIMIT_WINDOW_SECS as nat,
            ),
            r.dns_cache_ttl_secs == setting_or(
                opt_view(dns_cache_ttl_secs),
                u64::MAX as nat,
                DEFAULT_DNS_CACHE_TTL_SECS as nat,
            ),
            r.request_timeout_secs == setting_or(
                opt_view(request_timeout_secs),
                u64::MAX as nat,
                DEFAULT_REQUEST_TIMEOUT_SECS as nat,
            ),
    {
        let requests = match rate_limit_requests {
            Some(t) => match parse_usize(t) {
                Some(v) => v,
                None => DEFAULT_RATE_LIMIT_REQUESTS,
            },
            None => DEFAULT_RATE_LIMIT_REQUESTS,
        };
        Config {
            port,
            rate_limit_requests: requests,
            rate_limit_window_secs: secs_setting(rate_limit_window_secs, DEFAULT_RATE_LIMIT_WINDOW_SECS),
            dns_cache_ttl_secs: secs_setting(dns_cache_ttl_secs, DEFAULT_DNS_CACHE_TTL_SECS),
            request_timeout_secs: secs_setting(request_timeout_secs, DEFAULT_REQUEST_TIMEOUT_SECS),
        }
    }

    /// The limiter window, in milliseconds.
    pub fn rate_limit_window(&self) -> (r: u64)
        ensures
            r == secs_to_millis(self.rate_limit_window_secs),
    {
        millis_of(self.rate_limit_window_secs)
    }

    /// The lifetime of a cache entry, in milliseconds.
    pub fn dns_cache_ttl(&self) -> (r: u64)
        ensures
            r == secs_to_millis(self.dns_cache_ttl_secs),
    {
        millis_of(self.dns_cache_ttl_secs)
    }

    /// The time allowed for one request, in milliseconds.
    pub fn request_timeout(&self) -> (r: u64)
        ensures
            r == secs_to_millis(self.request_timeout_secs),
    {
        millis_of(self.request_timeout_secs)
    }
}

fn millis_of(secs: u64) -> (r: u64)
    ensures
        r == secs_to_millis(secs),
{
    if secs <= u64::MAX / 1000 {
        secs * 1000
    } else {
        u64::MAX
    }
}

fn secs_setting(text: Option<&str>, default: u64) -> (r: u64)
    ensures
        r == setting_or(opt_view(text), u64::MAX as nat, default as nat),
{
    match text {
        Some(t) => match parse_u64(t) {
            Some(v) => v,
            None => default,
        },
        None => default,
    }
}

/// The port given after the first `--port` among `args`; `None` when there
/// is no such argument or it is not a port number.
pub open spec fn port_argument(args: Seq<Seq<char>>) -> Option<nat> {
    if exists|i: int| 0 <= i < args.len() && args[i] == "--port"@ {
        let i = choose|i: int|
            0 <= i < args.len() && args[i] == "--port"@ && forall|j: int|
                0 <= j < i ==> args[j] != "--port"@;
        if i + 1 < args.len() {
            bounded_value(args[i + 1], u16::MAX as nat)
        } else {
            None
        }
    } else {
        None
    }
}

/// The port that the command line `args` asks for.
pub fn parse_port(args: &Vec<String>) -> (r: Option<u16>)
    ensures
        r matches Some(p) ==> port_argument(args@.map_values(|a: String| a@)) == Some(p as nat),
        r is None ==> port_argument(args@.map_values(|a: String| a@)) is None,
{
    let ghost views = args@.map_values(|a: String| a@);
    let flag = String::from_str("--port");
    let mut i: usize = 0;
    while i < args.len()
        invariant
            i <= args@.len(),
            views == args@.map_values(|a: String| a@),
            flag@ == "--port"@,
            forall|j: int| 0 <= j < i ==> views[j] != "--port"@,
        decreases args@.len() - i,
    {
        if args[i] == flag {
            proof {
                assert(views[i as int] == "--port"@);
                let k = choose|k: int|
                    0 <= k < views.len() && views[k] == "--port"@ && forall|j: int|
                        0 <= j < k ==> views[j] != "--port"@;
                if k < i {
                } else if k > i {
                    assert(views[i as int] != "--port"@);
                }
                assert(k == i);
            }
            if i + 1 < args.len() {
                return parse_u16(args[i + 1].as_str());
            } else {
                return None;
            }
        }
        i = i + 1;
    }
    None
}

} // verus!
