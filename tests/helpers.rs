use ip_api::client::{extract_client_ip, extract_ip, forwarded_client, rate_limit_key};
use ip_api::config::{parse_port, Config};
use ip_api::metrics::Metrics;
use ip_api::models::{
    determine_format, format_named, HealthResponse, IpResponse, MetricsResponse, ResponseFormat,
    VersionResponse,
};
use ip_api::network::get_bind_address;
use ip_api::time::get_timestamps;

#[test]
fn bind_address_dual_stack_port() {
    assert_eq!(get_bind_address(7112), "[::]:7112");
}

#[test]
fn bind_address_other_ports() {
    assert_eq!(get_bind_address(8080), "0.0.0.0:8080");
    assert_eq!(get_bind_address(0), "0.0.0.0:0");
    assert_eq!(get_bind_address(65535), "0.0.0.0:65535");
}

#[test]
fn plain_text_with_all_fields() {
    let r = IpResponse {
        ip: "8.8.8.8".to_string(),
        rdns: Some("dns.google".to_string()),
        user_agent: Some("curl/8.0".to_string()),
        unix_timestamp: 1700000000,
        utc_time: "2023-11-14 22:13:20 UTC".to_string(),
        local_time: "2023-11-14 23:13:20".to_string(),
    };
    assert_eq!(
        r.to_plain_text(),
        "IP: 8.8.8.8\nrDNS: dns.google\nUser-Agent: curl/8.0\nUnix-Timestamp: 1700000000\nUTC-Time: 2023-11-14 22:13:20 UTC\nLocal-Time: 2023-11-14 23:13:20"
    );
}

#[test]
fn plain_text_missing_values_read_null() {
    let r = IpResponse {
        ip: "::1".to_string(),
        rdns: None,
        user_agent: None,
        unix_timestamp: 0,
        utc_time: "1970-01-01 00:00:00 UTC".to_string(),
        local_time: "1970-01-01 00:00:00".to_string(),
    };
    assert_eq!(
        r.to_plain_text(),
        "IP: ::1\nrDNS: null\nUser-Agent: null\nUnix-Timestamp: 0\nUTC-Time: 1970-01-01 00:00:00 UTC\nLocal-Time: 1970-01-01 00:00:00"
    );
}

#[test]
fn format_from_parameter() {
    assert_eq!(determine_format(Some("text"), None), ResponseFormat::PlainText);
    assert_eq!(determine_format(Some("TXT"), None), ResponseFormat::PlainText);
    assert_eq!(determine_format(Some("Plain"), Some("application/json")), ResponseFormat::PlainText);
    assert_eq!(determine_format(Some("json"), Some("text/plain")), ResponseFormat::Json);
    assert_eq!(determine_format(Some(""), None), ResponseFormat::Json);
}

#[test]
fn format_from_accept_header() {
    assert_eq!(determine_format(None, Some("text/plain; q=0.9")), ResponseFormat::PlainText);
    assert_eq!(determine_format(None, Some("application/json")), ResponseFormat::Json);
    assert_eq!(determine_format(None, None), ResponseFormat::Json);
}

#[test]
fn format_names_are_exact() {
    assert_eq!(format_named("plain"), ResponseFormat::PlainText);
    assert_eq!(format_named("PLAIN"), ResponseFormat::Json);
    assert_eq!(format_named("texts"), ResponseFormat::Json);
}

#[test]
fn forwarded_header_first_entry() {
    assert_eq!(forwarded_client(" 203.0.113.9 , 10.0.0.1"), "203.0.113.9");
    assert_eq!(forwarded_client("198.51.100.2"), "198.51.100.2");
    assert_eq!(forwarded_client(",10.0.0.1"), "");
}

#[test]
fn client_ip_prefers_forwarded_header() {
    assert_eq!(extract_client_ip(Some("203.0.113.9, 10.0.0.1"), "127.0.0.1"), "203.0.113.9");
    assert_eq!(extract_client_ip(None, "127.0.0.1"), "127.0.0.1");
}

#[test]
fn limiter_key_needs_an_address() {
    assert_eq!(extract_ip(Some("2001:db8::1, 10.0.0.1")), Some("2001:db8::1".to_string()));
    assert_eq!(extract_ip(Some("unknown, 10.0.0.1")), None);
    assert_eq!(extract_ip(None), None);
}

#[test]
fn config_defaults() {
    let c = Config::from_settings(8080, None, None, None, None);
    assert_eq!(c.port, 8080);
    assert_eq!(c.rate_limit_requests, 60);
    assert_eq!(c.rate_limit_window_secs, 60);
    assert_eq!(c.dns_cache_ttl_secs, 300);
    assert_eq!(c.request_timeout_secs, 30);
    assert_eq!(c.rate_limit_window(), 60_000);
    assert_eq!(c.dns_cache_ttl(), 300_000);
    assert_eq!(c.request_timeout(), 30_000);
}

#[test]
fn config_reads_given_values() {
    let c = Config::from_settings(7112, Some("100"), Some("+30"), Some("abc"), Some("-5"));
    assert_eq!(c.rate_limit_requests, 100);
    assert_eq!(c.rate_limit_window_secs, 30);
    assert_eq!(c.dns_cache_ttl_secs, 300);
    assert_eq!(c.request_timeout_secs, 30);
}

#[test]
fn config_durations_saturate() {
    let c = Config::from_settings(1, None, Some("18446744073709551615"), Some("0"), None);
    assert_eq!(c.rate_limit_window(), u64::MAX);
    assert_eq!(c.dns_cache_ttl(), 0);
}

#[test]
fn port_argument_parsing() {
    let args = |v: &[&str]| v.iter().map(|s| s.to_string()).collect::<Vec<String>>();
    assert_eq!(parse_port(&args(&["ip-api", "--port", "7112"])), Some(7112));
    assert_eq!(parse_port(&args(&["ip-api", "--port", "70000"])), None);
    assert_eq!(parse_port(&args(&["ip-api", "--port"])), None);
    assert_eq!(parse_port(&args(&["ip-api"])), None);
    assert_eq!(parse_port(&args(&["ip-api", "--port", "80", "--port", "81"])), Some(80));
}

#[test]
fn metrics_count_separately() {
    let mut m = Metrics::new();
    m.increment_total();
    m.increment_total();
    m.increment_success();
    m.increment_failure();
    m.increment_total();
    assert_eq!(m.total(), 3);
    assert_eq!(m.success(), 1);
    assert_eq!(m.failure(), 1);
    let d = Metrics::default();
    assert_eq!((d.total(), d.success(), d.failure()), (0, 0, 0));
}

#[test]
fn timestamps_render_utc() {
    let (secs, utc, _local) = get_timestamps(0).unwrap();
    assert_eq!(secs, 0);
    assert_eq!(utc, "1970-01-01 00:00:00 UTC");
    let (_, utc, _) = get_timestamps(1700000000).unwrap();
    assert_eq!(utc, "2023-11-14 22:13:20 UTC");
}

#[test]
fn timestamps_out_of_range() {
    assert!(get_timestamps(u64::MAX).is_none());
}

#[test]
fn limiter_key_falls_back_to_peer() {
    assert_eq!(rate_limit_key(Some("198.51.100.7, 10.0.0.1"), "127.0.0.1"), "198.51.100.7");
    assert_eq!(rate_limit_key(Some("garbage"), "127.0.0.1"), "127.0.0.1");
    assert_eq!(rate_limit_key(None, "::1"), "::1");
}

#[test]
fn metrics_record_status_classes() {
    let mut m = Metrics::new();
    m.record_status(200);
    m.record_status(299);
    m.record_status(300);
    m.record_status(404);
    m.record_status(199);
    assert_eq!(m.success(), 2);
    assert_eq!(m.failure(), 3);
    assert_eq!(m.total(), 0);
}

#[test]
fn report_constructors() {
    let h = HealthResponse::healthy(1700000000, 42);
    assert_eq!(h.status, "healthy");
    assert_eq!((h.timestamp, h.uptime_seconds), (1700000000, 42));

    let mut m = Metrics::new();
    m.increment_total();
    m.increment_total();
    m.record_status(500);
    let r = MetricsResponse::from_metrics(&m, 7, 99);
    assert_eq!(
        (r.total_requests, r.successful_requests, r.failed_requests, r.uptime_seconds, r.timestamp),
        (2, 0, 1, 7, 99)
    );

    let v = VersionResponse::describe("ip-api".to_string(), "1.2.3".to_string());
    assert_eq!(v.name, "ip-api");
    assert_eq!(v.version, "1.2.3");
    assert_eq!(v.authors, vec!["xFanexx".to_string(), "NotKeira".to_string()]);
    assert_eq!(v.repository, "https://github.com/xFanexx/ip-api");
    assert_eq!(v.rust_edition, "2024");
}
