use ip_api::security::{
    is_https, is_valid_ip, is_valid_user_agent, response_headers, sanitize_ip, SecurityHeaders,
};

#[test]
fn test_valid_ipv4() {
    assert!(is_valid_ip("192.168.1.1"));
    assert!(is_valid_ip("8.8.8.8"));
}

#[test]
fn test_valid_ipv6() {
    assert!(is_valid_ip("::1"));
    assert!(is_valid_ip("2001:4860:4860::8888"));
}

#[test]
fn test_invalid_ip() {
    assert!(!is_valid_ip("not.an.ip.address"));
    assert!(!is_valid_ip("256.256.256.256"));
    assert!(!is_valid_ip(""));
}

#[test]
fn test_sanitize_ip() {
    assert_eq!(
        sanitize_ip("  192.168.1.1  "),
        Some("192.168.1.1".to_string())
    );
    assert_eq!(sanitize_ip("invalid"), None);
}

#[test]
fn test_user_agent_validation() {
    assert!(is_valid_user_agent("Mozilla/5.0"));
    assert!(!is_valid_user_agent("Bad\0Agent"));
    assert!(!is_valid_user_agent(&"a".repeat(600)));
}

#[test]
fn sanitize_trims_tabs_and_newlines() {
    assert_eq!(sanitize_ip("\t::1\n"), Some("::1".to_string()));
    assert_eq!(sanitize_ip("   "), None);
}

#[test]
fn user_agent_length_limit_is_in_bytes() {
    assert!(is_valid_user_agent(&"a".repeat(512)));
    assert!(!is_valid_user_agent(&"a".repeat(513)));
    // 256 two-byte characters fill the limit exactly; one more exceeds it.
    assert!(is_valid_user_agent(&"\u{e9}".repeat(256)));
    assert!(!is_valid_user_agent(&"\u{e9}".repeat(257)));
}

#[test]
fn user_agent_tab_is_allowed_other_controls_are_not() {
    assert!(is_valid_user_agent("Agent\tWith Tab"));
    assert!(!is_valid_user_agent("Agent\nNewline"));
    assert!(!is_valid_user_agent("Agent\u{7f}"));
    assert!(!is_valid_user_agent("Agent\u{85}"));
    assert!(is_valid_user_agent(""));
}

#[test]
fn security_header_values() {
    assert_eq!(SecurityHeaders::x_content_type_options(), "nosniff");
    assert_eq!(SecurityHeaders::x_frame_options(), "DENY");
    assert_eq!(SecurityHeaders::x_xss_protection(), "1; mode=block");
    assert_eq!(SecurityHeaders::referrer_policy(), "strict-origin-when-cross-origin");
    assert_eq!(
        SecurityHeaders::content_security_policy(),
        "default-src 'none'; frame-ancestors 'none'"
    );
    assert_eq!(
        SecurityHeaders::strict_transport_security(),
        "max-age=31536000; includeSubDomains"
    );
}

#[test]
fn response_headers_add_hsts_only_over_https() {
    let plain = response_headers(false);
    assert_eq!(plain.len(), 5);
    assert_eq!(plain[0], ("x-content-type-options", "nosniff"));
    assert_eq!(plain[4], ("content-security-policy", "default-src 'none'; frame-ancestors 'none'"));
    let secure = response_headers(true);
    assert_eq!(secure.len(), 6);
    assert_eq!(secure[5], ("strict-transport-security", "max-age=31536000; includeSubDomains"));
    assert!(is_https(Some("https")));
    assert!(!is_https(Some("http")));
    assert!(!is_https(Some("HTTPS")));
    assert!(!is_https(None));
}
