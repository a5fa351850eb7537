//! Dispatch tests: the CONNECT tunnel and forward paths, the proxy's own
//! responses, and the request-target parsing they rest on.

use proxy_engine::dispatch::{plan_body, plan_request, plan_status_code, RequestPlan};
use proxy_engine::filter::TrafficFilter;
use proxy_engine::logger::{LogLevel, Logger};
use proxy_engine::proxy::ProxyRequestLog;
use proxy_engine::text::{contains_substring, parse_u16, u64_to_string};
use proxy_engine::uri::{connect_authority, forward_target};

#[test]
fn connect_with_socket_address_plans_a_tunnel() {
    let f = TrafficFilter::default();
    let d = plan_request("CONNECT", "host.test:443", &f);
    match &d.plan {
        RequestPlan::ConnectTunnel(authority) => assert_eq!(authority, "host.test:443"),
        _ => panic!("expected a tunnel plan"),
    }
    assert_eq!(plan_status_code(&d.plan), 200);
    assert_eq!(plan_body(&d.plan), "");
    assert!(d.record.is_none());
}

#[test]
fn connect_without_authority_is_bad_request() {
    let f = TrafficFilter::default();
    let d = plan_request("CONNECT", "/bogus", &f);
    assert!(matches!(d.plan, RequestPlan::ConnectBadRequest));
    assert_eq!(plan_status_code(&d.plan), 400);
    assert_eq!(plan_body(&d.plan), "CONNECT must be to a socket address");
}

#[test]
fn forward_uri_without_host_is_bad_request() {
    let f = TrafficFilter::default();
    let d = plan_request("GET", "/just/a/path", &f);
    assert!(matches!(d.plan, RequestPlan::ForwardBadRequest));
    assert_eq!(plan_status_code(&d.plan), 400);
    assert_eq!(plan_body(&d.plan), "Host address could not be processed.");
}

#[test]
fn blocked_response_is_403_with_fixed_body() {
    let plan = RequestPlan::Blocked;
    assert_eq!(plan_status_code(&plan), 403);
    assert_eq!(plan_body(&plan), "Oopsie Whoopsie!");
}

#[test]
fn connect_is_classified_and_blockable_too() {
    let mut f = TrafficFilter::default();
    f.set_enabled(true);
    f.set_filter_list(vec!["host.test".to_string()]);
    let d = plan_request("CONNECT", "host.test:443", &f);
    assert!(matches!(d.plan, RequestPlan::Blocked));
    let r = d.record.expect("enabled filter must record the CONNECT");
    assert_eq!(r.method, "CONNECT");
    assert_eq!(r.request, "host.test:443");
    assert!(r.blocked);
}

#[test]
fn forward_target_reads_host_and_port() {
    assert_eq!(
        forward_target("http://example.test/"),
        Some(("example.test".to_string(), 80))
    );
    assert_eq!(
        forward_target("http://example.test"),
        Some(("example.test".to_string(), 80))
    );
    assert_eq!(
        forward_target("http://h.test:8080/x?q=1"),
        Some(("h.test".to_string(), 8080))
    );
    assert_eq!(
        forward_target("https://user@h.test:444/"),
        Some(("h.test".to_string(), 444))
    );
}

#[test]
fn forward_target_rejects_unusable_targets() {
    assert_eq!(forward_target("/origin/form"), None);
    assert_eq!(forward_target("example.test"), None);
    assert_eq!(forward_target("http:///nohost"), None);
    assert_eq!(forward_target("http://h.test:notaport/"), None);
    assert_eq!(forward_target("http://h.test:99999/"), None);
}

#[test]
fn connect_authority_requires_host_and_port() {
    assert_eq!(
        connect_authority("host.test:443"),
        Some("host.test:443".to_string())
    );
    assert_eq!(connect_authority("host.test"), None);
    assert_eq!(connect_authority(":443"), None);
    assert_eq!(connect_authority("host.test:"), None);
    assert_eq!(connect_authority("host.test:65536"), None);
    assert_eq!(connect_authority("ho/st.test:443"), None);
    assert_eq!(connect_authority("u@host.test:443"), None);
}

#[test]
fn parse_u16_accepts_exactly_decimal_u16() {
    assert_eq!(parse_u16("0"), Some(0));
    assert_eq!(parse_u16("8080"), Some(8080));
    assert_eq!(parse_u16("65535"), Some(65535));
    assert_eq!(parse_u16("65536"), None);
    assert_eq!(parse_u16(""), None);
    assert_eq!(parse_u16("12a"), None);
    assert_eq!(parse_u16("+1"), None);
    assert_eq!(parse_u16("-1"), None);
    assert_eq!(parse_u16("00080"), Some(80));
}

#[test]
fn numerals_render_in_decimal() {
    assert_eq!(u64_to_string(0), "0");
    assert_eq!(u64_to_string(7), "7");
    assert_eq!(u64_to_string(42), "42");
    assert_eq!(u64_to_string(100), "100");
    assert_eq!(u64_to_string(65535), "65535");
}

#[test]
fn substring_search_is_plain_and_literal() {
    assert!(contains_substring("http://foo.bar/", "foo"));
    assert!(contains_substring("abc", ""));
    assert!(contains_substring("abc", "abc"));
    assert!(!contains_substring("abc", "abcd"));
    assert!(!contains_substring("abc", "B"));
}

#[test]
fn blocked_flag_renders_as_text() {
    let blocked = ProxyRequestLog {
        method: "GET".to_string(),
        request: "http://a.test/".to_string(),
        blocked: true,
    };
    assert_eq!(blocked.to_blocked_string(), "BLOCKED");
    let allowed = ProxyRequestLog { blocked: false, ..blocked };
    assert_eq!(allowed.to_blocked_string(), "ALLOWED");
}

#[test]
fn logger_emits_at_or_above_its_level() {
    let mut logger = Logger::default();
    assert!(logger.should_emit(LogLevel::Info));
    assert!(logger.should_emit(LogLevel::Error));
    assert!(!logger.should_emit(LogLevel::Debug));
    logger.set_level(LogLevel::Warning);
    assert!(!logger.should_emit(LogLevel::Info));
    assert!(logger.should_emit(LogLevel::Warning));
}
