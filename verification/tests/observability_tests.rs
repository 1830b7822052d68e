use praxis::context::HttpFilterContext;
use praxis::message::{Request, Response, HeaderMap};
use praxis::observability::{format_request_id, sanitize_for_log, AccessLogFilter, RequestIdFilter, TcpAccessLogFilter};
use praxis::actions::FilterAction;

#[test]
fn should_log_every_request_by_default() {
    let mut filter = AccessLogFilter::new(1);
    for _ in 0..5 {
        assert!(filter.should_log());
    }
}

#[test]
fn should_log_samples_at_rate() {
    let mut filter = AccessLogFilter::new(4);
    let mut logged = 0;
    for _ in 0..8 {
        if filter.should_log() {
            logged += 1;
        }
    }
    assert_eq!(logged, 2, "1-in-4 over 8 calls = 2 logged");
}

#[test]
fn should_log_first_call_of_each_window() {
    let mut filter = AccessLogFilter::new(3);
    let seen: Vec<bool> = (0..6).map(|_| filter.should_log()).collect();
    assert_eq!(seen, vec![true, false, false, true, false, false]);
}

#[test]
fn sanitize_strips_newlines() {
    assert_eq!(sanitize_for_log("/path\ninjected"), "/pathinjected");
    assert_eq!(sanitize_for_log("/path\r\ninjected"), "/pathinjected");
}

#[test]
fn sanitize_strips_ansi_escapes() {
    assert_eq!(sanitize_for_log("/path\x1b[31mred\x1b[0m"), "/pathred");
}

#[test]
fn sanitize_strips_tabs_and_null() {
    assert_eq!(sanitize_for_log("/path\0\there"), "/pathhere");
}

#[test]
fn sanitize_preserves_normal_paths() {
    assert_eq!(sanitize_for_log("/api/v1/users?q=foo"), "/api/v1/users?q=foo");
}

#[test]
fn sanitize_drops_lone_escape_and_c1_controls() {
    assert_eq!(sanitize_for_log("a\x1bb\u{85}c"), "abc");
    assert_eq!(sanitize_for_log("x\x1b[12"), "x");
}

#[test]
fn request_id_format_is_two_hex_fields() {
    assert_eq!(format_request_id(0x1234, 1), "00000000000012340000000000000001");
    assert_eq!(format_request_id(u64::MAX, 255), "ffffffffffffffff00000000000000ff");
}

#[test]
fn request_id_defaults_header_name() {
    let f = RequestIdFilter::from_config(None);
    assert_eq!(f.header_name, "X-Request-ID");
    let g = RequestIdFilter::from_config(Some("X-Trace".to_string()));
    assert_eq!(g.header_name, "X-Trace");
}

#[test]
fn request_id_forwards_client_value() {
    let mut f = RequestIdFilter::from_config(None);
    let mut req = Request::new("GET", "/");
    req.headers.append("x-request-id", "abc-123");
    let mut ctx = HttpFilterContext::new(req);
    assert!(matches!(f.on_request(&mut ctx), FilterAction::Continue));
    assert_eq!(ctx.extra_request_headers, vec![("X-Request-ID".to_string(), "abc-123".to_string())]);
    assert_eq!(f.counter, 0);
}

#[test]
fn request_id_generates_when_absent() {
    let mut f = RequestIdFilter::from_config(None);
    let mut ctx = HttpFilterContext::new(Request::new("GET", "/"));
    f.on_request(&mut ctx);
    assert_eq!(ctx.extra_request_headers.len(), 1);
    let id = &ctx.extra_request_headers[0].1;
    assert_eq!(id.len(), 32);
    assert!(id.ends_with("0000000000000000"));
    assert_eq!(f.counter, 1);
}

#[test]
fn request_id_echoed_on_response() {
    let f = RequestIdFilter::from_config(None);
    let mut ctx = HttpFilterContext::new(Request::new("GET", "/"));
    ctx.extra_request_headers.push(("x-request-id".to_string(), "gen-1".to_string()));
    ctx.response_header = Some(Response { status: 200, headers: HeaderMap::new() });
    f.on_response(&mut ctx);
    let resp = ctx.response_header.unwrap();
    assert_eq!(resp.headers.get("x-request-id"), Some("gen-1".to_string()));
}

#[test]
fn tcp_access_log_continues() {
    let f = TcpAccessLogFilter::from_config();
    assert!(matches!(f.on_connect(), FilterAction::Continue));
    assert!(f.on_disconnect().is_ok());
}

#[test]
fn generated_request_id_is_echoed_on_response() {
    let mut f = RequestIdFilter::from_config(None);
    let mut ctx = HttpFilterContext::new(Request::new("GET", "/"));
    f.on_request(&mut ctx);
    let forwarded = ctx.extra_request_headers[0].1.clone();
    ctx.response_header = Some(Response { status: 200, headers: HeaderMap::new() });
    f.on_response(&mut ctx);
    assert_eq!(ctx.response_header.unwrap().headers.get("x-request-id"), Some(forwarded));
}

#[test]
fn sanitizing_twice_changes_nothing() {
    let once = sanitize_for_log("/a\x1b[31mred\x1b[0m\n\tb");
    assert_eq!(once, "/aredb");
    assert_eq!(sanitize_for_log(&once), once);
}

#[test]
fn from_config_empty_uses_default_header_name() {
    let filter = RequestIdFilter::from_config(None);
    assert_eq!(filter.name(), "request_id");
    assert_eq!(filter.header_name, "X-Request-ID");
}

#[test]
fn generated_ids_are_unique() {
    let mut filter = RequestIdFilter::from_config(Some(String::new()));
    let id1 = filter.generate_id();
    let id2 = filter.generate_id();
    assert_ne!(id1, id2);
}

#[test]
fn from_config_succeeds() {
    let filter = TcpAccessLogFilter::from_config();
    assert_eq!(filter.name(), "tcp_access_log");
}

#[test]
fn access_log_name() {
    assert_eq!(AccessLogFilter::new(1).name(), "access_log");
}

#[test]
fn one_of_every_window_logs_from_any_start() {
    let mut filter = AccessLogFilter::new(5);
    filter.counter = 3;
    let seen: Vec<bool> = (0..5).map(|_| filter.should_log()).collect();
    assert_eq!(seen.iter().filter(|b| **b).count(), 1);
    assert_eq!(seen, vec![false, false, true, false, false]);
}
