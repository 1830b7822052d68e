use praxis::actions::FilterAction;
use praxis::context::{FilterError, HttpFilterContext};
use praxis::extproc::{
    apply_body_mutation, dispatch_body_response, dispatch_response, header_value_string, immediate_to_rejection,
    is_pseudo_header, parse_timeout_override, request_to_proto_headers, resolve_append_action, response_to_proto_headers,
    validate_config, BodyMutation, BodyMutationKind, BodyResponse, BodySendMode, CommonResponse, ExtProcConfig,
    ExtProcFilter, HeaderAppendAction, HeaderMutation, HeaderSendMode, HeaderValueOption, HeadersResponse,
    ImmediateResponse, Phase, ProcessingModeConfig, ProcessingResponse, ProcessingResponseKind, ProtoHeaderValue,
    DEFAULT_DEFERRED_CLOSE_TIMEOUT_MS, DEFAULT_MESSAGE_TIMEOUT_MS, DEFAULT_STATUS_ON_ERROR,
};
use praxis::message::{HeaderMap, Request, Response};

fn config() -> ExtProcConfig {
    ExtProcConfig {
        allow_content_length_header: false,
        allow_mode_override: false,
        allowed_override_modes: vec![],
        deferred_close_timeout_ms: DEFAULT_DEFERRED_CLOSE_TIMEOUT_MS,
        disable_immediate_response: false,
        forward_rules: None,
        max_message_timeout_ms: None,
        message_timeout_ms: DEFAULT_MESSAGE_TIMEOUT_MS,
        mutation_rules: None,
        observability_mode: false,
        processing_mode: ProcessingModeConfig::default_mode(),
        send_body_without_waiting_for_header_response: false,
        status_on_error: DEFAULT_STATUS_ON_ERROR,
        target: "http://127.0.0.1:50051".to_string(),
    }
}

fn hv(key: &str, value: &str) -> ProtoHeaderValue {
    ProtoHeaderValue { key: key.to_string(), value: value.to_string(), raw_value: vec![] }
}

fn opt(key: &str, value: &str, action: i32) -> HeaderValueOption {
    HeaderValueOption { header: Some(hv(key, value)), append: None, append_action: action }
}

fn err_text(r: Result<(), FilterError>) -> String {
    r.err().unwrap().to_string()
}

#[test]
fn default_config_is_valid() {
    assert!(validate_config(&config()).is_ok());
    let f = ExtProcFilter::from_config(config()).ok().unwrap();
    assert_eq!(f.status_on_error, 500);
    assert_eq!(f.message_timeout_ms, 200);
}

#[test]
fn invalid_core_fields_are_reported() {
    let mut c = config();
    c.status_on_error = 99;
    assert_eq!(err_text(validate_config(&c)), "ext_proc: status_on_error 99 is not a valid HTTP status code (must be 100..=599)");
    let mut c = config();
    c.message_timeout_ms = 0;
    assert_eq!(err_text(validate_config(&c)), "ext_proc: message_timeout_ms must be greater than 0");
    let mut c = config();
    c.deferred_close_timeout_ms = 100;
    assert_eq!(err_text(validate_config(&c)), "ext_proc: deferred_close_timeout_ms (100) must be >= message_timeout_ms (200)");
    let mut c = config();
    c.max_message_timeout_ms = Some(150);
    assert_eq!(err_text(validate_config(&c)), "ext_proc: max_message_timeout_ms (150) must be >= message_timeout_ms (200)");
    let mut c = config();
    c.max_message_timeout_ms = Some(0);
    assert_eq!(err_text(validate_config(&c)), "ext_proc: max_message_timeout_ms must be greater than 0");
}

#[test]
fn unsupported_modes_are_reported() {
    let mut c = config();
    c.processing_mode.request_body_mode = BodySendMode::BufferedPartial;
    assert_eq!(err_text(validate_config(&c)), "ext_proc: request_body_mode 'buffered_partial' is not yet supported (only 'none')");
    let mut c = config();
    c.processing_mode.response_header_mode = HeaderSendMode::Skip;
    assert_eq!(err_text(validate_config(&c)), "ext_proc: response_header_mode 'skip' is not yet supported");
    let mut c = config();
    c.observability_mode = true;
    assert_eq!(err_text(validate_config(&c)), "ext_proc: observability_mode is not yet supported");
}

#[test]
fn call_or_reject_uses_status_on_error() {
    let f = ExtProcFilter::from_config(config()).ok().unwrap();
    assert!(matches!(f.call_or_reject(Ok(FilterAction::Continue)), FilterAction::Continue));
    assert!(matches!(f.call_or_reject(Err(FilterError::new("x"))), FilterAction::Reject(r) if r.status == 500));
}

#[test]
fn request_headers_include_pseudo_headers() {
    let mut req = Request::new("GET", "/a");
    req.query = Some("b=1".to_string());
    req.headers.append("host", "example.com");
    req.headers.append("x-one", "1");
    let mut ctx = HttpFilterContext::new(req);
    ctx.downstream_tls = true;
    let hs = request_to_proto_headers(&ctx);
    let got: Vec<(String, String)> = hs.headers.iter().map(|h| (h.key.clone(), h.value.clone())).collect();
    let want: Vec<(String, String)> = [
        (":method", "GET"),
        (":path", "/a?b=1"),
        (":scheme", "https"),
        (":authority", "example.com"),
        ("host", "example.com"),
        ("x-one", "1"),
    ]
    .iter()
    .map(|(a, b)| (a.to_string(), b.to_string()))
    .collect();
    assert_eq!(got, want);
    assert!(!hs.end_of_stream);
}

#[test]
fn response_headers_start_with_status() {
    let mut ctx = HttpFilterContext::new(Request::new("GET", "/"));
    let mut h = HeaderMap::new();
    h.append("content-type", "text/plain");
    ctx.response_header = Some(Response { status: 404, headers: h });
    let hs = response_to_proto_headers(&ctx);
    assert_eq!(hs.headers[0].key, ":status");
    assert_eq!(hs.headers[0].value, "404");
    assert_eq!(hs.headers[1].key, "content-type");
    let empty = response_to_proto_headers(&HttpFilterContext::new(Request::new("GET", "/")));
    assert!(empty.headers.is_empty());
}

#[test]
fn append_action_resolution() {
    assert_eq!(resolve_append_action(&opt("a", "b", 0)), HeaderAppendAction::AppendIfExistsOrAdd);
    assert_eq!(resolve_append_action(&opt("a", "b", 2)), HeaderAppendAction::OverwriteIfExistsOrAdd);
    assert_eq!(resolve_append_action(&opt("a", "b", 9)), HeaderAppendAction::AppendIfExistsOrAdd);
    let legacy = HeaderValueOption { header: Some(hv("a", "b")), append: Some(false), append_action: 0 };
    assert_eq!(resolve_append_action(&legacy), HeaderAppendAction::OverwriteIfExistsOrAdd);
    assert!(is_pseudo_header(":path"));
    assert!(!is_pseudo_header("path"));
}

#[test]
fn raw_value_preferred() {
    let h = ProtoHeaderValue { key: "k".into(), value: "text".into(), raw_value: b"raw".to_vec() };
    assert_eq!(header_value_string(&h), "raw");
    assert_eq!(header_value_string(&hv("k", "text")), "text");
}

#[test]
fn request_header_mutation_routes_to_queues() {
    let mut req = Request::new("GET", "/");
    req.headers.append("x-present", "1");
    let mut ctx = HttpFilterContext::new(req);
    let m = HeaderMutation {
        set_headers: vec![
            opt("x-append", "a", 0),
            opt("x-present", "b", 1),
            opt("x-absent", "c", 1),
            opt("X-Set", "d", 2),
            opt("x-missing", "e", 3),
            opt(":path", "/evil", 0),
        ],
        remove_headers: vec!["X-Drop".to_string(), ":authority".to_string()],
    };
    let resp = ProcessingResponse {
        response: Some(ProcessingResponseKind::RequestHeaders(HeadersResponse {
            response: Some(CommonResponse { header_mutation: Some(m), body_mutation: None }),
        })),
        override_message_timeout: None,
    };
    assert!(matches!(dispatch_response(&resp, &mut ctx, Phase::Request), Ok(FilterAction::Continue)));
    assert_eq!(
        ctx.extra_request_headers,
        vec![("x-append".to_string(), "a".to_string()), ("x-absent".to_string(), "c".to_string())]
    );
    assert_eq!(ctx.request_headers_to_set, vec![("x-set".to_string(), "d".to_string())]);
    assert_eq!(ctx.request_headers_to_remove, vec!["x-drop".to_string()]);
}

#[test]
fn response_header_mutation_marks_modified() {
    let mut ctx = HttpFilterContext::new(Request::new("GET", "/"));
    let mut h = HeaderMap::new();
    h.append("server", "upstream");
    ctx.response_header = Some(Response { status: 200, headers: h });
    let m = HeaderMutation { set_headers: vec![opt("server", "praxis", 2)], remove_headers: vec![] };
    let resp = ProcessingResponse {
        response: Some(ProcessingResponseKind::ResponseHeaders(HeadersResponse {
            response: Some(CommonResponse { header_mutation: Some(m), body_mutation: None }),
        })),
        override_message_timeout: None,
    };
    assert!(matches!(dispatch_response(&resp, &mut ctx, Phase::Response), Ok(FilterAction::Continue)));
    assert!(ctx.response_headers_modified);
    assert_eq!(ctx.response_header.unwrap().headers.get_all("server"), vec!["praxis".to_string()]);
}

#[test]
fn unexpected_variant_is_an_error() {
    let mut ctx = HttpFilterContext::new(Request::new("GET", "/"));
    let resp = ProcessingResponse { response: Some(ProcessingResponseKind::RequestTrailers), override_message_timeout: None };
    let err = dispatch_response(&resp, &mut ctx, Phase::Request).err().unwrap();
    assert_eq!(err.to_string(), "ext_proc: unexpected response type 'RequestTrailers' during request headers phase");
    let resp2 = ProcessingResponse {
        response: Some(ProcessingResponseKind::ResponseHeaders(HeadersResponse { response: None })),
        override_message_timeout: None,
    };
    let err2 = dispatch_response(&resp2, &mut ctx, Phase::Request).err().unwrap();
    assert_eq!(err2.to_string(), "ext_proc: unexpected response type 'ResponseHeaders' during request headers phase");
}

#[test]
fn immediate_response_becomes_rejection() {
    let imm = ImmediateResponse {
        status: Some(403),
        headers: Some(HeaderMutation { set_headers: vec![opt("x-reason", "policy", 0)], remove_headers: vec![] }),
        body: "denied".to_string(),
    };
    match immediate_to_rejection(&imm) {
        FilterAction::Reject(r) => {
            assert_eq!(r.status, 403);
            assert_eq!(r.body, Some(b"denied".to_vec()));
            assert_eq!(r.headers, vec![("x-reason".to_string(), "policy".to_string())]);
        },
        _ => panic!("expected rejection"),
    }
    let odd = ImmediateResponse { status: Some(42), headers: None, body: String::new() };
    assert!(matches!(immediate_to_rejection(&odd), FilterAction::Reject(r) if r.status == 500 && r.body.is_none()));
    let none = ImmediateResponse { status: None, headers: None, body: String::new() };
    assert!(matches!(immediate_to_rejection(&none), FilterAction::Reject(r) if r.status == 200));
}

#[test]
fn body_mutations() {
    let mut body = Some(b"old".to_vec());
    apply_body_mutation(&BodyMutation { mutation: Some(BodyMutationKind::Body(b"new".to_vec())) }, &mut body);
    assert_eq!(body, Some(b"new".to_vec()));
    apply_body_mutation(&BodyMutation { mutation: Some(BodyMutationKind::ClearBody(false)) }, &mut body);
    assert_eq!(body, Some(b"new".to_vec()));
    apply_body_mutation(&BodyMutation { mutation: Some(BodyMutationKind::ClearBody(true)) }, &mut body);
    assert_eq!(body, None);
    let mut ctx = HttpFilterContext::new(Request::new("POST", "/"));
    let mut b2 = Some(b"x".to_vec());
    let resp = ProcessingResponse {
        response: Some(ProcessingResponseKind::RequestBody(BodyResponse {
            response: Some(CommonResponse {
                header_mutation: None,
                body_mutation: Some(BodyMutation { mutation: Some(BodyMutationKind::Body(b"y".to_vec())) }),
            }),
        })),
        override_message_timeout: None,
    };
    assert!(matches!(dispatch_body_response(&resp, &mut ctx, &mut b2, Phase::Request), Ok(FilterAction::Continue)));
    assert_eq!(b2, Some(b"y".to_vec()));
}

#[test]
fn timeout_override_is_capped() {
    let r = ProcessingResponse { response: None, override_message_timeout: Some((2, 500)) };
    assert_eq!(parse_timeout_override(&r, None), None);
    assert_eq!(parse_timeout_override(&r, Some(10_000)), Some(2_000_000_500));
    assert_eq!(parse_timeout_override(&r, Some(1_000)), Some(1_000_000_000));
    let zero = ProcessingResponse { response: None, override_message_timeout: Some((0, 0)) };
    assert_eq!(parse_timeout_override(&zero, Some(1_000)), None);
    let neg = ProcessingResponse { response: None, override_message_timeout: Some((-5, 7)) };
    assert_eq!(parse_timeout_override(&neg, Some(1_000)), Some(7));
}
