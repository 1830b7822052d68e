use praxis::actions::FilterAction;
use praxis::body::{BodyAccess, BodyMode};
use praxis::context::HttpFilterContext;
use praxis::fallback::{
    after_callout, build_callout_request, callout_config, collect_forward_headers, exhausted, prepare_body,
    register_filters, resolve_headers, success_to_rejection, CalloutResponse, CalloutResult, CircuitBreakerCfg,
    FailureMode, FallbackStep, ProviderFallbackConfig, ProviderFallbackFilter, TargetConfig, DEFAULT_MAX_BODY_BYTES,
    DEFAULT_TIMEOUT_MS,
};
use praxis::message::Request;
use praxis::registry::{FilterFactory, FilterRegistry};

fn target(url: &str, model: Option<&str>, headers: &[(&str, &str)]) -> TargetConfig {
    TargetConfig {
        url: url.to_string(),
        model_override: model.map(|m| m.to_string()),
        timeout_ms: DEFAULT_TIMEOUT_MS,
        headers: headers.iter().map(|(a, b)| (a.to_string(), b.to_string())).collect(),
    }
}

fn config(targets: Vec<TargetConfig>) -> ProviderFallbackConfig {
    ProviderFallbackConfig { targets, max_body_bytes: DEFAULT_MAX_BODY_BYTES, circuit_breaker: None }
}

#[test]
fn from_config_rejects_empty_targets() {
    let err = ProviderFallbackFilter::from_config(config(vec![])).err().unwrap();
    assert_eq!(err.to_string(), "provider_fallback: at least one target is required");
}

#[test]
fn body_mode_is_stream_buffer() {
    let f = ProviderFallbackFilter::from_config(config(vec![target("http://a/v1", None, &[])])).ok().unwrap();
    assert_eq!(f.request_body_access(), BodyAccess::ReadWrite);
    assert_eq!(f.request_body_mode(), BodyMode::StreamBuffer { max_bytes: Some(10_485_760) });
    assert!(f.needs_request_context());
    assert_eq!(f.name(), "provider_fallback");
}

#[test]
fn invalid_static_header_rejected() {
    let err = ProviderFallbackFilter::from_config(config(vec![target("http://a", None, &[("bad name", "x")])]))
        .err()
        .unwrap();
    assert_eq!(err.to_string(), "provider_fallback: invalid header name 'bad name': invalid HTTP header name");
    let ok = resolve_headers(&vec![("Authorization".to_string(), "Bearer t".to_string())]).ok().unwrap();
    assert_eq!(ok, vec![("authorization".to_string(), "Bearer t".to_string())]);
}

#[test]
fn prepare_body_without_override_clones() {
    let body = br#"{"model":"gpt-4"}"#;
    assert_eq!(prepare_body(body, None), body.to_vec());
}

#[test]
fn prepare_body_with_override_rewrites_model() {
    let body = br#"{"model":"gpt-4","messages":[]}"#;
    let out = prepare_body(body, Some("llama3"));
    let parsed: serde_json::Value = serde_json::from_slice(&out).unwrap();
    assert_eq!(parsed["model"], "llama3");
    assert!(parsed["messages"].is_array());
}

#[test]
fn prepare_body_override_adds_model_when_absent() {
    let out = prepare_body(br#"{"messages":[]}"#, Some("llama3"));
    let parsed: serde_json::Value = serde_json::from_slice(&out).unwrap();
    assert_eq!(parsed["model"], "llama3");
}

#[test]
fn prepare_body_override_with_invalid_json_passes_through() {
    let body = b"not json";
    assert_eq!(prepare_body(body, Some("llama3")), body.to_vec());
}

#[test]
fn forward_headers_and_request() {
    let mut req = Request::new("POST", "/");
    req.headers.append("accept", "application/json");
    req.headers.append("content-type", "application/json");
    req.headers.append("x-request-id", "r1");
    req.headers.append("x-other", "o");
    let ctx = HttpFilterContext::new(req);
    let fwd = collect_forward_headers(&ctx);
    assert_eq!(
        fwd,
        vec![
            ("content-type".to_string(), "application/json".to_string()),
            ("accept".to_string(), "application/json".to_string()),
            ("x-request-id".to_string(), "r1".to_string()),
        ]
    );
    let r = build_callout_request("POST", "http://t", &fwd, &vec![("authorization".into(), "k".into())], b"b".to_vec());
    assert_eq!(r.headers.len(), 4);
    assert_eq!(r.headers[3].0, "authorization");
    assert_eq!(r.depth, 0);
    assert_eq!(r.body, Some(b"b".to_vec()));
}

#[test]
fn steps_try_targets_in_order_then_give_up() {
    let f = ProviderFallbackFilter::from_config(config(vec![
        target("http://first", None, &[]),
        target("http://second", Some("m"), &[]),
    ]))
    .ok()
    .unwrap();
    match f.step(0, "POST", b"{}", &vec![]) {
        FallbackStep::Call { index, request } => {
            assert_eq!(index, 0);
            assert_eq!(request.url, "http://first");
        },
        _ => panic!("expected a call"),
    }
    match f.step(1, "POST", b"{}", &vec![]) {
        FallbackStep::Call { request, .. } => {
            let parsed: serde_json::Value = serde_json::from_slice(request.body.as_ref().unwrap()).unwrap();
            assert_eq!(parsed["model"], "m");
        },
        _ => panic!("expected a call"),
    }
    match f.step(2, "POST", b"{}", &vec![]) {
        FallbackStep::Done(FilterAction::Reject(r)) => {
            assert_eq!(r.status, 502);
            assert_eq!(r.body, Some(b"all provider targets exhausted".to_vec()));
            assert_eq!(r.headers, vec![("content-type".to_string(), "text/plain".to_string())]);
        },
        _ => panic!("expected exhaustion"),
    }
    assert!(after_callout(CalloutResult::Failed).is_none());
    assert!(after_callout(CalloutResult::Rejected).is_none());
}

#[test]
fn success_is_passed_downstream() {
    let resp = CalloutResponse {
        status: 201,
        headers: vec![("x-a".to_string(), "1".to_string()), ("x-bin".to_string(), "\u{1}".to_string())],
        body: b"ok".to_vec(),
    };
    match success_to_rejection(resp) {
        FilterAction::Reject(r) => {
            assert_eq!(r.status, 201);
            assert_eq!(r.headers, vec![("x-a".to_string(), "1".to_string())]);
            assert_eq!(r.body, Some(b"ok".to_vec()));
        },
        _ => panic!("expected rejection"),
    }
    assert!(matches!(exhausted(), FilterAction::Reject(r) if r.status == 502));
}

#[test]
fn callout_settings() {
    let t = target("http://a", None, &[]);
    let c = callout_config(&t, &Some(CircuitBreakerCfg { consecutive_failures: 3, recovery_window_ms: 1000 }));
    assert_eq!(c.failure_mode, FailureMode::Open);
    assert_eq!(c.max_depth, 1);
    assert_eq!(c.status_on_error, 502);
    assert_eq!(c.timeout_ms, 30_000);
    assert_eq!(c.circuit_breaker.unwrap().consecutive_failures, 3);
}

#[test]
fn register_filters_adds_provider_fallback() {
    let mut registry = FilterRegistry::with_builtins();
    register_filters(&mut registry, 7);
    assert!(registry.available_filters().contains(&"provider_fallback"));
    assert!(matches!(registry.create("provider_fallback"), Ok(FilterFactory::Http(7))));
}

#[test]
fn from_config_minimal() {
    let cfg = config(vec![target("http://localhost:11434/v1/chat/completions", None, &[])]);
    let filter = ProviderFallbackFilter::from_config(cfg).ok().unwrap();
    assert_eq!(filter.name(), "provider_fallback");
}

#[test]
fn from_config_full() {
    let mut local = target("http://localhost:11434/v1/chat/completions", None, &[]);
    local.timeout_ms = 10000;
    let mut remote = target(
        "https://openrouter.ai/api/v1/chat/completions",
        Some("deepseek/deepseek-chat"),
        &[("Authorization", "Bearer test-key")],
    );
    remote.timeout_ms = 30000;
    let cfg = ProviderFallbackConfig {
        targets: vec![local, remote],
        max_body_bytes: 2097152,
        circuit_breaker: Some(CircuitBreakerCfg { consecutive_failures: 5, recovery_window_ms: 60000 }),
    };
    let filter = ProviderFallbackFilter::from_config(cfg).ok().unwrap();
    assert_eq!(filter.name(), "provider_fallback");
    assert_eq!(filter.max_body_bytes, 2097152);
    assert_eq!(filter.targets[1].headers, vec![("authorization".to_string(), "Bearer test-key".to_string())]);
}

#[test]
fn registered_filter_creates_from_valid_config() {
    let mut registry = FilterRegistry::with_builtins();
    register_filters(&mut registry, 3);
    let result = registry.create("provider_fallback");
    assert!(result.is_ok(), "should create from valid config");
    let cfg = config(vec![target("http://localhost:11434/v1/chat/completions", None, &[])]);
    assert!(ProviderFallbackFilter::from_config(cfg).is_ok());
}
