use praxis::actions::FilterAction;
use praxis::body::{BodyAccess, BodyMode};
use praxis::context::HttpFilterContext;
use praxis::message::Request;
use praxis::payload::JsonBodyFieldFilter;

fn make_filter(field: &str, header: &str) -> JsonBodyFieldFilter {
    JsonBodyFieldFilter::from_config(field, header).ok().unwrap()
}

fn ctx() -> HttpFilterContext {
    HttpFilterContext::new(Request::new("POST", "/v1/chat"))
}

#[test]
fn body_access_is_read_only() {
    let filter = make_filter("f", "H");
    assert_eq!(filter.request_body_access(), BodyAccess::ReadOnly);
}

#[test]
fn json_body_field_body_mode_is_stream_buffer() {
    let filter = make_filter("f", "H");
    assert_eq!(filter.request_body_mode(), BodyMode::StreamBuffer { max_bytes: None });
}

#[test]
fn reject_empty_field() {
    let err = JsonBodyFieldFilter::from_config("", "X-Model").err().expect("should fail");
    assert!(err.to_string().contains("'field' must not be empty"));
}

#[test]
fn reject_empty_header() {
    let err = JsonBodyFieldFilter::from_config("model", "").err().expect("should fail");
    assert!(err.to_string().contains("'header' must not be empty"));
}

#[test]
fn extracts_field_from_complete_json() {
    let f = make_filter("model", "X-Model");
    let mut c = ctx();
    let action = f.on_request_body(&mut c, Some(br#"{"model":"gpt-4","prompt":"hi"}"#.as_slice()));
    assert!(matches!(action, FilterAction::Release));
    assert_eq!(c.extra_request_headers, vec![("X-Model".to_string(), "gpt-4".to_string())]);
}

#[test]
fn returns_continue_on_incomplete_json() {
    let f = make_filter("model", "X-Model");
    let mut c = ctx();
    let action = f.on_request_body(&mut c, Some(br#"{"model":"gpt-4","pro"#.as_slice()));
    assert!(matches!(action, FilterAction::Continue));
    assert!(c.extra_request_headers.is_empty());
}

#[test]
fn returns_continue_when_field_missing() {
    let f = make_filter("model", "X-Model");
    let mut c = ctx();
    let action = f.on_request_body(&mut c, Some(br#"{"prompt":"hello","temperature":0.7}"#.as_slice()));
    assert!(matches!(action, FilterAction::Continue));
    assert!(c.extra_request_headers.is_empty());
}

#[test]
fn promotes_to_configured_header() {
    let f = make_filter("user_id", "X-User-Id");
    let mut c = ctx();
    let action = f.on_request_body(&mut c, Some(br#"{"user_id":"abc-123","data":"payload"}"#.as_slice()));
    assert!(matches!(action, FilterAction::Release));
    assert_eq!(c.extra_request_headers.len(), 1);
    assert_eq!(c.extra_request_headers[0], ("X-User-Id".to_string(), "abc-123".to_string()));
}

#[test]
fn on_request_is_noop() {
    let f = make_filter("model", "X-Model");
    assert!(matches!(f.on_request(), FilterAction::Continue));
}

#[test]
fn returns_continue_on_none_body() {
    let f = make_filter("model", "X-Model");
    let mut c = ctx();
    assert!(matches!(f.on_request_body(&mut c, None), FilterAction::Continue));
}

#[test]
fn numeric_field_promoted_as_string() {
    let f = make_filter("count", "X-Count");
    let mut c = ctx();
    let action = f.on_request_body(&mut c, Some(br#"{"count":42}"#.as_slice()));
    assert!(matches!(action, FilterAction::Release));
    assert_eq!(c.extra_request_headers[0], ("X-Count".to_string(), "42".to_string()));
}

#[test]
fn promote_field_decides_on_extracted_text() {
    let f = make_filter("model", "X-Model");
    let mut c = ctx();
    assert!(matches!(f.promote_field(&mut c, None), FilterAction::Continue));
    assert!(c.extra_request_headers.is_empty());
    assert!(matches!(f.promote_field(&mut c, Some("m1".to_string())), FilterAction::Release));
    assert_eq!(c.extra_request_headers, vec![("X-Model".to_string(), "m1".to_string())]);
}
