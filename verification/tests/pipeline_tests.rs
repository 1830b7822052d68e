use praxis::actions::{FilterAction, Rejection};
use praxis::body::{BodyAccess, BodyMode};
use praxis::condition::{should_execute, should_execute_response, Condition, ConditionMatch, ResponseCondition, ResponseConditionMatch};
use praxis::context::FilterError;
use praxis::message::{HeaderMap, Request, Response};
use praxis::pipeline::{
    compute_body_capabilities, connect_outcome, merge_optional_limits, FilterPipeline, FilterProfile, PipelineFilter,
};

fn plain(profile: FilterProfile) -> PipelineFilter {
    PipelineFilter { filter: profile, conditions: vec![], response_conditions: vec![] }
}

fn when_path(prefix: &str) -> Condition {
    Condition::When(ConditionMatch { path: None, path_prefix: Some(prefix.to_string()), methods: None, headers: None })
}

#[test]
fn merge_limits_keeps_smallest() {
    assert_eq!(merge_optional_limits(Some(5), Some(3)), Some(3));
    assert_eq!(merge_optional_limits(None, Some(3)), Some(3));
    assert_eq!(merge_optional_limits(Some(5), None), Some(5));
    assert_eq!(merge_optional_limits(None, None), None);
}

#[test]
fn capabilities_from_body_filters() {
    let mut reader = FilterProfile::http("reader");
    reader.request_body_access = BodyAccess::ReadOnly;
    reader.request_body_mode = BodyMode::StreamBuffer { max_bytes: Some(100) };
    let mut writer = FilterProfile::http("writer");
    writer.request_body_access = BodyAccess::ReadWrite;
    writer.request_body_mode = BodyMode::Buffer { max_bytes: 50 };
    let caps = compute_body_capabilities(&[plain(reader), plain(writer)]);
    assert!(caps.needs_request_body);
    assert!(caps.any_request_body_writer);
    assert!(!caps.needs_response_body);
    assert_eq!(caps.request_body_mode, BodyMode::Buffer { max_bytes: 50 });
}

#[test]
fn empty_pipeline_needs_nothing() {
    let p = FilterPipeline::build(vec![]);
    assert!(p.is_empty());
    assert!(!p.needs_body_filters());
}

#[test]
fn body_limits_force_buffering() {
    let mut p = FilterPipeline::build(vec![plain(FilterProfile::http("router"))]);
    p.apply_body_limits(Some(1024), None);
    assert!(p.needs_body_filters());
    assert_eq!(p.body_capabilities().request_body_mode, BodyMode::Buffer { max_bytes: 1024 });
    assert_eq!(p.body_capabilities().response_body_mode, BodyMode::Stream);
}

#[test]
fn ordering_warnings_for_lb_without_router() {
    let p = FilterPipeline::build(vec![plain(FilterProfile::http("load_balancer"))]);
    let w = p.ordering_warnings();
    assert_eq!(w.len(), 1);
    assert!(w[0].contains("without a preceding router"));
}

#[test]
fn ordering_warnings_for_static_response_and_duplicates() {
    let p = FilterPipeline::build(vec![
        plain(FilterProfile::http("router")),
        plain(FilterProfile::http("static_response")),
        plain(FilterProfile::http("router")),
        plain(FilterProfile::http("load_balancer")),
    ]);
    let w = p.ordering_warnings();
    assert_eq!(
        w,
        vec![
            "unconditional static_response at position 1 makes subsequent filters unreachable: router, load_balancer"
                .to_string(),
            "multiple router filters in chain (2); only the last one's cluster selection will take effect".to_string(),
        ]
    );
}

#[test]
fn security_filter_with_conditions_warns() {
    let p = FilterPipeline::build(vec![PipelineFilter {
        filter: FilterProfile::http("ip_acl"),
        conditions: vec![when_path("/api")],
        response_conditions: vec![],
    }]);
    assert_eq!(
        p.ordering_warnings(),
        vec!["security filter 'ip_acl' at position 0 has request conditions; it will be bypassed for non-matching requests".to_string()]
    );
}

#[test]
fn tcp_phase_scheduling() {
    let p = FilterPipeline::build(vec![
        plain(FilterProfile::tcp("a")),
        plain(FilterProfile::http("h")),
        plain(FilterProfile::tcp("b")),
    ]);
    assert_eq!(p.next_tcp_filter(0), Some(0));
    assert_eq!(p.next_tcp_filter(1), Some(2));
    assert_eq!(p.next_tcp_filter(3), None);
    assert_eq!(p.prev_tcp_filter(3), Some(2));
    assert_eq!(p.prev_tcp_filter(2), Some(0));
    assert_eq!(p.prev_tcp_filter(0), None);
    assert!(connect_outcome(Ok(FilterAction::Continue)).is_none());
    assert!(connect_outcome(Ok(FilterAction::Release)).is_none());
    assert!(matches!(connect_outcome(Ok(FilterAction::Reject(Rejection::status(403)))), Some(Ok(FilterAction::Reject(r))) if r.status == 403));
    assert!(matches!(connect_outcome(Err(FilterError::new("tcp filter error"))), Some(Err(_))));
}

#[test]
fn condition_when_and_unless() {
    let req = Request::new("GET", "/api/users");
    assert!(should_execute(&[when_path("/api")], &req));
    assert!(!should_execute(&[when_path("/admin")], &req));
    let unless = Condition::Unless(ConditionMatch { path: None, path_prefix: Some("/api".into()), methods: None, headers: None });
    assert!(!should_execute(&[unless], &req));
    assert!(should_execute(&[], &req));
    let methods = Condition::When(ConditionMatch { path: None, path_prefix: None, methods: Some(vec!["get".into()]), headers: None });
    assert!(should_execute(&[methods], &req));
}

#[test]
fn response_condition_on_status() {
    let resp = Response { status: 200, headers: HeaderMap::new() };
    let when200 = ResponseCondition::When(ResponseConditionMatch { status: Some(vec![200]), headers: None });
    let when500 = ResponseCondition::When(ResponseConditionMatch { status: Some(vec![500]), headers: None });
    assert!(should_execute_response(&[when200], &resp));
    assert!(!should_execute_response(&[when500], &resp));
}

#[test]
fn capabilities_do_not_depend_on_filter_order() {
    let profiles = || {
        let mut a = FilterProfile::http("a");
        a.request_body_access = BodyAccess::ReadOnly;
        a.request_body_mode = BodyMode::StreamBuffer { max_bytes: Some(300) };
        let mut b = FilterProfile::http("b");
        b.request_body_access = BodyAccess::ReadOnly;
        b.request_body_mode = BodyMode::StreamBuffer { max_bytes: Some(200) };
        b.response_body_access = BodyAccess::ReadWrite;
        b.response_body_mode = BodyMode::Buffer { max_bytes: 64 };
        (a, b)
    };
    let (a1, b1) = profiles();
    let (a2, b2) = profiles();
    let ab = compute_body_capabilities(&[plain(a1), plain(b1)]);
    let ba = compute_body_capabilities(&[plain(b2), plain(a2)]);
    assert_eq!(ab, ba);
    assert_eq!(ab.request_body_mode, BodyMode::StreamBuffer { max_bytes: Some(200) });
    assert_eq!(ab.response_body_mode, BodyMode::Buffer { max_bytes: 64 });
}

#[test]
fn body_capabilities_same_for_any_order_of_three() {
    let make = || {
        let mut a = FilterProfile::http("a");
        a.request_body_access = BodyAccess::ReadOnly;
        a.request_body_mode = BodyMode::StreamBuffer { max_bytes: Some(300) };
        let mut b = FilterProfile::http("b");
        b.request_body_access = BodyAccess::ReadWrite;
        b.request_body_mode = BodyMode::Buffer { max_bytes: 500 };
        let mut c = FilterProfile::http("c");
        c.request_body_access = BodyAccess::ReadOnly;
        c.request_body_mode = BodyMode::Buffer { max_bytes: 100 };
        c.needs_request_context = true;
        (a, b, c)
    };
    let (a, b, c) = make();
    let abc = compute_body_capabilities(&[plain(a), plain(b), plain(c)]);
    let (a, b, c) = make();
    let cab = compute_body_capabilities(&[plain(c), plain(a), plain(b)]);
    let (a, b, c) = make();
    let bca = compute_body_capabilities(&[plain(b), plain(c), plain(a)]);
    assert_eq!(abc, cab);
    assert_eq!(abc, bca);
    assert_eq!(abc.request_body_mode, BodyMode::Buffer { max_bytes: 100 });
    assert!(abc.any_request_body_writer);
    assert!(abc.needs_request_context);
}
