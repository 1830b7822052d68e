use praxis::balancer::LoadBalancerFilter;
use praxis::body::{BodyAccess, BodyMode};
use praxis::condition::{Condition, ConditionMatch};
use praxis::pipeline::{BuildFailure, FilterEntry, FilterPipeline, FilterProfile, PipelineFilter};
use praxis::registry::{FilterFactory, FilterRegistry, UnknownFilter};
use praxis::routing::RouterFilter;
use praxis::security::IpAclFilter;
use praxis::transform::StaticResponseFilter;

fn profile_of(name: &str) -> FilterProfile {
    match name {
        "router" => RouterFilter::profile(),
        "load_balancer" => LoadBalancerFilter::profile(),
        "static_response" => StaticResponseFilter::profile(),
        "ip_acl" => IpAclFilter::profile(),
        other => FilterProfile::http(other),
    }
}

/// Build the pipeline from its entries through the registry, making each
/// filter's profile from its type.
fn build(entries: Vec<(&str, Vec<Condition>)>) -> Result<FilterPipeline, UnknownFilter> {
    let registry = FilterRegistry::with_builtins();
    let names: Vec<String> = entries.iter().map(|(n, _)| n.to_string()).collect();
    let entries: Vec<FilterEntry> = entries.into_iter().map(|(n, c)| FilterEntry::new(n, c, vec![])).collect();
    let built = FilterPipeline::build_from_entries(entries, &registry, |i: usize, _f: FilterFactory| {
        Ok::<((), FilterProfile), ()>(((), profile_of(&names[i])))
    });
    match built {
        Ok((p, _)) => Ok(p),
        Err(BuildFailure::UnknownType(e)) => Err(e),
        Err(BuildFailure::Instantiate(())) => panic!("profiles are always made"),
    }
}

fn plain(profile: FilterProfile) -> PipelineFilter {
    PipelineFilter { filter: profile, conditions: vec![], response_conditions: vec![] }
}

fn when_path(prefix: &str) -> Condition {
    Condition::When(ConditionMatch { path: None, path_prefix: Some(prefix.to_string()), methods: None, headers: None })
}

fn body_reader() -> FilterProfile {
    let mut p = FilterProfile::http("body_inspector");
    p.request_body_access = BodyAccess::ReadOnly;
    p
}

fn body_writer() -> FilterProfile {
    let mut p = FilterProfile::http("body_uppercase");
    p.request_body_access = BodyAccess::ReadWrite;
    p
}

fn response_body_reader() -> FilterProfile {
    let mut p = FilterProfile::http("resp_body_inspector");
    p.response_body_access = BodyAccess::ReadOnly;
    p
}

fn stream_buffer_release() -> FilterProfile {
    let mut p = FilterProfile::http("stream_buffer_release");
    p.request_body_access = BodyAccess::ReadOnly;
    p.request_body_mode = BodyMode::StreamBuffer { max_bytes: None };
    p
}

#[test]
fn build_empty_pipeline() {
    let pipeline = build(vec![]).unwrap();
    assert!(pipeline.is_empty());
    assert_eq!(pipeline.len(), 0);
}

#[test]
fn build_unknown_filter_errors() {
    match build(vec![("nonexistent", vec![])]) {
        Err(e) => assert!(e.to_string().contains("unknown filter type")),
        Ok(_) => panic!("expected error for unknown filter"),
    }
}

#[test]
fn build_with_valid_filters() {
    let pipeline = build(vec![("router", vec![])]).unwrap();
    assert_eq!(pipeline.len(), 1);
    assert!(!pipeline.is_empty());
}

#[test]
fn build_stops_on_first_error() {
    match build(vec![("router", vec![]), ("bad_filter", vec![])]) {
        Err(e) => {
            assert!(e.to_string().contains("unknown filter type"));
            assert_eq!(e.name, "bad_filter");
        },
        Ok(_) => panic!("expected error for unknown filter"),
    }
}

#[test]
fn body_capabilities_none_when_no_body_filters() {
    let pipeline = FilterPipeline::build(vec![plain(FilterProfile::http("reject"))]);
    let caps = pipeline.body_capabilities();
    assert!(!caps.needs_request_body);
    assert!(!caps.needs_response_body);
}

#[test]
fn body_capabilities_detects_request_body_reader() {
    let pipeline = FilterPipeline::build(vec![plain(body_reader())]);
    let caps = pipeline.body_capabilities();
    assert!(caps.needs_request_body);
    assert!(!caps.any_request_body_writer);
    assert!(!caps.needs_response_body);
}

#[test]
fn body_capabilities_detects_request_body_writer() {
    let pipeline = FilterPipeline::build(vec![plain(body_writer())]);
    let caps = pipeline.body_capabilities();
    assert!(caps.needs_request_body);
    assert!(caps.any_request_body_writer);
}

#[test]
fn body_capabilities_detects_response_body() {
    let pipeline = FilterPipeline::build(vec![plain(response_body_reader())]);
    let caps = pipeline.body_capabilities();
    assert!(!caps.needs_request_body);
    assert!(caps.needs_response_body);
}

#[test]
fn body_capabilities_detects_stream_buffer_mode() {
    let pipeline = FilterPipeline::build(vec![plain(stream_buffer_release())]);
    let caps = pipeline.body_capabilities();
    assert!(caps.needs_request_body);
    assert_eq!(caps.request_body_mode, BodyMode::StreamBuffer { max_bytes: None });
}

#[test]
fn body_capabilities_buffer_overrides_stream_buffer() {
    let pipeline = FilterPipeline::build(vec![plain(stream_buffer_release()), plain(body_reader())]);
    let caps = pipeline.body_capabilities();
    assert_eq!(caps.request_body_mode, BodyMode::StreamBuffer { max_bytes: None });
}

#[test]
fn body_capabilities_multiple_stream_buffer_takes_min() {
    let pipeline = FilterPipeline::build(vec![plain(stream_buffer_release()), plain(stream_buffer_release())]);
    let caps = pipeline.body_capabilities();
    assert_eq!(caps.request_body_mode, BodyMode::StreamBuffer { max_bytes: None });
}

/// The pipeline of the minimal configuration: a router and a load balancer.
fn minimal_config_pipeline() -> FilterPipeline {
    build(vec![("router", vec![]), ("load_balancer", vec![])]).unwrap()
}

#[test]
fn from_config_no_limits_leaves_stream_mode() {
    let mut pipeline = minimal_config_pipeline();
    pipeline.apply_body_limits(None, None);
    let caps = pipeline.body_capabilities();
    assert!(!caps.needs_request_body);
    assert!(!caps.needs_response_body);
    assert_eq!(caps.request_body_mode, BodyMode::Stream);
    assert_eq!(caps.response_body_mode, BodyMode::Stream);
}

#[test]
fn from_config_request_limit_forces_buffer_mode() {
    let mut pipeline = minimal_config_pipeline();
    pipeline.apply_body_limits(Some(1048576), None);
    let caps = pipeline.body_capabilities();
    assert!(caps.needs_request_body);
    assert_eq!(caps.request_body_mode, BodyMode::Buffer { max_bytes: 1_048_576 });
    assert!(!caps.needs_response_body);
    assert_eq!(caps.response_body_mode, BodyMode::Stream);
}

#[test]
fn from_config_response_limit_forces_buffer_mode() {
    let mut pipeline = minimal_config_pipeline();
    pipeline.apply_body_limits(None, Some(524288));
    let caps = pipeline.body_capabilities();
    assert!(caps.needs_response_body);
    assert_eq!(caps.response_body_mode, BodyMode::Buffer { max_bytes: 524_288 });
    assert!(!caps.needs_request_body);
    assert_eq!(caps.request_body_mode, BodyMode::Stream);
}

#[test]
fn from_config_both_limits_applied_independently() {
    let mut pipeline = minimal_config_pipeline();
    pipeline.apply_body_limits(Some(1024), Some(2048));
    let caps = pipeline.body_capabilities();
    assert_eq!(caps.request_body_mode, BodyMode::Buffer { max_bytes: 1_024 });
    assert_eq!(caps.response_body_mode, BodyMode::Buffer { max_bytes: 2_048 });
    assert!(caps.needs_request_body);
    assert!(caps.needs_response_body);
}

#[test]
fn warns_load_balancer_without_router() {
    let warnings = build(vec![("load_balancer", vec![])]).unwrap().ordering_warnings();
    assert_eq!(warnings.len(), 1);
    assert!(warnings[0].contains("load_balancer without a preceding router"));
}

#[test]
fn no_warning_when_router_precedes_load_balancer() {
    let warnings = build(vec![("router", vec![]), ("load_balancer", vec![])]).unwrap().ordering_warnings();
    assert!(warnings.is_empty());
}

#[test]
fn warns_unconditional_static_response_followed_by_filters() {
    let warnings = build(vec![("static_response", vec![]), ("router", vec![])]).unwrap().ordering_warnings();
    assert_eq!(warnings.len(), 1);
    assert!(warnings[0].contains("unreachable"));
}

#[test]
fn no_warning_for_conditional_static_response() {
    let warnings =
        build(vec![("static_response", vec![when_path("/health")]), ("router", vec![])]).unwrap().ordering_warnings();
    assert!(warnings.is_empty(), "conditional static_response should not warn: {warnings:?}");
}

#[test]
fn warns_duplicate_router() {
    let warnings = build(vec![("router", vec![]), ("router", vec![])]).unwrap().ordering_warnings();
    assert!(warnings.iter().any(|w| w.contains("multiple router")));
}

#[test]
fn warns_duplicate_load_balancer() {
    let warnings = build(vec![("router", vec![]), ("load_balancer", vec![]), ("load_balancer", vec![])])
        .unwrap()
        .ordering_warnings();
    assert!(warnings.iter().any(|w| w.contains("multiple load_balancer")));
}

#[test]
fn warns_conditional_security_filter() {
    let warnings = build(vec![("ip_acl", vec![when_path("/api")])]).unwrap().ordering_warnings();
    assert!(
        warnings.iter().any(|w| w.contains("security filter") && w.contains("ip_acl")),
        "expected warning about conditional security filter: {warnings:?}"
    );
}

#[test]
fn no_warning_for_unconditional_security_filter() {
    let warnings = build(vec![("ip_acl", vec![])]).unwrap().ordering_warnings();
    assert!(!warnings.iter().any(|w| w.contains("security filter")), "unconditional security filter should not warn: {warnings:?}");
}

#[test]
fn empty_pipeline_no_warnings() {
    let warnings = build(vec![]).unwrap().ordering_warnings();
    assert!(warnings.is_empty());
}

#[test]
fn build_stops_at_first_failed_instantiation() {
    let registry = FilterRegistry::with_builtins();
    let entries = vec![
        FilterEntry::new("router", vec![], vec![]),
        FilterEntry::new("headers", vec![], vec![]),
        FilterEntry::new("bad_filter", vec![], vec![]),
    ];
    let mut seen = std::cell::RefCell::new(Vec::new());
    let built = FilterPipeline::build_from_entries(entries, &registry, |i: usize, f: FilterFactory| {
        seen.borrow_mut().push(i);
        if f == FilterFactory::Builtin(praxis::registry::BuiltinFilter::Headers) {
            Err("bad headers settings")
        } else {
            Ok(((), RouterFilter::profile()))
        }
    });
    match built {
        Err(BuildFailure::Instantiate(e)) => assert_eq!(e, "bad headers settings"),
        _ => panic!("expected the headers entry to fail"),
    }
    assert_eq!(seen.get_mut().clone(), vec![0, 1]);
}

#[test]
fn build_from_entries_keeps_conditions_in_order() {
    let registry = FilterRegistry::with_builtins();
    let entries = vec![
        FilterEntry::new("router", vec![when_path("/api")], vec![]),
        FilterEntry::new("load_balancer", vec![], vec![]),
    ];
    let (p, made) = FilterPipeline::build_from_entries(entries, &registry, |i: usize, _f: FilterFactory| {
        Ok::<(usize, FilterProfile), ()>((i, if i == 0 { RouterFilter::profile() } else { LoadBalancerFilter::profile() }))
    })
    .ok()
    .unwrap();
    assert_eq!(made, vec![0, 1]);
    assert_eq!(p.len(), 2);
    assert!(p.ordering_warnings().is_empty());
}
