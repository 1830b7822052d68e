use praxis::actions::FilterAction;
use praxis::context::HttpFilterContext;
use praxis::message::{HeaderMap, Request};
use praxis::routing::{strip_port, Route, RouterFilter};

fn route(prefix: &str, host: Option<&str>, headers: Option<Vec<(&str, &str)>>, cluster: &str) -> Route {
    Route {
        path_prefix: prefix.to_string(),
        host: host.map(|h| h.to_string()),
        headers: headers.map(|hs| hs.into_iter().map(|(k, v)| (k.to_string(), v.to_string())).collect()),
        cluster: cluster.to_string(),
    }
}

fn hdrs(pairs: &[(&str, &str)]) -> HeaderMap {
    let mut h = HeaderMap::new();
    for (k, v) in pairs {
        h.append(k, v);
    }
    h
}

fn cluster_of(router: &RouterFilter, path: &str, host: Option<&str>, h: &HeaderMap) -> Option<String> {
    router.match_route(path, host, h).map(|r| r.cluster.clone())
}

#[test]
fn match_root() {
    let router = RouterFilter::new(vec![route("/", None, None, "default")]);
    assert_eq!(cluster_of(&router, "/anything", None, &HeaderMap::new()).as_deref(), Some("default"));
}

#[test]
fn longest_prefix_wins() {
    let router = RouterFilter::new(vec![route("/", None, None, "default"), route("/api/", None, None, "api")]);
    assert_eq!(cluster_of(&router, "/api/users", None, &HeaderMap::new()).as_deref(), Some("api"));
    assert_eq!(cluster_of(&router, "/static/main.js", None, &HeaderMap::new()).as_deref(), Some("default"));
}

#[test]
fn host_filtering() {
    let router = RouterFilter::new(vec![
        route("/", Some("api.example.com"), None, "api"),
        route("/", None, None, "default"),
    ]);
    assert_eq!(cluster_of(&router, "/", Some("api.example.com"), &HeaderMap::new()).as_deref(), Some("api"));
    assert_eq!(cluster_of(&router, "/", Some("other.example.com"), &HeaderMap::new()).as_deref(), Some("default"));
}

#[test]
fn host_with_port() {
    let router = RouterFilter::new(vec![route("/", Some("api.example.com"), None, "api")]);
    assert_eq!(cluster_of(&router, "/", Some("api.example.com:8080"), &HeaderMap::new()).as_deref(), Some("api"));
}

#[test]
fn no_match() {
    let router = RouterFilter::new(vec![route("/api/", None, None, "api")]);
    assert!(router.match_route("/other", None, &HeaderMap::new()).is_none());
}

#[test]
fn no_match_wrong_host() {
    let router = RouterFilter::new(vec![route("/", Some("api.example.com"), None, "api")]);
    assert!(router.match_route("/", Some("other.com"), &HeaderMap::new()).is_none());
}

#[test]
fn on_request_sets_cluster_on_match() {
    let router = RouterFilter::new(vec![route("/", None, None, "default")]);
    let mut ctx = HttpFilterContext::new(Request::new("GET", "/"));
    assert!(matches!(router.on_request(&mut ctx), FilterAction::Continue));
    assert_eq!(ctx.cluster.as_deref(), Some("default"));
}

#[test]
fn on_request_rejects_on_no_match() {
    let router = RouterFilter::new(vec![route("/api/", None, None, "api")]);
    let mut ctx = HttpFilterContext::new(Request::new("GET", "/other"));
    assert!(matches!(router.on_request(&mut ctx), FilterAction::Reject(r) if r.status == 404));
    assert!(ctx.cluster.is_none());
}

#[test]
fn on_request_combined_host_and_path() {
    let router = RouterFilter::new(vec![
        route("/", Some("api.example.com"), None, "api"),
        route("/", None, None, "default"),
    ]);
    let mut req = Request::new("GET", "/v1/users");
    req.headers.append("host", "api.example.com");
    let mut ctx = HttpFilterContext::new(req);
    router.on_request(&mut ctx);
    assert_eq!(ctx.cluster.as_deref(), Some("api"));
    let mut ctx2 = HttpFilterContext::new(Request::new("GET", "/v1/users"));
    router.on_request(&mut ctx2);
    assert_eq!(ctx2.cluster.as_deref(), Some("default"));
}

#[test]
fn route_matches_by_header() {
    let router = RouterFilter::new(vec![route("/", None, Some(vec![("x-model", "gpt-4")]), "gpt4")]);
    assert_eq!(cluster_of(&router, "/chat", None, &hdrs(&[("x-model", "gpt-4")])).as_deref(), Some("gpt4"));
}

#[test]
fn route_skips_mismatched_header() {
    let router = RouterFilter::new(vec![route("/", None, Some(vec![("x-model", "gpt-4")]), "gpt4")]);
    assert!(router.match_route("/chat", None, &hdrs(&[("x-model", "gpt-3.5")])).is_none());
}

#[test]
fn route_with_headers_wins_over_plain() {
    let router = RouterFilter::new(vec![
        route("/", None, Some(vec![("x-model", "gpt-4")]), "gpt4"),
        route("/", None, None, "default"),
    ]);
    assert_eq!(cluster_of(&router, "/chat", None, &hdrs(&[("x-model", "gpt-4")])).as_deref(), Some("gpt4"));
    assert_eq!(cluster_of(&router, "/chat", None, &hdrs(&[("x-model", "llama-3")])).as_deref(), Some("default"));
}

#[test]
fn host_falls_back_to_uri_authority() {
    let router = RouterFilter::new(vec![
        route("/", Some("api.example.com"), None, "api"),
        route("/", None, None, "default"),
    ]);
    let mut req = Request::new("GET", "/v1/data");
    req.scheme = Some("http".to_string());
    req.authority = Some("api.example.com".to_string());
    let mut ctx = HttpFilterContext::new(req);
    router.on_request(&mut ctx);
    assert_eq!(ctx.cluster.as_deref(), Some("api"));
}

#[test]
fn multi_value_header_matches_any() {
    let router = RouterFilter::new(vec![route("/", None, Some(vec![("x-model", "gpt-4")]), "gpt4")]);
    let h = hdrs(&[("x-model", "llama-3"), ("x-model", "gpt-4")]);
    assert_eq!(cluster_of(&router, "/chat", None, &h).as_deref(), Some("gpt4"));
}

#[test]
fn ipv6_host_with_port() {
    let router = RouterFilter::new(vec![route("/", Some("[::1]"), None, "ipv6")]);
    assert_eq!(cluster_of(&router, "/", Some("[::1]:8080"), &HeaderMap::new()).as_deref(), Some("ipv6"));
    assert_eq!(cluster_of(&router, "/", Some("[::1]"), &HeaderMap::new()).as_deref(), Some("ipv6"));
}

#[test]
fn empty_route_table() {
    let router = RouterFilter::new(vec![]);
    assert!(router.match_route("/anything", None, &HeaderMap::new()).is_none());
}

#[test]
fn route_with_host_and_headers() {
    let router = RouterFilter::new(vec![
        route("/", Some("api.example.com"), Some(vec![("x-version", "v2")]), "api-v2"),
        route("/", None, None, "default"),
    ]);
    let h = hdrs(&[("x-version", "v2")]);
    assert_eq!(cluster_of(&router, "/", Some("api.example.com"), &h).as_deref(), Some("api-v2"));
}

#[test]
fn same_prefix_same_constraints_first_wins() {
    let router = RouterFilter::new(vec![
        route("/", None, Some(vec![("x-a", "1")]), "first"),
        route("/", None, Some(vec![("x-b", "2")]), "second"),
    ]);
    let h = hdrs(&[("x-a", "1"), ("x-b", "2")]);
    assert_eq!(cluster_of(&router, "/", None, &h).as_deref(), Some("first"));
}

#[test]
fn empty_headers_map_matches_everything() {
    let router = RouterFilter::new(vec![route("/", None, Some(vec![]), "vacuous")]);
    assert_eq!(cluster_of(&router, "/test", None, &HeaderMap::new()).as_deref(), Some("vacuous"));
}

#[test]
fn on_request_strips_port_from_host_header() {
    let router = RouterFilter::new(vec![route("/", Some("example.com"), None, "example")]);
    let mut req = Request::new("GET", "/");
    req.headers.append("host", "example.com:9090");
    let mut ctx = HttpFilterContext::new(req);
    assert!(matches!(router.on_request(&mut ctx), FilterAction::Continue));
    assert_eq!(ctx.cluster.as_deref(), Some("example"));
}

#[test]
fn non_segment_boundary_prefix_matches() {
    let router = RouterFilter::new(vec![route("/api", None, None, "api")]);
    assert_eq!(cluster_of(&router, "/apiary", None, &HeaderMap::new()).as_deref(), Some("api"));
}

#[test]
fn strip_port_forms() {
    assert_eq!(strip_port("example.com:8080"), "example.com");
    assert_eq!(strip_port("example.com"), "example.com");
    assert_eq!(strip_port("[::1]:443"), "[::1]");
    assert_eq!(strip_port("[::1"), "[::1");
}

#[test]
fn route_without_headers_used_as_fallback() {
    let router = RouterFilter::new(vec![
        route("/", None, Some(vec![("x-model", "gpt-4")]), "gpt4"),
        route("/", None, None, "default"),
    ]);
    let h = hdrs(&[("x-model", "llama-3")]);
    assert_eq!(cluster_of(&router, "/chat", None, &h).as_deref(), Some("default"));
}

#[test]
fn ipv6_host_without_port() {
    let router = RouterFilter::new(vec![route("/", Some("[::1]"), None, "ipv6")]);
    assert_eq!(cluster_of(&router, "/", Some("[::1]"), &HeaderMap::new()).as_deref(), Some("ipv6"));
}
