use praxis::balancer::{
    expand_endpoints, fnv1a, Cluster, ConsistentHash, ConsistentHashOpts, Endpoint, LeastConnections,
    LoadBalancerFilter, LoadBalancerStrategy, ParameterisedStrategy, RoundRobin, SimpleStrategy, Strategy,
};
use praxis::context::{ConnectionOptions, HttpFilterContext};
use praxis::message::Request;
use praxis::actions::FilterAction;

fn cluster(name: &str, endpoints: &[&str], strategy: LoadBalancerStrategy) -> Cluster {
    Cluster {
        name: name.to_string(),
        endpoints: endpoints.iter().map(|s| Endpoint::Simple(s.to_string())).collect(),
        connection_timeout_ms: None,
        idle_timeout_ms: None,
        load_balancer_strategy: strategy,
        read_timeout_ms: None,
        total_connection_timeout_ms: None,
        upstream_sni: None,
        upstream_tls: false,
        write_timeout_ms: None,
    }
}

fn test_cluster(name: &str, endpoints: &[&str]) -> Cluster {
    cluster(name, endpoints, LoadBalancerStrategy::default())
}

fn ctx_for(path: &str, cluster: Option<&str>) -> HttpFilterContext {
    let mut ctx = HttpFilterContext::new(Request::new("GET", path));
    ctx.cluster = cluster.map(|c| c.to_string());
    ctx
}

#[test]
fn selects_min() {
    let mut lc = LeastConnections::new(vec![
        "10.0.0.1:80".to_string(),
        "10.0.0.2:80".to_string(),
        "10.0.0.3:80".to_string(),
    ]);
    assert_eq!(lc.select(), "10.0.0.1:80");
    assert_eq!(lc.select(), "10.0.0.2:80");
    lc.release("10.0.0.1:80");
    assert_eq!(lc.select(), "10.0.0.1:80");
}

#[test]
fn release_does_not_underflow() {
    let mut lc = LeastConnections::new(vec!["10.0.0.1:80".to_string()]);
    lc.release("10.0.0.1:80");
    assert_eq!(lc.counters[0], 0);
}

#[test]
fn release_unknown_addr_is_noop() {
    let mut lc = LeastConnections::new(vec!["10.0.0.1:80".to_string()]);
    lc.release("10.0.0.99:80");
    assert_eq!(lc.counters, vec![0]);
}

#[test]
fn least_connections_deduplicates() {
    let lc = LeastConnections::new(vec!["a".to_string(), "b".to_string(), "a".to_string(), "b".to_string()]);
    assert_eq!(lc.endpoints, vec!["a".to_string(), "b".to_string()]);
    assert_eq!(lc.counters, vec![0, 0]);
}

#[test]
fn release_undoes_select_concrete() {
    let mut lc = LeastConnections::new(vec!["a".to_string(), "b".to_string()]);
    let picked = lc.select();
    assert_eq!(lc.counters, vec![1, 0]);
    lc.release(&picked);
    assert_eq!(lc.counters, vec![0, 0]);
}

#[test]
fn same_key_same_endpoint() {
    let ch = ConsistentHash::new(vec!["10.0.0.1:80".to_string(), "10.0.0.2:80".to_string()], None);
    let req = Request::new("GET", "/stable-path");
    let first = ch.select(&req);
    let second = ch.select(&req);
    assert_eq!(first, second);
}

#[test]
fn different_keys_may_differ() {
    let ch = ConsistentHash::new(vec!["10.0.0.1:80".to_string(), "10.0.0.2:80".to_string()], None);
    let a = Request::new("GET", "/path-a");
    let b = Request::new("GET", "/path-b");
    let _ = ch.select(&a);
    let _ = ch.select(&b);
}

#[test]
fn fnv1a_known_vectors() {
    assert_eq!(fnv1a(""), 0xcbf2_9ce4_8422_2325);
    assert_eq!(fnv1a("a"), 0xaf63_dc4c_8601_ec8c);
    assert_eq!(fnv1a("foobar"), 0x8594_4171_f739_67e8);
}

#[test]
fn consistent_hash_uses_header_when_present() {
    let ch = ConsistentHash::new(vec!["a".to_string(), "b".to_string(), "c".to_string()], Some("x-user".to_string()));
    let mut r1 = Request::new("GET", "/one");
    r1.headers.append("x-user", "alice");
    let mut r2 = Request::new("GET", "/two");
    r2.headers.append("x-user", "alice");
    assert_eq!(ch.select(&r1), ch.select(&r2));
    let idx = (fnv1a("alice") as usize) % 3;
    assert_eq!(ch.select(&r1), ["a", "b", "c"][idx]);
}

#[test]
fn round_robin_cycles() {
    let mut rr = RoundRobin::new(vec!["a".to_string(), "b".to_string(), "c".to_string()]);
    let picks: Vec<String> = (0..4).map(|_| rr.select()).collect();
    assert_eq!(picks, vec!["a", "b", "c", "a"]);
}

#[test]
fn weighted_expansion_repeats_addresses() {
    let eps = vec![
        Endpoint::Simple("10.0.0.1:80".to_string()),
        Endpoint::Weighted { address: "10.0.0.2:80".to_string(), weight: 3 },
        Endpoint::Weighted { address: "10.0.0.3:80".to_string(), weight: 0 },
    ];
    assert_eq!(expand_endpoints(&eps), vec!["10.0.0.1:80", "10.0.0.2:80", "10.0.0.2:80", "10.0.0.2:80"]);
}

#[test]
fn new_creates_clusters() {
    let lb = LoadBalancerFilter::new(&vec![test_cluster("web", &["127.0.0.1:8080"])]);
    assert_eq!(lb.clusters.len(), 1);
    assert_eq!(lb.clusters[0].name, "web");
}

#[test]
fn on_request_sets_upstream_round_robin() {
    let mut lb = LoadBalancerFilter::new(&vec![test_cluster("web", &["127.0.0.1:8080"])]);
    let mut ctx = ctx_for("/", Some("web"));
    let action = lb.on_request(&mut ctx).ok().unwrap();
    assert!(matches!(action, FilterAction::Continue));
    assert_eq!(ctx.upstream.unwrap().address, "127.0.0.1:8080");
}

#[test]
fn on_request_sets_upstream_least_connections() {
    let c = cluster(
        "web",
        &["127.0.0.1:8080", "127.0.0.1:8081"],
        LoadBalancerStrategy::Simple(SimpleStrategy::LeastConnections),
    );
    let mut lb = LoadBalancerFilter::new(&vec![c]);
    let mut ctx = ctx_for("/", Some("web"));
    lb.on_request(&mut ctx).ok().unwrap();
    assert_eq!(ctx.upstream.unwrap().address, "127.0.0.1:8080");
}

#[test]
fn on_request_sets_upstream_consistent_hash() {
    let c = cluster(
        "web",
        &["127.0.0.1:8080", "127.0.0.1:8081"],
        LoadBalancerStrategy::Parameterised(ParameterisedStrategy::ConsistentHash(ConsistentHashOpts { header: None })),
    );
    let mut lb = LoadBalancerFilter::new(&vec![c]);
    let mut ctx = ctx_for("/", Some("web"));
    lb.on_request(&mut ctx).ok().unwrap();
    assert!(ctx.upstream.is_some());
}

#[test]
fn on_response_releases_least_connections_counter() {
    let c = cluster("web", &["127.0.0.1:8080"], LoadBalancerStrategy::Simple(SimpleStrategy::LeastConnections));
    let mut lb = LoadBalancerFilter::new(&vec![c]);
    let mut ctx = ctx_for("/", Some("web"));
    lb.on_request(&mut ctx).ok().unwrap();
    match &lb.clusters[0].strategy {
        Strategy::LeastConnections(lc) => assert_eq!(lc.counters[0], 1),
        _ => panic!("expected least connections"),
    }
    lb.on_response(&ctx);
    match &lb.clusters[0].strategy {
        Strategy::LeastConnections(lc) => assert_eq!(lc.counters[0], 0),
        _ => panic!("expected least connections"),
    }
}

#[test]
fn on_request_errors_when_no_cluster() {
    let mut lb = LoadBalancerFilter::new(&vec![test_cluster("web", &["127.0.0.1:8080"])]);
    let mut ctx = ctx_for("/", None);
    let err = lb.on_request(&mut ctx).err().unwrap();
    assert!(err.to_string().contains("no cluster set"));
}

#[test]
fn on_request_errors_for_unknown_cluster() {
    let mut lb = LoadBalancerFilter::new(&vec![test_cluster("web", &["127.0.0.1:8080"])]);
    let mut ctx = ctx_for("/", Some("nonexistent"));
    let err = lb.on_request(&mut ctx).err().unwrap();
    assert!(err.to_string().contains("unknown cluster"));
    assert_eq!(err.to_string(), "load_balancer filter: unknown cluster 'nonexistent'");
}

#[test]
fn timeout_options_from_cluster() {
    let mut c = test_cluster("web", &["127.0.0.1:80"]);
    c.connection_timeout_ms = Some(5000);
    c.idle_timeout_ms = Some(30000);
    c.read_timeout_ms = Some(10000);
    let opts = ConnectionOptions::from_cluster(&c);
    assert_eq!(opts.connection_timeout_ms, Some(5000));
    assert_eq!(opts.idle_timeout_ms, Some(30000));
    assert_eq!(opts.read_timeout_ms, Some(10000));
    assert!(opts.write_timeout_ms.is_none());
}

#[test]
fn weighted_endpoints_expand_proportionally() {
    let mut c = test_cluster("weighted", &[]);
    c.endpoints = vec![
        Endpoint::Simple("10.0.0.1:80".to_string()),
        Endpoint::Weighted { address: "10.0.0.2:80".to_string(), weight: 3 },
    ];
    let mut lb = LoadBalancerFilter::new(&vec![c]);
    let mut first = 0;
    let mut second = 0;
    for _ in 0..4 {
        let mut ctx = ctx_for("/", Some("weighted"));
        lb.on_request(&mut ctx).ok().unwrap();
        match ctx.upstream.unwrap().address.as_str() {
            "10.0.0.1:80" => first += 1,
            "10.0.0.2:80" => second += 1,
            _ => panic!("unexpected endpoint"),
        }
    }
    assert_eq!(first, 1);
    assert_eq!(second, 3);
}

#[test]
fn upstream_tls_and_sni_wired_from_cluster() {
    let mut c = test_cluster("secure", &["10.0.0.1:443"]);
    c.upstream_sni = Some("api.example.com".to_string());
    c.upstream_tls = true;
    let mut lb = LoadBalancerFilter::new(&vec![c]);
    let mut ctx = ctx_for("/", Some("secure"));
    lb.on_request(&mut ctx).ok().unwrap();
    let upstream = ctx.upstream.unwrap();
    assert!(upstream.tls);
    assert_eq!(upstream.sni, "api.example.com");
}

#[test]
fn sni_falls_back_to_host_header() {
    let mut lb = LoadBalancerFilter::new(&vec![test_cluster("web", &["10.0.0.1:443"])]);
    let mut req = Request::new("GET", "/");
    req.headers.append("host", "example.org");
    let mut ctx = HttpFilterContext::new(req);
    ctx.cluster = Some("web".to_string());
    lb.on_request(&mut ctx).ok().unwrap();
    assert_eq!(ctx.upstream.unwrap().sni, "example.org");
}

#[test]
fn later_cluster_definition_wins() {
    let mut lb = LoadBalancerFilter::new(&vec![test_cluster("web", &["a:1"]), test_cluster("web", &["b:2"])]);
    let mut ctx = ctx_for("/", Some("web"));
    lb.on_request(&mut ctx).ok().unwrap();
    assert_eq!(ctx.upstream.unwrap().address, "b:2");
}

#[test]
fn new_multiple_clusters() {
    let clusters = vec![test_cluster("web", &["127.0.0.1:8080"]), test_cluster("api", &["127.0.0.1:9090"])];
    let lb = LoadBalancerFilter::new(&clusters);
    assert_eq!(lb.clusters.len(), 2);
}

#[test]
fn timeout_options_all_none() {
    let c = test_cluster("web", &["127.0.0.1:80"]);
    let opts = ConnectionOptions::from_cluster(&c);
    assert!(opts.connection_timeout_ms.is_none());
    assert!(opts.idle_timeout_ms.is_none());
    assert!(opts.read_timeout_ms.is_none());
    assert!(opts.write_timeout_ms.is_none());
}
