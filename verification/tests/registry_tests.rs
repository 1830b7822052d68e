use praxis::registry::{FilterFactory, FilterRegistry, BuiltinFilter};

fn custom_registry() -> FilterRegistry {
    FilterRegistry::with_custom(&vec![
        ("dummy_http".to_string(), FilterFactory::Http(0)),
        ("dummy_tcp".to_string(), FilterFactory::Tcp(1)),
    ])
    .ok()
    .unwrap()
}

#[test]
fn builtins_registered() {
    let registry = FilterRegistry::with_builtins();
    let mut names = registry.available_filters();
    names.sort();
    assert!(names.contains(&"access_log"));
    assert!(names.contains(&"forwarded_headers"));
    assert!(names.contains(&"headers"));
    assert!(names.contains(&"ip_acl"));
    assert!(names.contains(&"load_balancer"));
    assert!(names.contains(&"request_id"));
    assert!(names.contains(&"router"));
    assert!(names.contains(&"static_response"));
    assert!(names.contains(&"tcp_access_log"));
    assert!(names.contains(&"timeout"));
    assert!(names.contains(&"json_body_field"));
}

#[test]
fn macro_registers_http_filter() {
    let registry = custom_registry();
    assert!(registry.available_filters().contains(&"dummy_http"));
}

#[test]
fn macro_registers_tcp_filter() {
    let registry = custom_registry();
    assert!(registry.available_filters().contains(&"dummy_tcp"));
}

#[test]
fn macro_preserves_builtins() {
    let registry = custom_registry();
    assert!(registry.available_filters().contains(&"router"));
    assert!(registry.available_filters().contains(&"load_balancer"));
}

#[test]
fn lib_macro_registers_http_filter() {
    let registry = custom_registry();
    assert!(registry.available_filters().contains(&"dummy_http"), "registry should contain custom HTTP filter");
}

#[test]
fn lib_macro_registers_tcp_filter() {
    let registry = custom_registry();
    assert!(registry.available_filters().contains(&"dummy_tcp"), "registry should contain custom TCP filter");
}

#[test]
fn lib_macro_preserves_builtins() {
    let registry = custom_registry();
    assert!(registry.available_filters().contains(&"router"), "registry should still contain built-in router");
    assert!(
        registry.available_filters().contains(&"load_balancer"),
        "registry should still contain built-in load_balancer"
    );
}

#[test]
fn macro_registered_filters_create_successfully() {
    let registry = custom_registry();
    assert!(matches!(registry.create("dummy_http"), Ok(FilterFactory::Http(0))));
    assert!(matches!(registry.create("dummy_tcp"), Ok(FilterFactory::Tcp(1))));
}

#[test]
fn unknown_filter_errors() {
    let registry = FilterRegistry::with_builtins();
    match registry.create("nonexistent") {
        Err(e) => {
            assert!(e.to_string().contains("unknown filter type"));
            assert_eq!(e.to_string(), "unknown filter type: 'nonexistent'");
        },
        Ok(_) => panic!("expected error for unknown filter type"),
    }
}

#[test]
fn replace_replaces_and_reads_back() {
    let mut registry = FilterRegistry::with_builtins();
    registry.replace("router", FilterFactory::Http(7));
    assert!(matches!(registry.create("router"), Ok(FilterFactory::Http(7))));
    assert!(matches!(registry.create("headers"), Ok(FilterFactory::Builtin(BuiltinFilter::Headers))));
    assert_eq!(registry.available_filters().len(), 11);
}

#[test]
fn register_refuses_duplicates() {
    let mut registry = FilterRegistry::with_builtins();
    assert!(registry.register("router", FilterFactory::Http(1)).is_err());
    assert!(registry.register("custom", FilterFactory::Http(1)).is_ok());
    assert!(registry.register("custom", FilterFactory::Http(2)).is_err());
    assert!(matches!(registry.create("custom"), Ok(FilterFactory::Http(1))));
}

#[test]
fn builtin_collision_is_refused_and_registry_unchanged() {
    let mut registry = FilterRegistry::with_builtins();
    let err = registry.register("router", FilterFactory::Http(9)).err().unwrap();
    assert_eq!(err.to_string(), "duplicate filter name: 'router'");
    assert!(matches!(registry.create("router"), Ok(FilterFactory::Builtin(BuiltinFilter::Router))));
    assert_eq!(registry.available_filters().len(), 11);
    let custom = FilterRegistry::with_custom(&vec![("router".to_string(), FilterFactory::Http(1))]);
    assert_eq!(custom.err().unwrap().name, "router");
}

#[test]
fn resolve_all_stops_at_first_unknown() {
    let registry = FilterRegistry::with_builtins();
    let ok = registry.resolve_all(&vec!["router".to_string(), "load_balancer".to_string()]).unwrap();
    assert_eq!(ok.len(), 2);
    let err = registry
        .resolve_all(&vec!["router".to_string(), "nope".to_string(), "also_nope".to_string()])
        .err()
        .unwrap();
    assert_eq!(err.name, "nope");
}

#[test]
fn tcp_access_log_is_tcp_level() {
    let registry = FilterRegistry::with_builtins();
    let f = registry.create("tcp_access_log").ok().unwrap();
    assert_eq!(f.protocol(), praxis::pipeline::ProtocolKind::Tcp);
    let g = registry.create("router").ok().unwrap();
    assert_eq!(g.protocol(), praxis::pipeline::ProtocolKind::Http);
}

#[test]
fn macro_registered_http_filter_creates_successfully() {
    let registry = custom_registry();
    let result = registry.create("dummy_http");
    assert!(result.is_ok(), "custom HTTP filter should instantiate without error");
}

#[test]
fn macro_registered_tcp_filter_creates_successfully() {
    let registry = custom_registry();
    let result = registry.create("dummy_tcp");
    assert!(result.is_ok(), "custom TCP filter should instantiate without error");
}

#[test]
fn lib_macro_registered_http_filter_creates_successfully() {
    let registry = custom_registry();
    assert!(registry.create("dummy_http").is_ok());
}

#[test]
fn lib_macro_registered_tcp_filter_creates_successfully() {
    let registry = custom_registry();
    assert!(registry.create("dummy_tcp").is_ok());
}

#[test]
fn macro_registers_http_filter_with_name_expression() {
    let mut registry = FilterRegistry::with_builtins();
    let name = String::from("dummy_http_expr");
    assert!(registry.register(name.as_str(), FilterFactory::Http(0)).is_ok());
    assert!(
        registry.available_filters().contains(&"dummy_http_expr"),
        "registry should contain custom HTTP filter registered with a name expression"
    );
}

#[test]
fn macro_registers_tcp_filter_with_name_expression() {
    let mut registry = FilterRegistry::with_builtins();
    let name = String::from("dummy_tcp_expr");
    assert!(registry.register(name.as_str(), FilterFactory::Tcp(0)).is_ok());
    assert!(
        registry.available_filters().contains(&"dummy_tcp_expr"),
        "registry should contain custom TCP filter registered with a name expression"
    );
}

#[test]
#[should_panic(expected = "duplicate filter name: 'router'")]
fn macro_panics_on_builtin_collision() {
    let mut registry = FilterRegistry::with_builtins();
    if let Err(e) = registry.register("router", FilterFactory::Http(0)) {
        panic!("{}", e.to_string());
    }
}
