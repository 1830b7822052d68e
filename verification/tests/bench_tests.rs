use praxis::bench::{
    commit_from,
    classify_vegeta_failure, cpu_model, fortio_non_2xx, vegeta_error_counts, echo_server_args, environment_from, fortio_args, http_get_request,
    ramp_pipeline, ramp_plan, ramp_steps, settings_list, trim, vegeta_pipeline, vegeta_target_spec, BenchmarkError,
    EnvoyConfig, FortioConfig, FortioProtocol, HaproxyConfig, LoadPlan, LoadTool, NginxConfig, PraxisConfig,
    ProxyConfig, Runner, Scenario, ScenarioSettings, Span, VegetaConfig, Workload,
};

#[test]
fn runner_construction() {
    let scenario = Scenario {
        name: "test_scenario".into(),
        workload: Workload::SmallRequests { concurrency: 100 },
        warmup: Span::from_secs(5),
        duration: Span::from_secs(10),
        runs: 3,
    };
    let runner = Runner::new(scenario, None).with_backend_port(19090).with_commit("test123".into());
    assert_eq!(runner.scenario.name, "test_scenario");
    assert_eq!(runner.backend_port, 19090);
    assert_eq!(runner.commit, "test123");
}

#[test]
fn scenario_defaults() {
    let s = Scenario::default();
    assert_eq!(s.warmup, Span::from_secs(30));
    assert_eq!(s.duration, Span::from_secs(120));
    assert_eq!(s.runs, 5);
}

fn scenario(workload: Workload) -> Scenario {
    Scenario { name: "s".into(), workload, warmup: Span::from_secs(0), duration: Span::from_secs(10), runs: 1 }
}

#[test]
fn load_plan_small_requests_caps_workers() {
    let r = Runner::new(scenario(Workload::SmallRequests { concurrency: 100 }), None);
    match r.load_plan("127.0.0.1:9090", Span::from_secs(10)) {
        LoadPlan::Vegeta(c) => {
            assert_eq!(c.target, "http://127.0.0.1:9090/");
            assert_eq!(c.workers, 64);
            assert_eq!(c.rate, 0);
            assert_eq!(c.method, "GET");
            assert!(c.body.is_none());
        },
        _ => panic!("expected vegeta"),
    }
    assert_eq!(r.result_tool(), LoadTool::Vegeta);
    assert!(!r.needs_warmup());
}

#[test]
fn load_plan_large_payload_body() {
    let r = Runner::new(scenario(Workload::LargePayload { body_size: 5 }), None);
    match r.load_plan("h:1", Span::from_secs(1)) {
        LoadPlan::Vegeta(c) => {
            assert_eq!(c.body, Some(b"xxxxx".to_vec()));
            assert_eq!(c.workers, 16);
            assert_eq!(c.method, "POST");
        },
        _ => panic!("expected vegeta"),
    }
}

#[test]
fn load_plan_tcp_uses_fortio() {
    let r = Runner::new(scenario(Workload::TcpConnectionRate), None);
    match r.load_plan("h:1", Span::from_secs(1)) {
        LoadPlan::Fortio(c) => {
            assert_eq!(c.target, "h:1");
            assert_eq!(c.connections, 1);
            assert_eq!(c.protocol, FortioProtocol::Tcp);
        },
        _ => panic!("expected fortio"),
    }
    assert_eq!(r.result_tool(), LoadTool::Fortio);
}

#[test]
fn fortio_args_for_tcp() {
    let c = FortioConfig {
        target: "127.0.0.1:9000".into(),
        protocol: FortioProtocol::Tcp,
        qps: 0,
        duration: Span::from_secs(30),
        connections: 8,
        no_catchup: true,
        h2: false,
    };
    assert_eq!(
        fortio_args(&c),
        vec!["load", "-json", "-", "-qps", "0", "-c", "8", "-t", "30s", "-nocatchup", "tcp://127.0.0.1:9000"]
    );
}

#[test]
fn vegeta_pipeline_text() {
    let c = VegetaConfig {
        target: "http://h/".into(),
        rate: 0,
        duration: Span::from_secs(10),
        workers: 16,
        method: "POST".into(),
        body: Some(vec![1]),
    };
    assert_eq!(vegeta_target_spec(&c), "POST http://h/\n");
    assert_eq!(
        vegeta_pipeline(&c, "/tmp/t.txt", Some("/tmp/b.bin")),
        "vegeta attack -targets /tmp/t.txt -rate 0 -duration 10s -max-workers 16 -body /tmp/b.bin | vegeta report --type=json"
    );
    let d = VegetaConfig { rate: 500, body: None, ..c };
    assert_eq!(
        vegeta_pipeline(&d, "/t", None),
        "vegeta attack -targets /t -rate 500 -duration 10s -workers 16  | vegeta report --type=json"
    );
}

#[test]
fn ramp_levels_and_step_length() {
    assert_eq!(ramp_steps(100, 500, 100), vec![100, 200, 300, 400, 500]);
    assert_eq!(ramp_steps(10, 25, 10), vec![10, 20]);
    assert_eq!(ramp_steps(5, 7, 0), vec![5, 6, 7]);
    assert!(ramp_steps(10, 5, 1).is_empty());
    let (levels, step) = ramp_plan(100, 300, 100, Span::from_secs(60)).ok().unwrap();
    assert_eq!(levels, vec![100, 200, 300]);
    assert_eq!(step, Span::from_secs(20));
    let (_, short) = ramp_plan(1, 5, 1, Span::from_secs(2)).ok().unwrap();
    assert_eq!(short, Span::from_secs(1));
    let err = ramp_plan(10, 5, 1, Span::from_secs(2)).err().unwrap();
    assert_eq!(err.to_string(), "tool failed: ramp exited with -1");
    assert_eq!(
        ramp_pipeline("/t", 100, Span::from_secs(20)),
        "vegeta attack -targets /t -rate 100 -duration 20s -workers 64 | vegeta report --type=json"
    );
}

#[test]
fn settings_capture_workload_parameters() {
    let s = Scenario {
        name: "ramp".into(),
        workload: Workload::Ramp { start_qps: 1, end_qps: 9, step: 2 },
        warmup: Span::from_secs(3),
        duration: Span::from_secs(4),
        runs: 2,
    };
    let st = ScenarioSettings::from_scenario(&s);
    assert_eq!(st.warmup_secs, 3);
    assert_eq!(st.duration_secs, 4);
    assert_eq!(st.workload, vec![("end_qps".to_string(), 9), ("start_qps".to_string(), 1), ("step".to_string(), 2)]);
    let list = settings_list(&vec![s]);
    assert_eq!(list[0].0, "ramp");
}

#[test]
fn health_check_request_text() {
    let (hp, req) = http_get_request("http://127.0.0.1:9901/ready");
    assert_eq!(hp, "127.0.0.1:9901");
    assert_eq!(req, "GET /ready HTTP/1.1\r\nHost: 127.0.0.1:9901\r\nConnection: close\r\n\r\n");
    let (hp2, req2) = http_get_request("localhost:80");
    assert_eq!(hp2, "localhost:80");
    assert_eq!(req2, "GET / HTTP/1.1\r\nHost: localhost:80\r\nConnection: close\r\n\r\n");
}

#[test]
fn praxis_config_command() {
    let config = PraxisConfig { config: "/tmp/test.yaml".into(), address: "127.0.0.1:9090".into(), image: None };
    assert_eq!(config.name(), "praxis");
    assert_eq!(config.listen_address(), "127.0.0.1:9090");
    let (cmd, args) = config.start_command("/tmp/test.yaml");
    assert_eq!(cmd, "cargo");
    assert!(args.contains(&"--release".to_string()));
    assert!(args.contains(&"-c".to_string()));
    assert!(config.container_name().is_none());
}

#[test]
fn container_proxies_use_docker() {
    let envoy = EnvoyConfig::default();
    let (cmd, args) = envoy.start_command("/abs/envoy.yaml");
    assert_eq!(cmd, "docker");
    assert_eq!(args[3], "praxis-bench-envoy");
    assert_eq!(args[9], "/abs/envoy.yaml:/etc/envoy/envoy.yaml:ro");
    assert_eq!(args[10], "envoyproxy/envoy:v1.31-latest");
    assert_eq!(NginxConfig::default().start_command("/n").1[10], "nginx:alpine");
    assert_eq!(HaproxyConfig::default().start_command("/h").1[9], "/h:/usr/local/etc/haproxy/haproxy.cfg:ro");
    assert_eq!(HaproxyConfig::default().container_name(), Some("praxis-bench-haproxy"));
}

#[test]
fn cpu_model_from_cpuinfo() {
    let info = "processor\t: 0\nvendor_id\t: GenuineIntel\nmodel name\t: Intel(R) Xeon(R) CPU @ 2.20GHz\nflags\t: fpu\n";
    assert_eq!(cpu_model(info), Some("Intel(R) Xeon(R) CPU @ 2.20GHz".to_string()));
    assert_eq!(cpu_model("processor : 0\n"), None);
    assert_eq!(environment_from(None, "linux").cpu, "unknown");
    assert_eq!(environment_from(Some("model name: X\n"), "linux").cpu, "X");
    assert_eq!(trim("  a b \t\n"), "a b");
}

#[test]
fn errors_render_messages() {
    assert_eq!(BenchmarkError::ToolNotFound("fortio".into()).to_string(), "tool not found: fortio");
    assert_eq!(
        BenchmarkError::ParseError { tool: "vegeta".into(), reason: "bad".into() }.to_string(),
        "failed to parse vegeta output: bad"
    );
    assert!(matches!(classify_vegeta_failure(127, "sh: vegeta: not found"), BenchmarkError::ToolNotFound(_)));
    assert_eq!(classify_vegeta_failure(2, "boom").to_string(), "tool failed: vegeta exited with 2");
    assert_eq!(echo_server_args(18080), vec!["server", "-http-port", "18080"]);
}

#[test]
fn vegeta_errors_are_classified() {
    let errors = vec![
        "Get http://x/: dial tcp 127.0.0.1:80: connect: connection refused".to_string(),
        "Get http://x/: context deadline exceeded".to_string(),
        "net/http: request canceled (Client.Timeout exceeded)".to_string(),
        "i/o timeout".to_string(),
        "unexpected EOF".to_string(),
    ];
    assert_eq!(vegeta_error_counts(&errors), (2, 1));
    assert_eq!(vegeta_error_counts(&vec![]), (0, 0));
}

#[test]
fn fortio_non_2xx_counts_http_errors_only() {
    let codes = vec![("200".to_string(), 90), ("503".to_string(), 7), ("-1".to_string(), 5), ("+404".to_string(), 3)];
    assert_eq!(fortio_non_2xx(&codes), Some(10));
    let tcp = vec![("OK".to_string(), 100)];
    assert_eq!(fortio_non_2xx(&tcp), None);
    let ok = vec![("204".to_string(), 4), ("299".to_string(), 1)];
    assert_eq!(fortio_non_2xx(&ok), Some(0));
    let big = vec![("70000".to_string(), 9)];
    assert_eq!(fortio_non_2xx(&big), None);
}

#[test]
fn commit_is_trimmed_git_output_or_unknown() {
    assert_eq!(commit_from(Some("  abc1234\n")), "abc1234");
    assert_eq!(commit_from(Some("\n")), "");
    assert_eq!(commit_from(None), "unknown");
}

#[test]
fn runner_takes_commit_from_git_output() {
    let s = || Scenario {
        name: "c".into(),
        workload: Workload::TcpConnectionRate,
        warmup: Span::from_secs(0),
        duration: Span::from_secs(1),
        runs: 1,
    };
    assert_eq!(Runner::new(s(), Some("9f8e7d6\n")).commit, "9f8e7d6");
    assert_eq!(Runner::new(s(), None).commit, "unknown");
}
