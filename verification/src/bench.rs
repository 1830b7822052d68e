//! Benchmark planning: scenarios and their settings, load-generator
//! command lines, proxy start commands and error reporting.

use vstd::prelude::*;
use vstd::string::*;
use crate::balancer::texts;
use crate::net::{all_digits, digits_value, parse_small_decimal};
use crate::text::{char_pos, contains, seq_contains, decimal, find_char, first_at, push_decimal, push_str, seq_starts_with, starts_with, str_eq};

verus! {

// ---------------------------------------------------------------------------
// Time spans
// ---------------------------------------------------------------------------

/// A span of time: whole seconds and nanoseconds below one second.
#[derive(Debug, Clone, Copy, PartialEq, Eq, Structural)]
pub struct Span {
    /// Whole seconds.
    pub secs: u64,
    /// Nanoseconds past the whole seconds (below one second).
    pub nanos: u32,
}

impl Span {
    /// A span of whole seconds.
    pub fn from_secs(secs: u64) -> (r: Span)
        ensures
            r == (Span { secs, nanos: 0 }),
    {
        Span { secs, nanos: 0 }
    }

    /// A span of milliseconds.
    pub fn from_millis(ms: u64) -> (r: Span)
        ensures
            r.secs == ms / 1000,
            r.nanos == (ms % 1000) * 1000000,
    {
        Span { secs: ms / 1000, nanos: ((ms % 1000) * 1000000) as u32 }
    }

    /// The whole seconds of the span.
    pub fn as_secs(&self) -> (r: u64)
        ensures
            r == self.secs,
    {
        self.secs
    }

    /// Whether the span is empty.
    pub fn is_zero(&self) -> (r: bool)
        ensures
            r == (self.secs == 0 && self.nanos == 0),
    {
        self.secs == 0 && self.nanos == 0
    }
}

// ---------------------------------------------------------------------------
// Scenarios
// ---------------------------------------------------------------------------

/// Traffic pattern for a benchmark scenario.
#[derive(Debug, Clone, Copy, PartialEq, Eq, Structural)]
pub enum Workload {
    /// High-concurrency small GET requests.
    SmallRequests {
        /// Number of concurrent connections.
        concurrency: u32,
    },
    /// Large POST requests.
    LargePayload {
        /// Payload size in bytes.
        body_size: usize,
    },
    /// Mixed small and large requests.
    Mixed {
        /// Number of concurrent connections.
        concurrency: u32,
        /// Payload size for large requests in bytes.
        body_size: usize,
    },
    /// HTTP/2 multiplexed streams.
    Http2Multiplex {
        /// Number of concurrent streams.
        streams: u32,
    },
    /// Sustained load for leak detection.
    Sustained,
    /// Ramp-up from low to high QPS.
    Ramp {
        /// Starting requests per second.
        start_qps: u32,
        /// Ending requests per second.
        end_qps: u32,
        /// Step size between ramp levels.
        step: u32,
    },
    /// Raw TCP throughput.
    TcpThroughput,
    /// TCP connection rate (new connection per request).
    TcpConnectionRate,
}

/// Configuration for a benchmark scenario.
#[derive(Debug)]
pub struct Scenario {
    /// Human-readable scenario name.
    pub name: String,
    /// Traffic pattern to generate.
    pub workload: Workload,
    /// Warmup duration before measurement.
    pub warmup: Span,
    /// Measurement duration per run.
    pub duration: Span,
    /// Number of runs (the median is reported).
    pub runs: u32,
}

impl Default for Scenario {
    /// 100 concurrent small requests, 30 s warmup, 120 s runs, 5 runs.
    fn default() -> (r: Self)
        ensures
            r.name@.len() == 0,
            r.workload == (Workload::SmallRequests { concurrency: 100 }),
            r.warmup == (Span { secs: 30, nanos: 0 }),
            r.duration == (Span { secs: 120, nanos: 0 }),
            r.runs == 5,
    {
        Scenario {
            name: String::new(),
            workload: Workload::SmallRequests { concurrency: 100 },
            warmup: Span::from_secs(30),
            duration: Span::from_secs(120),
            runs: 5,
        }
    }
}

/// The workload parameters recorded in a report, sorted by name.
pub open spec fn workload_params(w: Workload) -> Seq<(Seq<char>, nat)> {
    match w {
        Workload::SmallRequests { concurrency } => seq![("concurrency"@, concurrency as nat)],
        Workload::LargePayload { body_size } => seq![("body_size"@, body_size as nat)],
        Workload::Mixed { concurrency, body_size } => seq![("body_size"@, body_size as nat), ("concurrency"@, concurrency as nat)],
        Workload::Http2Multiplex { streams } => seq![("streams"@, streams as nat)],
        Workload::Ramp { start_qps, end_qps, step } => seq![
            ("end_qps"@, end_qps as nat),
            ("start_qps"@, start_qps as nat),
            ("step"@, step as nat),
        ],
        _ => Seq::empty(),
    }
}

/// A reproducible snapshot of a scenario's configuration.
#[derive(Debug)]
pub struct ScenarioSettings {
    /// Warmup duration in seconds.
    pub warmup_secs: u64,
    /// Measurement duration in seconds.
    pub duration_secs: u64,
    /// Number of runs.
    pub runs: u32,
    /// Workload-specific parameters, sorted by name.
    pub workload: Vec<(String, u64)>,
}

/// Texts and values of named parameters.
pub open spec fn param_view(v: Seq<(String, u64)>) -> Seq<(Seq<char>, nat)> {
    v.map_values(|p: (String, u64)| (p.0@, p.1 as nat))
}

fn param(name: &str, value: u64) -> (r: (String, u64))
    ensures
        r.0@ == name@,
        r.1 == value,
{
    (name.to_owned(), value)
}

impl ScenarioSettings {
    /// The settings of a scenario.
    pub fn from_scenario(s: &Scenario) -> (r: Self)
        ensures
            r.warmup_secs == s.warmup.secs,
            r.duration_secs == s.duration.secs,
            r.runs == s.runs,
            param_view(r.workload@) == workload_params(s.workload),
    {
        let mut w: Vec<(String, u64)> = Vec::new();
        match s.workload {
            Workload::SmallRequests { concurrency } => {
                w.push(param("concurrency", concurrency as u64));
            },
            Workload::LargePayload { body_size } => {
                w.push(param("body_size", body_size as u64));
            },
            Workload::Mixed { concurrency, body_size } => {
                w.push(param("body_size", body_size as u64));
                w.push(param("concurrency", concurrency as u64));
            },
            Workload::Http2Multiplex { streams } => {
                w.push(param("streams", streams as u64));
            },
            Workload::Ramp { start_qps, end_qps, step } => {
                w.push(param("end_qps", end_qps as u64));
                w.push(param("start_qps", start_qps as u64));
                w.push(param("step", step as u64));
            },
            _ => {},
        }
        proof {
            assert(param_view(w@) =~= workload_params(s.workload));
        }
        ScenarioSettings {
            warmup_secs: s.warmup.as_secs(),
            duration_secs: s.duration.as_secs(),
            runs: s.runs,
            workload: w,
        }
    }
}

/// Settings for each scenario, keyed by scenario name in input order (a
/// later scenario with the same name replaces an earlier one when collected
/// into a map).
pub fn settings_list(scenarios: &Vec<Scenario>) -> (r: Vec<(String, ScenarioSettings)>)
    ensures
        r@.len() == scenarios@.len(),
        forall|i: int| 0 <= i < r@.len() ==> {
            let (n, st) = #[trigger] r@[i];
            let s = scenarios@[i];
            &&& n@ == s.name@
            &&& st.warmup_secs == s.warmup.secs
            &&& st.duration_secs == s.duration.secs
            &&& st.runs == s.runs
            &&& param_view(st.workload@) == workload_params(s.workload)
        },
{
    let mut out: Vec<(String, ScenarioSettings)> = Vec::new();
    let mut i: usize = 0;
    while i < scenarios.len()
        invariant
            i <= scenarios@.len(),
            out@.len() == i,
            forall|j: int| 0 <= j < i ==> {
                let (n, st) = #[trigger] out@[j];
                let s = scenarios@[j];
                &&& n@ == s.name@
                &&& st.warmup_secs == s.warmup.secs
                &&& st.duration_secs == s.duration.secs
                &&& st.runs == s.runs
                &&& param_view(st.workload@) == workload_params(s.workload)
            },
        decreases scenarios@.len() - i,
    {
        let s = &scenarios[i];
        out.push((s.name.as_str().to_owned(), ScenarioSettings::from_scenario(s)));
        i = i + 1;
    }
    out
}

// ---------------------------------------------------------------------------
// Errors and environment
// ---------------------------------------------------------------------------

/// Decimal text of a signed number.
pub open spec fn signed_decimal(n: int) -> Seq<char> {
    if n < 0 { "-"@ + decimal((-n) as nat) } else { decimal(n as nat) }
}

fn push_signed(s: &mut String, n: i32)
    ensures
        final(s)@ == old(s)@ + signed_decimal(n as int),
{
    if n < 0 {
        push_str(s, "-");
        let m: u64 = (0i64 - (n as i64)) as u64;
        push_decimal(s, m);
    } else {
        push_decimal(s, n as u64);
    }
}

/// Errors of benchmark operations.
#[derive(Debug)]
pub enum BenchmarkError {
    /// A required external tool is not installed.
    ToolNotFound(String),
    /// A tool exited with a non-zero status.
    ToolFailed {
        /// The tool.
        tool: String,
        /// Its exit code.
        code: i32,
        /// What it wrote to stderr.
        stderr: String,
    },
    /// A tool's output could not be parsed.
    ParseError {
        /// The tool.
        tool: String,
        /// Why parsing failed.
        reason: String,
    },
    /// An I/O failure, with its description.
    Io(String),
    /// A JSON failure, with its description.
    Json(String),
    /// A YAML failure, with its description.
    Yaml(String),
}

/// The message of a benchmark error.
pub open spec fn benchmark_error_message(e: BenchmarkError) -> Seq<char> {
    match e {
        BenchmarkError::ToolNotFound(t) => "tool not found: "@ + t@,
        BenchmarkError::ToolFailed { tool, code, .. } => "tool failed: "@ + tool@ + " exited with "@ + signed_decimal(code as int),
        BenchmarkError::ParseError { tool, reason } => "failed to parse "@ + tool@ + " output: "@ + reason@,
        BenchmarkError::Io(m) => "io error: "@ + m@,
        BenchmarkError::Json(m) => "json error: "@ + m@,
        BenchmarkError::Yaml(m) => "yaml error: "@ + m@,
    }
}

impl BenchmarkError {
    /// The error's message.
    pub fn to_string(&self) -> (r: String)
        ensures
            r@ == benchmark_error_message(*self),
    {
        let mut s = String::new();
        match self {
            BenchmarkError::ToolNotFound(t) => {
                push_str(&mut s, "tool not found: ");
                push_str(&mut s, t.as_str());
            },
            BenchmarkError::ToolFailed { tool, code, .. } => {
                push_str(&mut s, "tool failed: ");
                push_str(&mut s, tool.as_str());
                push_str(&mut s, " exited with ");
                push_signed(&mut s, *code);
            },
            BenchmarkError::ParseError { tool, reason } => {
                push_str(&mut s, "failed to parse ");
                push_str(&mut s, tool.as_str());
                push_str(&mut s, " output: ");
                push_str(&mut s, reason.as_str());
            },
            BenchmarkError::Io(m) => {
                push_str(&mut s, "io error: ");
                push_str(&mut s, m.as_str());
            },
            BenchmarkError::Json(m) => {
                push_str(&mut s, "json error: ");
                push_str(&mut s, m.as_str());
            },
            BenchmarkError::Yaml(m) => {
                push_str(&mut s, "yaml error: ");
                push_str(&mut s, m.as_str());
            },
        }
        s
    }
}

/// Error counts of a benchmark run.
#[derive(Debug, Clone, Copy, PartialEq, Eq, Structural)]
pub struct ErrorMetrics {
    /// Non-2xx HTTP responses (absent for TCP).
    pub non_2xx: Option<u64>,
    /// Request timeouts.
    pub timeouts: u64,
    /// TCP connection failures.
    pub connect_failures: u64,
}

/// The machine a benchmark ran on.
#[derive(Debug)]
pub struct Environment {
    /// CPU model string.
    pub cpu: String,
    /// Operating system identifier.
    pub os: String,
}

/// A `White_Space` character, as `char::is_whitespace` defines it.
pub open spec fn white_space(c: char) -> bool {
    let u = c as u32;
    (0x9 <= u && u <= 0xd) || u == 0x20 || u == 0x85 || u == 0xa0 || u == 0x1680 || (0x2000 <= u && u <= 0x200a)
        || u == 0x2028 || u == 0x2029 || u == 0x202f || u == 0x205f || u == 0x3000
}

fn is_white_space(c: char) -> (r: bool)
    ensures
        r == white_space(c),
{
    let u = c as u32;
    (0x9 <= u && u <= 0xd) || u == 0x20 || u == 0x85 || u == 0xa0 || u == 0x1680 || (0x2000 <= u && u <= 0x200a)
        || u == 0x2028 || u == 0x2029 || u == 0x202f || u == 0x205f || u == 0x3000
}

/// `s[lo..hi]` is `s` without leading and trailing white space.
pub open spec fn trim_bounds(s: Seq<char>, lo: int, hi: int) -> bool {
    &&& 0 <= lo <= hi <= s.len()
    &&& forall|i: int| 0 <= i < lo ==> white_space(#[trigger] s[i])
    &&& forall|i: int| hi <= i < s.len() ==> white_space(#[trigger] s[i])
    &&& (lo < hi ==> !white_space(s[lo]) && !white_space(s[hi - 1]))
    &&& (lo == hi ==> forall|i: int| 0 <= i < s.len() ==> white_space(#[trigger] s[i]))
}

/// `m` is `f` without leading and trailing white space.
pub open spec fn is_trim_of(f: Seq<char>, m: Seq<char>) -> bool {
    exists|lo: int, hi: int| trim_bounds(f, lo, hi) && m == f.subrange(lo, hi)
}

/// `s` without leading and trailing white space.
pub fn trim(s: &str) -> (r: String)
    ensures
        is_trim_of(s@, r@),
{
    let n = s.unicode_len();
    let mut lo: usize = 0;
    while lo < n && is_white_space(s.get_char(lo))
        invariant
            n == s@.len(),
            lo <= n,
            forall|i: int| 0 <= i < lo ==> white_space(#[trigger] s@[i]),
        decreases n - lo,
    {
        lo = lo + 1;
    }
    let mut hi: usize = n;
    while hi > lo && is_white_space(s.get_char(hi - 1))
        invariant
            n == s@.len(),
            lo <= hi <= n,
            forall|i: int| hi <= i < n ==> white_space(#[trigger] s@[i]),
        decreases hi - lo,
    {
        hi = hi - 1;
    }
    let r = s.substring_char(lo, hi).to_owned();
    proof {
        if lo == hi {
            assert forall|i: int| 0 <= i < s@.len() implies white_space(#[trigger] s@[i]) by {
                if i >= lo {
                    assert(i >= hi);
                }
            }
        }
        assert(trim_bounds(s@, lo as int, hi as int));
    }
    r
}

/// The first line of `s` that starts with `model name`, if any.
pub open spec fn first_model_line(s: Seq<char>) -> Option<Seq<char>>
    decreases s.len(),
{
    let k = char_pos(s, '\n');
    let line = s.subrange(0, k);
    if seq_starts_with(line, "model name"@) {
        Some(line)
    } else if k >= s.len() {
        None
    } else {
        proof {
            lemma_char_pos_bounds(s, '\n');
        }
        first_model_line(s.subrange(k + 1, s.len() as int))
    }
}

/// `char_pos` lies within the text.
pub proof fn lemma_char_pos_bounds(s: Seq<char>, c: char)
    ensures
        0 <= char_pos(s, c) <= s.len(),
{
    if exists|i: int| first_at(s, c, i) {
        let i = choose|i: int| first_at(s, c, i);
        assert(first_at(s, c, i));
    }
}

/// The text between the first and the second `:` of a line (or its end).
pub open spec fn second_field(line: Seq<char>) -> Option<Seq<char>> {
    let p = char_pos(line, ':');
    if p >= line.len() {
        None
    } else {
        let rest = line.subrange(p + 1, line.len() as int);
        Some(rest.subrange(0, char_pos(rest, ':')))
    }
}

/// The CPU model named in `/proc/cpuinfo` text: the untrimmed value of the
/// first `model name` line.
pub open spec fn cpu_model_field(info: Seq<char>) -> Option<Seq<char>> {
    match first_model_line(info) {
        Some(line) => second_field(line),
        None => None,
    }
}

/// Find the CPU model in `/proc/cpuinfo` text, trimmed.
pub fn cpu_model(info: &str) -> (r: Option<String>)
    ensures
        cpu_model_field(info@) is None ==> r is None,
        cpu_model_field(info@) is Some ==> r is Some && is_trim_of(cpu_model_field(info@)->0, r->0@),
{
    let n = info.unicode_len();
    let mut start: usize = 0;
    proof {
        assert(info@.subrange(0, n as int) =~= info@);
    }
    while start <= n
        invariant
            n == info@.len(),
            start <= n,
            first_model_line(info@) == first_model_line(info@.subrange(start as int, n as int)),
        decreases n + 1 - start,
    {
        let rest = info.substring_char(start, n);
        let k = find_char(rest, '\n');
        let line = rest.substring_char(0, k);
        proof {
            lemma_char_pos_bounds(rest@, '\n');
            assert(line@ == rest@.subrange(0, k as int));
        }
        if starts_with(line, "model name") {
            proof {
                assert(first_model_line(rest@) == Some(line@));
                assert(cpu_model_field(info@) == second_field(line@));
            }
            let p = find_char(line, ':');
            let ln = line.unicode_len();
            if p >= ln {
                return None;
            }
            let after = line.substring_char(p + 1, ln);
            let q = find_char(after, ':');
            let field = after.substring_char(0, q);
            proof {
                assert(second_field(line@) == Some(field@));
            }
            return Some(trim(field));
        }
        if k >= rest.unicode_len() {
            proof {
                assert(first_model_line(rest@) is None);
            }
            return None;
        }
        proof {
            assert(first_model_line(rest@) == first_model_line(rest@.subrange(k + 1, rest@.len() as int)));
            assert(rest@.subrange(k + 1, rest@.len() as int) =~= info@.subrange(start + k + 1, n as int));
        }
        start = start + k + 1;
    }
    None
}

/// The machine description from `/proc/cpuinfo` text (when it could be
/// read) and the OS name: the CPU model, or `unknown`.
pub fn environment_from(cpuinfo: Option<&str>, os: &str) -> (r: Environment)
    ensures
        r.os@ == os@,
        cpuinfo is None ==> r.cpu@ == "unknown"@,
        cpuinfo matches Some(info) ==> match cpu_model_field(info@) {
            None => r.cpu@ == "unknown"@,
            Some(f) => is_trim_of(f, r.cpu@),
        },
{
    let cpu = match cpuinfo {
        Some(info) => match cpu_model(info) {
            Some(m) => m,
            None => "unknown".to_owned(),
        },
        None => "unknown".to_owned(),
    };
    Environment { cpu, os: os.to_owned() }
}

// ---------------------------------------------------------------------------
// Load generators
// ---------------------------------------------------------------------------

/// Fortio protocol mode.
#[derive(Debug, Clone, Copy, PartialEq, Eq, Structural)]
pub enum FortioProtocol {
    /// HTTP load.
    Http,
    /// Raw TCP load.
    Tcp,
}

/// A Fortio load run.
#[derive(Debug)]
pub struct FortioConfig {
    /// Target URL or `host:port`.
    pub target: String,
    /// Protocol mode.
    pub protocol: FortioProtocol,
    /// Requests per second (0: as fast as possible).
    pub qps: u32,
    /// Test duration.
    pub duration: Span,
    /// Number of connections.
    pub connections: u32,
    /// Do not catch up when falling behind the target rate.
    pub no_catchup: bool,
    /// Use HTTP/2.
    pub h2: bool,
}

/// The target Fortio is pointed at: TCP targets carry the `tcp://` scheme.
pub open spec fn fortio_target(c: FortioConfig) -> Seq<char> {
    match c.protocol {
        FortioProtocol::Http => c.target@,
        FortioProtocol::Tcp => if seq_starts_with(c.target@, "tcp://"@) { c.target@ } else { "tcp://"@ + c.target@ },
    }
}

/// The arguments of a Fortio load run.
pub open spec fn fortio_arg_list(c: FortioConfig) -> Seq<Seq<char>> {
    let base = seq![
        "load"@, "-json"@, "-"@, "-qps"@, decimal(c.qps as nat), "-c"@, decimal(c.connections as nat), "-t"@,
        decimal(c.duration.secs as nat) + "s"@,
    ];
    let a = if c.no_catchup { base.push("-nocatchup"@) } else { base };
    let b = if c.h2 { a.push("-h2"@) } else { a };
    b.push(fortio_target(c))
}

fn lit(s: &str) -> (r: String)
    ensures
        r@ == s@,
{
    s.to_owned()
}

fn dec(n: u64) -> (r: String)
    ensures
        r@ == decimal(n as nat),
{
    let mut s = String::new();
    push_decimal(&mut s, n);
    s
}

/// Build the Fortio command-line arguments for a load run.
pub fn fortio_args(c: &FortioConfig) -> (r: Vec<String>)
    ensures
        texts(r@) == fortio_arg_list(*c),
{
    let mut args: Vec<String> = Vec::new();
    args.push(lit("load"));
    args.push(lit("-json"));
    args.push(lit("-"));
    args.push(lit("-qps"));
    args.push(dec(c.qps as u64));
    args.push(lit("-c"));
    args.push(dec(c.connections as u64));
    args.push(lit("-t"));
    let mut t = dec(c.duration.as_secs());
    push_str(&mut t, "s");
    args.push(t);
    let ghost base = texts(args@);
    proof {
        assert(base =~= seq![
            "load"@, "-json"@, "-"@, "-qps"@, decimal(c.qps as nat), "-c"@, decimal(c.connections as nat), "-t"@,
            decimal(c.duration.secs as nat) + "s"@,
        ]);
    }
    if c.no_catchup {
        args.push(lit("-nocatchup"));
    }
    let ghost a = texts(args@);
    proof {
        assert(a =~= if c.no_catchup { base.push("-nocatchup"@) } else { base });
    }
    if c.h2 {
        args.push(lit("-h2"));
    }
    let ghost b = texts(args@);
    proof {
        assert(b =~= if c.h2 { a.push("-h2"@) } else { a });
    }
    let target = match c.protocol {
        FortioProtocol::Http => lit(c.target.as_str()),
        FortioProtocol::Tcp => {
            if starts_with(c.target.as_str(), "tcp://") {
                lit(c.target.as_str())
            } else {
                let mut t = lit("tcp://");
                push_str(&mut t, c.target.as_str());
                t
            }
        },
    };
    args.push(target);
    proof {
        assert(texts(args@) =~= b.push(fortio_target(*c)));
    }
    args
}

/// A Vegeta load run.
#[derive(Debug)]
pub struct VegetaConfig {
    /// Target URL.
    pub target: String,
    /// Requests per second (0: as fast as possible).
    pub rate: u32,
    /// Attack duration.
    pub duration: Span,
    /// Number of workers.
    pub workers: u32,
    /// HTTP method.
    pub method: String,
    /// Request body.
    pub body: Option<Vec<u8>>,
}

/// The Vegeta targets file: one `METHOD URL` line.
pub open spec fn vegeta_targets_text(c: VegetaConfig) -> Seq<char> {
    c.method@ + " "@ + c.target@ + "\n"@
}

/// Build the Vegeta targets file contents.
pub fn vegeta_target_spec(c: &VegetaConfig) -> (r: String)
    ensures
        r@ == vegeta_targets_text(*c),
{
    let mut s = String::new();
    push_str(&mut s, c.method.as_str());
    push_str(&mut s, " ");
    push_str(&mut s, c.target.as_str());
    push_str(&mut s, "\n");
    s
}

/// The Vegeta shell pipeline: attack with the targets file (and the body
/// file, when there is a body), report as JSON.
pub open spec fn vegeta_pipeline_text(c: VegetaConfig, targets_path: Seq<char>, body_path: Option<Seq<char>>) -> Seq<char> {
    let worker_flag = if c.rate == 0 { "-max-workers "@ + decimal(c.workers as nat) } else { "-workers "@ + decimal(c.workers as nat) };
    let body_flag = match body_path {
        Some(p) => "-body "@ + p,
        None => Seq::empty(),
    };
    "vegeta attack -targets "@ + targets_path + " -rate "@ + decimal(c.rate as nat) + " -duration "@
        + decimal(c.duration.secs as nat) + "s "@ + worker_flag + " "@ + body_flag + " | vegeta report --type=json"@
}

/// Build the Vegeta shell pipeline.
pub fn vegeta_pipeline(c: &VegetaConfig, targets_path: &str, body_path: Option<&str>) -> (r: String)
    ensures
        r@ == vegeta_pipeline_text(*c, targets_path@, match body_path { Some(p) => Some(p@), None => None }),
{
    let mut s = String::new();
    push_str(&mut s, "vegeta attack -targets ");
    push_str(&mut s, targets_path);
    push_str(&mut s, " -rate ");
    push_decimal(&mut s, c.rate as u64);
    push_str(&mut s, " -duration ");
    push_decimal(&mut s, c.duration.as_secs());
    push_str(&mut s, "s ");
    if c.rate == 0 {
        push_str(&mut s, "-max-workers ");
    } else {
        push_str(&mut s, "-workers ");
    }
    push_decimal(&mut s, c.workers as u64);
    push_str(&mut s, " ");
    match body_path {
        Some(p) => {
            push_str(&mut s, "-body ");
            push_str(&mut s, p);
        },
        None => {
            proof {
                reveal_strlit("");
            }
        },
    }
    push_str(&mut s, " | vegeta report --type=json");
    proof {
        let wf = if c.rate == 0 { "-max-workers "@ + decimal(c.workers as nat) } else { "-workers "@ + decimal(c.workers as nat) };
        let bf = match body_path {
            Some(p) => "-body "@ + p@,
            None => Seq::<char>::empty(),
        };
        assert(s@ =~= "vegeta attack -targets "@ + targets_path@ + " -rate "@ + decimal(c.rate as nat) + " -duration "@
            + decimal(c.duration.secs as nat) + "s "@ + wf + " "@ + bf + " | vegeta report --type=json"@);
    }
    s
}

// ---------------------------------------------------------------------------
// Runner
// ---------------------------------------------------------------------------

/// Default port for the echo backend.
pub const DEFAULT_BACKEND_PORT: u16 = 18080;

/// Longest wait for a health check, in seconds.
pub const HEALTH_TIMEOUT_SECS: u64 = 120;

/// Interval between health check polls, in milliseconds.
pub const HEALTH_POLL_INTERVAL_MS: u64 = 250;

/// Orchestration settings for running a scenario against proxies.
#[derive(Debug)]
pub struct Runner {
    /// The scenario to run.
    pub scenario: Scenario,
    /// Port for the echo backend.
    pub backend_port: u16,
    /// Git commit SHA for result tagging.
    pub commit: String,
    /// Include raw tool reports in results.
    pub include_raw_report: bool,
}

/// What one measurement window runs.
#[derive(Debug)]
pub enum LoadPlan {
    /// A Vegeta attack.
    Vegeta(VegetaConfig),
    /// A Fortio load.
    Fortio(FortioConfig),
    /// A stepped Vegeta ramp over `url`.
    Ramp {
        /// Target URL.
        url: String,
        /// Starting requests per second.
        start_qps: u32,
        /// Ending requests per second.
        end_qps: u32,
        /// Step size.
        step: u32,
        /// Total duration.
        duration: Span,
    },
}

/// Which tool's report format a run produces.
#[derive(Debug, Clone, Copy, PartialEq, Eq, Structural)]
pub enum LoadTool {
    /// Vegeta's JSON report.
    Vegeta,
    /// Fortio's JSON report.
    Fortio,
}

/// The smaller of a worker count and 64.
pub open spec fn capped_workers(n: u32) -> u32 {
    if n < 64 { n } else { 64 }
}

/// `n` bytes of `x`.
pub open spec fn filler(n: nat) -> Seq<u8> {
    Seq::new(n, |i: int| 120u8)
}

fn filler_bytes(n: usize) -> (r: Vec<u8>)
    ensures
        r@ == filler(n as nat),
{
    let mut v: Vec<u8> = Vec::new();
    let mut i: usize = 0;
    while i < n
        invariant
            i <= n,
            v@ == filler(i as nat),
        decreases n - i,
    {
        v.push(120u8);
        proof {
            assert(v@ =~= filler((i + 1) as nat));
        }
        i = i + 1;
    }
    v
}

/// `c` is a Vegeta run against `url` with the given settings.
pub open spec fn is_vegeta(c: VegetaConfig, url: Seq<char>, rate: u32, duration: Span, workers: u32, method: Seq<char>, body: Option<Seq<u8>>) -> bool {
    &&& c.target@ == url
    &&& c.rate == rate
    &&& c.duration == duration
    &&& c.workers == workers
    &&& c.method@ == method
    &&& match (c.body, body) {
        (Some(b), Some(e)) => b@ == e,
        (None, None) => true,
        _ => false,
    }
}

/// `c` is a Fortio run against `target` with the given settings.
pub open spec fn is_fortio(c: FortioConfig, target: Seq<char>, protocol: FortioProtocol, duration: Span, connections: u32) -> bool {
    &&& c.target@ == target
    &&& c.protocol == protocol
    &&& c.qps == 0
    &&& c.duration == duration
    &&& c.connections == connections
    &&& c.no_catchup
    &&& !c.h2
}

/// The load a workload generates for one window against `addr`.
pub open spec fn planned(w: Workload, addr: Seq<char>, duration: Span, p: LoadPlan) -> bool {
    let url = "http://"@ + addr + "/"@;
    match (w, p) {
        (Workload::SmallRequests { concurrency }, LoadPlan::Vegeta(c)) => is_vegeta(c, url, 0, duration, capped_workers(concurrency), "GET"@, None),
        (Workload::LargePayload { body_size }, LoadPlan::Vegeta(c)) => is_vegeta(c, url, 0, duration, 16, "POST"@, Some(filler(body_size as nat))),
        (Workload::Mixed { concurrency, body_size }, LoadPlan::Vegeta(c)) => is_vegeta(c, url, 0, duration, capped_workers(concurrency), "POST"@, Some(filler(body_size as nat))),
        (Workload::Http2Multiplex { streams }, LoadPlan::Fortio(c)) => is_fortio(c, url, FortioProtocol::Http, duration, streams),
        (Workload::Sustained, LoadPlan::Vegeta(c)) => is_vegeta(c, url, 500, duration, 32, "GET"@, None),
        (Workload::Ramp { start_qps, end_qps, step }, LoadPlan::Ramp { url: u, start_qps: s, end_qps: e, step: st, duration: d }) =>
            u@ == url && s == start_qps && e == end_qps && st == step && d == duration,
        (Workload::TcpThroughput, LoadPlan::Fortio(c)) => is_fortio(c, addr, FortioProtocol::Tcp, duration, 8),
        (Workload::TcpConnectionRate, LoadPlan::Fortio(c)) => is_fortio(c, addr, FortioProtocol::Tcp, duration, 1),
        _ => false,
    }
}

fn vegeta(url: &str, rate: u32, duration: Span, workers: u32, method: &str, body: Option<Vec<u8>>) -> (r: LoadPlan)
    ensures
        r matches LoadPlan::Vegeta(c) && c.target@ == url@ && c.rate == rate && c.duration == duration
            && c.workers == workers && c.method@ == method@ && c.body == body,
{
    LoadPlan::Vegeta(VegetaConfig { target: lit(url), rate, duration, workers, method: lit(method), body })
}

fn fortio(target: &str, protocol: FortioProtocol, duration: Span, connections: u32) -> (r: LoadPlan)
    ensures
        r matches LoadPlan::Fortio(c) && is_fortio(c, target@, protocol, duration, connections),
{
    LoadPlan::Fortio(FortioConfig { target: lit(target), protocol, qps: 0, duration, connections, no_catchup: true, h2: false })
}

/// The commit a run is tagged with: the trimmed output of a successful
/// `git rev-parse --short HEAD`, or `unknown` when there is none.
pub fn commit_from(output: Option<&str>) -> (r: String)
    ensures
        output is None ==> r@ == "unknown"@,
        output is Some ==> is_trim_of(output->0@, r@),
{
    match output {
        Some(o) => trim(o),
        None => lit("unknown"),
    }
}

impl Runner {
    /// A runner with the default backend port and no raw reports, tagged
    /// with the commit read from `git_output`, the output of a successful
    /// `git rev-parse --short HEAD` (`None` when git failed or is absent).
    pub fn new(scenario: Scenario, git_output: Option<&str>) -> (r: Self)
        ensures
            r.scenario == scenario,
            r.backend_port == DEFAULT_BACKEND_PORT,
            git_output is None ==> r.commit@ == "unknown"@,
            git_output is Some ==> is_trim_of(git_output->0@, r.commit@),
            !r.include_raw_report,
    {
        Runner { scenario, backend_port: DEFAULT_BACKEND_PORT, commit: commit_from(git_output), include_raw_report: false }
    }

    /// Override the backend port.
    pub fn with_backend_port(self, port: u16) -> (r: Self)
        ensures
            r.scenario == self.scenario,
            r.backend_port == port,
            r.commit == self.commit,
            r.include_raw_report == self.include_raw_report,
    {
        let mut s = self;
        s.backend_port = port;
        s
    }

    /// Override the commit SHA used for result tagging.
    pub fn with_commit(self, commit: String) -> (r: Self)
        ensures
            r.scenario == self.scenario,
            r.backend_port == self.backend_port,
            r.commit == commit,
            r.include_raw_report == self.include_raw_report,
    {
        let mut s = self;
        s.commit = commit;
        s
    }

    /// Include raw tool reports in results.
    pub fn with_raw_report(self, raw: bool) -> (r: Self)
        ensures
            r.scenario == self.scenario,
            r.backend_port == self.backend_port,
            r.commit == self.commit,
            r.include_raw_report == raw,
    {
        let mut s = self;
        s.include_raw_report = raw;
        s
    }

    /// Whether a warmup window runs before measurement.
    pub fn needs_warmup(&self) -> (r: bool)
        ensures
            r == !(self.scenario.warmup.secs == 0 && self.scenario.warmup.nanos == 0),
    {
        !self.scenario.warmup.is_zero()
    }

    /// The load of one measurement window against a proxy listening on
    /// `addr`.
    pub fn load_plan(&self, addr: &str, duration: Span) -> (r: LoadPlan)
        ensures
            planned(self.scenario.workload, addr@, duration, r),
    {
        let mut url = lit("http://");
        push_str(&mut url, addr);
        push_str(&mut url, "/");
        let u = url.as_str();
        match self.scenario.workload {
            Workload::SmallRequests { concurrency } => {
                vegeta(u, 0, duration, if concurrency < 64 { concurrency } else { 64 }, "GET", None)
            },
            Workload::LargePayload { body_size } => {
                vegeta(u, 0, duration, 16, "POST", Some(filler_bytes(body_size)))
            },
            Workload::Mixed { concurrency, body_size } => {
                vegeta(u, 0, duration, if concurrency < 64 { concurrency } else { 64 }, "POST", Some(filler_bytes(body_size)))
            },
            Workload::Http2Multiplex { streams } => fortio(u, FortioProtocol::Http, duration, streams),
            Workload::Sustained => vegeta(u, 500, duration, 32, "GET", None),
            Workload::Ramp { start_qps, end_qps, step } => LoadPlan::Ramp {
                url: lit(u),
                start_qps,
                end_qps,
                step,
                duration,
            },
            Workload::TcpThroughput => fortio(addr, FortioProtocol::Tcp, duration, 8),
            Workload::TcpConnectionRate => fortio(addr, FortioProtocol::Tcp, duration, 1),
        }
    }

    /// The tool whose report a measurement produces.
    pub fn result_tool(&self) -> (r: LoadTool)
        ensures
            r == match self.scenario.workload {
                Workload::TcpThroughput | Workload::TcpConnectionRate | Workload::Http2Multiplex { .. } => LoadTool::Fortio,
                _ => LoadTool::Vegeta,
            },
    {
        match self.scenario.workload {
            Workload::TcpThroughput | Workload::TcpConnectionRate | Workload::Http2Multiplex { .. } => LoadTool::Fortio,
            _ => LoadTool::Vegeta,
        }
    }
}

// ---------------------------------------------------------------------------
// Ramp
// ---------------------------------------------------------------------------

/// The QPS levels of a ramp: from `start` to `end` inclusive in steps of
/// `step` (at least 1).
pub open spec fn ramp_levels(start: u32, end: u32, step: u32) -> Seq<nat> {
    let s: nat = if step == 0 { 1 } else { step as nat };
    let count: nat = if start <= end { ((end - start) as nat / s) + 1 } else { 0 };
    Seq::new(count, |i: int| (start + i * s) as nat)
}

/// The QPS levels of a ramp.
pub fn ramp_steps(start: u32, end: u32, step: u32) -> (r: Vec<u32>)
    ensures
        r@.map_values(|q: u32| q as nat) == ramp_levels(start, end, step),
{
    let s: u64 = if step == 0 { 1 } else { step as u64 };
    let mut out: Vec<u32> = Vec::new();
    let mut v: u64 = start as u64;
    let mut i: u64 = 0;
    let ghost count: nat = if start <= end { ((end - start) as nat / s as nat) + 1 } else { 0 };
    while v <= end as u64
        invariant
            s >= 1,
            s == (if step == 0 { 1 } else { step as u64 }),
            count == (if start <= end { ((end - start) as nat / s as nat) + 1 } else { 0nat }),
            v == start + i * s,
            i <= count,
            v <= end as u64 ==> i < count,
            v > end as u64 ==> i == count,
            out@.len() == i,
            forall|k: int| 0 <= k < i ==> out@[k] as nat == start + k * s,
        decreases count - i,
    {
        assert(v <= 0xffff_ffff);
        out.push(v as u32);
        proof {
            assert((i + 1) * s == i * s + s) by (nonlinear_arith);
            if start + (i + 1) * s <= end {
                assert((i + 1) * s <= end - start);
                assert((i + 1) * s <= ((end - start) as nat / s as nat) * s) by (nonlinear_arith)
                    requires (i + 1) * s <= end - start, s >= 1, i >= 0, end >= start,
                {
                    vstd::arithmetic::div_mod::lemma_fundamental_div_mod((end - start) as int, s as int);
                }
                assert(i + 1 < count) by (nonlinear_arith)
                    requires (i + 1) * s <= ((end - start) as nat / s as nat) * s, s >= 1,
                        count == ((end - start) as nat / s as nat) + 1,
                {
                }
            } else {
                assert(i + 1 == count) by (nonlinear_arith)
                    requires start + i * s <= end, start + (i + 1) * s > end, s >= 1, i >= 0,
                        count == ((end - start) as nat / s as nat) + 1,
                {
                    vstd::arithmetic::div_mod::lemma_fundamental_div_mod((end - start) as int, s as int);
                }
            }
        }
        v = v + s;
        i = i + 1;
    }
    proof {
        assert(out@.map_values(|q: u32| q as nat) =~= ramp_levels(start, end, step));
    }
    out
}

/// The length of each ramp level: the total seconds shared evenly, at least
/// one second.
pub open spec fn ramp_step_secs(total_secs: u64, levels: nat) -> u64 {
    if levels == 0 { 1 } else if total_secs as nat / levels >= 1 { (total_secs as nat / levels) as u64 } else { 1 }
}

/// Plan a ramp: its QPS levels and the length of each level. A ramp without
/// levels fails.
pub fn ramp_plan(start: u32, end: u32, step: u32, total: Span) -> (r: Result<(Vec<u32>, Span), BenchmarkError>)
    ensures
        ramp_levels(start, end, step).len() == 0 ==> (r matches Err(BenchmarkError::ToolFailed { tool, code, stderr })
            && tool@ == "ramp"@ && code == -1 && stderr@ == "no ramp steps generated"@),
        ramp_levels(start, end, step).len() > 0 ==> (r matches Ok((levels, d))
            && levels@.map_values(|q: u32| q as nat) == ramp_levels(start, end, step)
            && d == Span::from_secs_spec(ramp_step_secs(total.secs, ramp_levels(start, end, step).len()))),
{
    let steps = ramp_steps(start, end, step);
    proof {
        assert(steps@.map_values(|q: u32| q as nat).len() == steps@.len());
    }
    if steps.len() == 0 {
        return Err(BenchmarkError::ToolFailed { tool: lit("ramp"), code: -1, stderr: lit("no ramp steps generated") });
    }
    let per = total.as_secs() / (steps.len() as u64);
    let secs = if per >= 1 { per } else { 1 };
    Ok((steps, Span::from_secs(secs)))
}

impl Span {
    /// A span of whole seconds.
    pub open spec fn from_secs_spec(secs: u64) -> Span {
        Span { secs, nanos: 0 }
    }
}

/// The Vegeta pipeline of one ramp level.
pub open spec fn ramp_pipeline_text(targets_path: Seq<char>, qps: u32, secs: u64) -> Seq<char> {
    "vegeta attack -targets "@ + targets_path + " -rate "@ + decimal(qps as nat) + " -duration "@ + decimal(secs as nat)
        + "s -workers "@ + decimal(capped_workers(qps) as nat) + " | vegeta report --type=json"@
}

/// Build the Vegeta pipeline of one ramp level.
pub fn ramp_pipeline(targets_path: &str, qps: u32, step: Span) -> (r: String)
    ensures
        r@ == ramp_pipeline_text(targets_path@, qps, step.secs),
{
    let mut s = String::new();
    push_str(&mut s, "vegeta attack -targets ");
    push_str(&mut s, targets_path);
    push_str(&mut s, " -rate ");
    push_decimal(&mut s, qps as u64);
    push_str(&mut s, " -duration ");
    push_decimal(&mut s, step.as_secs());
    push_str(&mut s, "s -workers ");
    push_decimal(&mut s, if qps < 64 { qps as u64 } else { 64 });
    push_str(&mut s, " | vegeta report --type=json");
    s
}

/// The ramp's targets file: one `GET` line for `url`.
pub fn ramp_targets(url: &str) -> (r: String)
    ensures
        r@ == "GET "@ + url@ + "\n"@,
{
    let mut s = lit("GET ");
    push_str(&mut s, url);
    push_str(&mut s, "\n");
    s
}

// ---------------------------------------------------------------------------
// Health checks
// ---------------------------------------------------------------------------

/// `url` without a leading `http://`.
pub open spec fn strip_http(url: Seq<char>) -> Seq<char> {
    if seq_starts_with(url, "http://"@) { url.subrange(7, url.len() as int) } else { url }
}

/// The `host:port` and path (without its leading `/`) of a URL.
pub open spec fn split_target(url: Seq<char>) -> (Seq<char>, Seq<char>) {
    let s = strip_http(url);
    let k = char_pos(s, '/');
    if k < s.len() { (s.subrange(0, k), s.subrange(k + 1, s.len() as int)) } else { (s, Seq::empty()) }
}

/// The health-check request for a URL: where to connect, and the
/// `GET` request text asking the server to close the connection.
pub fn http_get_request(url: &str) -> (r: (String, String))
    ensures
        r.0@ == split_target(url@).0,
        r.1@ == "GET /"@ + split_target(url@).1 + " HTTP/1.1\r\nHost: "@ + split_target(url@).0
            + "\r\nConnection: close\r\n\r\n"@,
{
    let n = url.unicode_len();
    let stripped = if starts_with(url, "http://") {
        proof {
            reveal_strlit("http://");
        }
        url.substring_char(7, n)
    } else {
        url
    };
    let m = stripped.unicode_len();
    let k = find_char(stripped, '/');
    let (host_port, path) = if k < m {
        (stripped.substring_char(0, k), stripped.substring_char(k + 1, m))
    } else {
        proof {
            reveal_strlit("");
        }
        (stripped, "")
    };
    let mut req = lit("GET /");
    push_str(&mut req, path);
    push_str(&mut req, " HTTP/1.1\r\nHost: ");
    push_str(&mut req, host_port);
    push_str(&mut req, "\r\nConnection: close\r\n\r\n");
    (lit(host_port), req)
}

// ---------------------------------------------------------------------------
// Proxies under test
// ---------------------------------------------------------------------------

/// A proxy that can be benchmarked.
pub trait ProxyConfig {
    /// Short name used in results.
    fn name(&self) -> &str;

    /// Address the proxy listens on (`host:port`).
    fn listen_address(&self) -> &str;

    /// The command and arguments that start the proxy, given the absolute
    /// path of its configuration file.
    fn start_command(&self, config_abs: &str) -> (String, Vec<String>);

    /// Path to the proxy's configuration file.
    fn config_path(&self) -> &str;

    /// URL polled for readiness; the listen address is probed over TCP
    /// when there is none.
    fn health_url(&self) -> (r: Option<String>)
        default_ensures
            r is None,
    {
        None
    }

    /// Docker container to remove before and after a run, if any.
    fn container_name(&self) -> (r: Option<&str>)
        default_ensures
            r is None,
    {
        None
    }
}

/// The arguments of a `docker run` that starts a proxy container.
pub open spec fn docker_run_args(container: Seq<char>, mount: Seq<char>, image: Seq<char>) -> Seq<Seq<char>> {
    seq![
        "run"@, "--rm"@, "--name"@, container, "--network"@, "host"@, "--cpus=4.0"@, "--memory=2g"@, "-v"@, mount,
        image,
    ]
}

fn docker_run(container: &str, config_abs: &str, target: &str, image: &str) -> (r: Vec<String>)
    ensures
        texts(r@) == docker_run_args(container@, config_abs@ + ":"@ + target@ + ":ro"@, image@),
{
    let mut mount = lit(config_abs);
    push_str(&mut mount, ":");
    push_str(&mut mount, target);
    push_str(&mut mount, ":ro");
    let mut v: Vec<String> = Vec::new();
    v.push(lit("run"));
    v.push(lit("--rm"));
    v.push(lit("--name"));
    v.push(lit(container));
    v.push(lit("--network"));
    v.push(lit("host"));
    v.push(lit("--cpus=4.0"));
    v.push(lit("--memory=2g"));
    v.push(lit("-v"));
    v.push(mount);
    v.push(lit(image));
    proof {
        assert(texts(v@) =~= docker_run_args(container@, config_abs@ + ":"@ + target@ + ":ro"@, image@));
    }
    v
}

/// The Praxis proxy, from source or from a container image.
#[derive(Debug)]
pub struct PraxisConfig {
    /// Path to the configuration file.
    pub config: String,
    /// Listen address.
    pub address: String,
    /// Container image; run with cargo when absent.
    pub image: Option<String>,
}

impl ProxyConfig for PraxisConfig {
    fn name(&self) -> (r: &str)
        ensures
            r@ == "praxis"@,
    {
        "praxis"
    }

    fn listen_address(&self) -> (r: &str)
        ensures
            r@ == self.address@,
    {
        self.address.as_str()
    }

    fn start_command(&self, config_abs: &str) -> (r: (String, Vec<String>))
        ensures
            self.image is None ==> r.0@ == "cargo"@ && texts(r.1@) == seq![
                "run"@, "--release"@, "-p"@, "praxis"@, "--"@, "-c"@, self.config@,
            ],
            self.image matches Some(img) ==> r.0@ == "docker"@ && texts(r.1@) == docker_run_args(
                "praxis-bench-praxis"@, config_abs@ + ":"@ + "/etc/praxis/config.yaml"@ + ":ro"@, img@,
            ).push("-c"@).push("/etc/praxis/config.yaml"@),
    {
        match &self.image {
            Some(img) => {
                let mut v = docker_run("praxis-bench-praxis", config_abs, "/etc/praxis/config.yaml", img.as_str());
                let ghost before = texts(v@);
                v.push(lit("-c"));
                v.push(lit("/etc/praxis/config.yaml"));
                proof {
                    assert(texts(v@) =~= before.push("-c"@).push("/etc/praxis/config.yaml"@));
                }
                (lit("docker"), v)
            },
            None => {
                let mut v: Vec<String> = Vec::new();
                v.push(lit("run"));
                v.push(lit("--release"));
                v.push(lit("-p"));
                v.push(lit("praxis"));
                v.push(lit("--"));
                v.push(lit("-c"));
                v.push(lit(self.config.as_str()));
                proof {
                    assert(texts(v@) =~= seq!["run"@, "--release"@, "-p"@, "praxis"@, "--"@, "-c"@, self.config@]);
                }
                (lit("cargo"), v)
            },
        }
    }

    fn config_path(&self) -> (r: &str)
        ensures
            r@ == self.config@,
    {
        self.config.as_str()
    }

    fn container_name(&self) -> (r: Option<&str>)
        ensures
            self.image is Some ==> (r matches Some(n) && n@ == "praxis-bench-praxis"@),
            self.image is None ==> r is None,
    {
        if self.image.is_some() {
            Some("praxis-bench-praxis")
        } else {
            None
        }
    }
}

/// A containerised proxy: the config file's mount point and default image.
pub open spec fn container_command(container: Seq<char>, config_abs: Seq<char>, mount_at: Seq<char>, image: Option<String>, default_image: Seq<char>, r: (String, Vec<String>)) -> bool {
    let img = match image {
        Some(i) => i@,
        None => default_image,
    };
    r.0@ == "docker"@ && texts(r.1@) == docker_run_args(container, config_abs + ":"@ + mount_at + ":ro"@, img)
}

fn image_or<'a>(image: &'a Option<String>, default_image: &'a str) -> (r: &'a str)
    ensures
        r@ == match image {
            Some(i) => i@,
            None => default_image@,
        },
{
    match image {
        Some(i) => i.as_str(),
        None => default_image,
    }
}

/// Envoy in a container.
#[derive(Debug)]
pub struct EnvoyConfig {
    /// Path to the configuration file.
    pub config: String,
    /// Listen address.
    pub address: String,
    /// Container name.
    pub container_name: String,
    /// Container image; the pinned default when absent.
    pub image: Option<String>,
}

impl Default for EnvoyConfig {
    /// The bundled comparison configuration on port 18091.
    fn default() -> (r: Self)
        ensures
            r.config@ == "praxis-benchmarks/comparison/configs/envoy.yaml"@,
            r.address@ == "127.0.0.1:18091"@,
            r.container_name@ == "praxis-bench-envoy"@,
            r.image is None,
    {
        EnvoyConfig {
            config: lit("praxis-benchmarks/comparison/configs/envoy.yaml"),
            address: lit("127.0.0.1:18091"),
            container_name: lit("praxis-bench-envoy"),
            image: None,
        }
    }
}

impl ProxyConfig for EnvoyConfig {
    fn name(&self) -> (r: &str)
        ensures
            r@ == "envoy"@,
    {
        "envoy"
    }

    fn listen_address(&self) -> (r: &str)
        ensures
            r@ == self.address@,
    {
        self.address.as_str()
    }

    fn start_command(&self, config_abs: &str) -> (r: (String, Vec<String>))
        ensures
            container_command(self.container_name@, config_abs@, "/etc/envoy/envoy.yaml"@, self.image, "envoyproxy/envoy:v1.31-latest"@, r),
    {
        let img = image_or(&self.image, "envoyproxy/envoy:v1.31-latest");
        (lit("docker"), docker_run(self.container_name.as_str(), config_abs, "/etc/envoy/envoy.yaml", img))
    }

    fn config_path(&self) -> (r: &str)
        ensures
            r@ == self.config@,
    {
        self.config.as_str()
    }

    fn container_name(&self) -> (r: Option<&str>)
        ensures
            r matches Some(n) && n@ == self.container_name@,
    {
        Some(self.container_name.as_str())
    }
}

/// nginx in a container.
#[derive(Debug)]
pub struct NginxConfig {
    /// Path to the configuration file.
    pub config: String,
    /// Listen address.
    pub address: String,
    /// Container name.
    pub container_name: String,
    /// Container image; `nginx:alpine` when absent.
    pub image: Option<String>,
}

impl Default for NginxConfig {
    /// The bundled comparison configuration on port 18092.
    fn default() -> (r: Self)
        ensures
            r.config@ == "praxis-benchmarks/comparison/configs/nginx.conf"@,
            r.address@ == "127.0.0.1:18092"@,
            r.container_name@ == "praxis-bench-nginx"@,
            r.image is None,
    {
        NginxConfig {
            config: lit("praxis-benchmarks/comparison/configs/nginx.conf"),
            address: lit("127.0.0.1:18092"),
            container_name: lit("praxis-bench-nginx"),
            image: None,
        }
    }
}

impl ProxyConfig for NginxConfig {
    fn name(&self) -> (r: &str)
        ensures
            r@ == "nginx"@,
    {
        "nginx"
    }

    fn listen_address(&self) -> (r: &str)
        ensures
            r@ == self.address@,
    {
        self.address.as_str()
    }

    fn start_command(&self, config_abs: &str) -> (r: (String, Vec<String>))
        ensures
            container_command(self.container_name@, config_abs@, "/etc/nginx/nginx.conf"@, self.image, "nginx:alpine"@, r),
    {
        let img = image_or(&self.image, "nginx:alpine");
        (lit("docker"), docker_run(self.container_name.as_str(), config_abs, "/etc/nginx/nginx.conf", img))
    }

    fn config_path(&self) -> (r: &str)
        ensures
            r@ == self.config@,
    {
        self.config.as_str()
    }

    fn container_name(&self) -> (r: Option<&str>)
        ensures
            r matches Some(n) && n@ == self.container_name@,
    {
        Some(self.container_name.as_str())
    }
}

/// HAProxy in a container.
#[derive(Debug)]
pub struct HaproxyConfig {
    /// Path to the configuration file.
    pub config: String,
    /// Listen address.
    pub address: String,
    /// Container name.
    pub container_name: String,
    /// Container image; `haproxy:latest` when absent.
    pub image: Option<String>,
}

impl Default for HaproxyConfig {
    /// The bundled comparison configuration on port 18093.
    fn default() -> (r: Self)
        ensures
            r.config@ == "praxis-benchmarks/comparison/configs/haproxy.cfg"@,
            r.address@ == "127.0.0.1:18093"@,
            r.container_name@ == "praxis-bench-haproxy"@,
            r.image is None,
    {
        HaproxyConfig {
            config: lit("praxis-benchmarks/comparison/configs/haproxy.cfg"),
            address: lit("127.0.0.1:18093"),
            container_name: lit("praxis-bench-haproxy"),
            image: None,
        }
    }
}

impl ProxyConfig for HaproxyConfig {
    fn name(&self) -> (r: &str)
        ensures
            r@ == "haproxy"@,
    {
        "haproxy"
    }

    fn listen_address(&self) -> (r: &str)
        ensures
            r@ == self.address@,
    {
        self.address.as_str()
    }

    fn start_command(&self, config_abs: &str) -> (r: (String, Vec<String>))
        ensures
            container_command(self.container_name@, config_abs@, "/usr/local/etc/haproxy/haproxy.cfg"@, self.image, "haproxy:latest"@, r),
    {
        let img = image_or(&self.image, "haproxy:latest");
        (lit("docker"), docker_run(self.container_name.as_str(), config_abs, "/usr/local/etc/haproxy/haproxy.cfg", img))
    }

    fn config_path(&self) -> (r: &str)
        ensures
            r@ == self.config@,
    {
        self.config.as_str()
    }

    fn container_name(&self) -> (r: Option<&str>)
        ensures
            r matches Some(n) && n@ == self.container_name@,
    {
        Some(self.container_name.as_str())
    }
}

/// Classify a failed Vegeta pipeline by its exit code and stderr.
pub fn classify_vegeta_failure(code: i32, stderr: &str) -> (r: BenchmarkError)
    ensures
        (seq_contains(stderr@, "not found"@) || seq_contains(stderr@, "No such file"@)) ==> (r matches BenchmarkError::ToolNotFound(t) && t@ == "vegeta"@),
        !(seq_contains(stderr@, "not found"@) || seq_contains(stderr@, "No such file"@)) ==> (r matches BenchmarkError::ToolFailed { tool, code: c, stderr: e }
            && tool@ == "vegeta"@ && c == code && e@ == stderr@),
{
    if contains(stderr, "not found") || contains(stderr, "No such file") {
        BenchmarkError::ToolNotFound(lit("vegeta"))
    } else {
        BenchmarkError::ToolFailed { tool: lit("vegeta"), code, stderr: lit(stderr) }
    }
}

/// The arguments that start Fortio's echo server on `port`.
pub fn echo_server_args(port: u16) -> (r: Vec<String>)
    ensures
        texts(r@) == seq!["server"@, "-http-port"@, decimal(port as nat)],
{
    let mut v: Vec<String> = Vec::new();
    v.push(lit("server"));
    v.push(lit("-http-port"));
    v.push(dec(port as u64));
    proof {
        assert(texts(v@) =~= seq!["server"@, "-http-port"@, decimal(port as nat)]);
    }
    v
}

// ---------------------------------------------------------------------------
// Error counts of tool reports
// ---------------------------------------------------------------------------

/// A Vegeta error line that reports a timeout.
pub open spec fn timeout_error(e: Seq<char>) -> bool {
    seq_contains(e, "timeout"@) || seq_contains(e, "deadline exceeded"@)
}

/// A Vegeta error line that reports a failed connection.
pub open spec fn connect_error(e: Seq<char>) -> bool {
    seq_contains(e, "connection refused"@) || seq_contains(e, "connect:"@) || seq_contains(e, "dial"@)
}

/// How many of the error lines report a timeout.
pub open spec fn timeout_count(es: Seq<String>) -> nat
    decreases es.len(),
{
    if es.len() == 0 {
        0
    } else {
        timeout_count(es.drop_last()) + if timeout_error(es.last()@) { 1nat } else { 0nat }
    }
}

/// How many of the error lines report a failed connection.
pub open spec fn connect_count(es: Seq<String>) -> nat
    decreases es.len(),
{
    if es.len() == 0 {
        0
    } else {
        connect_count(es.drop_last()) + if connect_error(es.last()@) { 1nat } else { 0nat }
    }
}

proof fn lemma_counts_bounded(es: Seq<String>)
    ensures
        timeout_count(es) <= es.len(),
        connect_count(es) <= es.len(),
    decreases es.len(),
{
    if es.len() > 0 {
        lemma_counts_bounded(es.drop_last());
    }
}

/// Count the timeouts and the connection failures among Vegeta's error
/// lines (a line may count as both).
pub fn vegeta_error_counts(errors: &Vec<String>) -> (r: (u64, u64))
    ensures
        r.0 == timeout_count(errors@),
        r.1 == connect_count(errors@),
{
    let mut t: u64 = 0;
    let mut c: u64 = 0;
    let mut i: usize = 0;
    while i < errors.len()
        invariant
            i <= errors@.len(),
            t == timeout_count(errors@.subrange(0, i as int)),
            c == connect_count(errors@.subrange(0, i as int)),
        decreases errors@.len() - i,
    {
        proof {
            assert(errors@.subrange(0, i + 1).drop_last() =~= errors@.subrange(0, i as int));
            lemma_counts_bounded(errors@.subrange(0, i as int));
        }
        let e = errors[i].as_str();
        if contains(e, "timeout") || contains(e, "deadline exceeded") {
            t = t + 1;
        }
        if contains(e, "connection refused") || contains(e, "connect:") || contains(e, "dial") {
            c = c + 1;
        }
        i = i + 1;
    }
    proof {
        assert(errors@.subrange(0, errors@.len() as int) =~= errors@);
    }
    (t, c)
}

/// The value `u16::from_str` gives text: an optional `+`, then one or more
/// ASCII digits whose value fits in 16 bits.
pub open spec fn status_code_value(s: Seq<char>) -> Option<nat> {
    let d = if s.len() > 0 && s[0] == '+' { s.subrange(1, s.len() as int) } else { s };
    if d.len() > 0 && all_digits(d) && digits_value(d) <= 65535 {
        Some(digits_value(d))
    } else {
        None
    }
}

/// Some return code reads as an HTTP status.
pub open spec fn has_status_code(codes: Seq<(String, u64)>) -> bool {
    exists|i: int| 0 <= i < codes.len() && status_code_value((#[trigger] codes[i]).0@) is Some
}

/// The count a return code contributes to the non-2xx total.
pub open spec fn non_2xx_part(code: (String, u64)) -> nat {
    match status_code_value(code.0@) {
        Some(v) => if 200 <= v < 300 { 0 } else { code.1 as nat },
        None => 0,
    }
}

/// The responses whose return code is an HTTP status outside `200..300`.
pub open spec fn non_2xx_total(codes: Seq<(String, u64)>) -> nat
    decreases codes.len(),
{
    if codes.len() == 0 {
        0
    } else {
        non_2xx_total(codes.drop_last()) + non_2xx_part(codes.last())
    }
}

proof fn lemma_non_2xx_prefix(codes: Seq<(String, u64)>, i: int)
    requires
        0 <= i <= codes.len(),
    ensures
        non_2xx_total(codes.subrange(0, i)) <= non_2xx_total(codes),
    decreases codes.len() - i,
{
    if i < codes.len() {
        lemma_non_2xx_prefix(codes, i + 1);
        assert(codes.subrange(0, i + 1).drop_last() =~= codes.subrange(0, i));
    } else {
        assert(codes.subrange(0, i) =~= codes);
    }
}

fn status_code(s: &str) -> (r: Option<u32>)
    ensures
        r matches Some(v) ==> status_code_value(s@) == Some(v as nat),
        r is None ==> status_code_value(s@) is None,
{
    let n = s.unicode_len();
    if n > 0 && s.get_char(0) == '+' {
        parse_small_decimal(s.substring_char(1, n), 65535)
    } else {
        parse_small_decimal(s, 65535)
    }
}

/// The non-2xx responses of a Fortio report's return codes, or `None` when
/// no code is an HTTP status (a TCP run).
pub fn fortio_non_2xx(codes: &Vec<(String, u64)>) -> (r: Option<u64>)
    requires
        non_2xx_total(codes@) <= u64::MAX,
    ensures
        has_status_code(codes@) ==> r == Some(non_2xx_total(codes@) as u64),
        !has_status_code(codes@) ==> r is None,
{
    let mut total: u64 = 0;
    let mut http = false;
    let mut i: usize = 0;
    while i < codes.len()
        invariant
            i <= codes@.len(),
            non_2xx_total(codes@) <= u64::MAX,
            total == non_2xx_total(codes@.subrange(0, i as int)),
            http == exists|j: int| 0 <= j < i && status_code_value((#[trigger] codes@[j]).0@) is Some,
        decreases codes@.len() - i,
    {
        proof {
            assert(codes@.subrange(0, i + 1).drop_last() =~= codes@.subrange(0, i as int));
            assert(codes@.subrange(0, i + 1).last() == codes@[i as int]);
            lemma_non_2xx_prefix(codes@, i + 1);
        }
        match status_code(codes[i].0.as_str()) {
            Some(v) => {
                http = true;
                if !(200 <= v && v < 300) {
                    total = total + codes[i].1;
                }
            },
            None => {},
        }
        i = i + 1;
    }
    proof {
        assert(codes@.subrange(0, codes@.len() as int) =~= codes@);
    }
    if http {
        Some(total)
    } else {
        None
    }
}

} // verus!
