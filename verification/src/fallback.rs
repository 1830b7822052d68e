//! Provider fallback: send the buffered request body to an ordered list of
//! provider targets, answering with the first 2xx response.

use vstd::prelude::*;
use vstd::string::*;
use crate::actions::{FilterAction, Rejection};
use crate::body::{BodyAccess, BodyMode};
use crate::context::{header_pairs, FilterError, HttpFilterContext};
use crate::message::{is_valid_header_name, is_valid_header_value, is_visible_text, valid_header_name, valid_header_value, visible_text};
use crate::registry::{FilterFactory, FilterRegistry};
use crate::text::{lower_seq, push_str, to_ascii_lower};
use vstd::utf8::encode_utf8;

verus! {

/// Default maximum request body size (10 MiB).
pub const DEFAULT_MAX_BODY_BYTES: usize = 10485760;

/// Default per-target request timeout in milliseconds.
pub const DEFAULT_TIMEOUT_MS: u64 = 30000;

/// Circuit breaker thresholds shared by all targets.
#[derive(Debug)]
pub struct CircuitBreakerCfg {
    /// Consecutive failures before the breaker opens.
    pub consecutive_failures: u32,
    /// Milliseconds to wait before a half-open probe.
    pub recovery_window_ms: u64,
}

/// One provider target's configuration.
#[derive(Debug)]
pub struct TargetConfig {
    /// Full URL including path.
    pub url: String,
    /// Model name to put into the JSON body.
    pub model_override: Option<String>,
    /// Request timeout in milliseconds.
    pub timeout_ms: u64,
    /// Static headers sent with every callout.
    pub headers: Vec<(String, String)>,
}

/// The filter's configuration.
#[derive(Debug)]
pub struct ProviderFallbackConfig {
    /// Targets, in the order they are tried.
    pub targets: Vec<TargetConfig>,
    /// Maximum request body size to buffer.
    pub max_body_bytes: usize,
    /// Shared circuit breaker settings.
    pub circuit_breaker: Option<CircuitBreakerCfg>,
}

/// A target ready for use at request time.
#[derive(Debug)]
pub struct ResolvedTarget {
    /// Target URL.
    pub url: String,
    /// Model name override.
    pub model_override: Option<String>,
    /// Validated static headers (names lower-cased).
    pub headers: Vec<(String, String)>,
    /// Request timeout in milliseconds.
    pub timeout_ms: u64,
}

/// How a target's callout client behaves on failure.
#[derive(Debug, Clone, Copy, PartialEq, Eq, Structural)]
pub enum FailureMode {
    /// Let the request continue.
    Open,
    /// Reject the request.
    Closed,
}

/// Circuit breaker settings of a callout client.
#[derive(Debug, Clone, Copy, PartialEq, Eq, Structural)]
pub struct CircuitBreakerConfig {
    /// Consecutive failures before the breaker opens.
    pub consecutive_failures: u32,
    /// Milliseconds to wait before a half-open probe.
    pub recovery_window_ms: u64,
}

/// The settings of a target's callout client.
#[derive(Debug, Clone, Copy, PartialEq, Eq, Structural)]
pub struct CalloutConfig {
    /// Shared circuit breaker, if configured.
    pub circuit_breaker: Option<CircuitBreakerConfig>,
    /// Behaviour on failure.
    pub failure_mode: FailureMode,
    /// Maximum callout nesting depth.
    pub max_depth: u32,
    /// Idle connections kept per host.
    pub pool_max_idle_per_host: usize,
    /// Status used when the callout fails.
    pub status_on_error: u16,
    /// Request timeout in milliseconds.
    pub timeout_ms: u64,
}

/// The callout client settings for a target: fail open, no nesting, a
/// small pool, 502 on error, the target's timeout and the shared breaker.
pub fn callout_config(target: &TargetConfig, cb: &Option<CircuitBreakerCfg>) -> (r: CalloutConfig)
    ensures
        r.failure_mode == FailureMode::Open,
        r.max_depth == 1,
        r.pool_max_idle_per_host == 4,
        r.status_on_error == 502,
        r.timeout_ms == target.timeout_ms,
        cb is None ==> r.circuit_breaker is None,
        cb matches Some(c) ==> r.circuit_breaker == Some(CircuitBreakerConfig {
            consecutive_failures: c.consecutive_failures,
            recovery_window_ms: c.recovery_window_ms,
        }),
{
    let circuit_breaker = match cb {
        Some(c) => Some(CircuitBreakerConfig {
            consecutive_failures: c.consecutive_failures,
            recovery_window_ms: c.recovery_window_ms,
        }),
        None => None,
    };
    CalloutConfig {
        circuit_breaker,
        failure_mode: FailureMode::Open,
        max_depth: 1,
        pool_max_idle_per_host: 4,
        status_on_error: 502,
        timeout_ms: target.timeout_ms,
    }
}

/// A request to send to a target.
#[derive(Debug)]
pub struct CalloutRequest {
    /// Request body.
    pub body: Option<Vec<u8>>,
    /// Callout nesting depth.
    pub depth: u32,
    /// Request headers.
    pub headers: Vec<(String, String)>,
    /// HTTP method.
    pub method: String,
    /// Target URL.
    pub url: String,
}

/// A target's response.
#[derive(Debug)]
pub struct CalloutResponse {
    /// Status code.
    pub status: u16,
    /// Response headers.
    pub headers: Vec<(String, String)>,
    /// Response body.
    pub body: Vec<u8>,
}

/// The outcome of one callout.
#[derive(Debug)]
pub enum CalloutResult {
    /// A 2xx response.
    Success(CalloutResponse),
    /// The target failed or answered with an error.
    Failed,
    /// The callout was refused (circuit open).
    Rejected,
}

/// The message for an invalid static header name.
pub open spec fn invalid_name_message(name: Seq<char>) -> Seq<char> {
    "provider_fallback: invalid header name '"@ + name + "': invalid HTTP header name"@
}

/// The outcome of validating static headers: the first invalid name or
/// value in order, or all pairs with names lower-cased.
pub open spec fn resolved_headers(hs: Seq<(String, String)>) -> Result<Seq<(Seq<char>, Seq<char>)>, Seq<char>>
    decreases hs.len(),
{
    if hs.len() == 0 {
        Ok(Seq::empty())
    } else {
        match resolved_headers(hs.drop_last()) {
            Err(m) => Err(m),
            Ok(prev) => {
                let (n, v) = (hs.last().0@, hs.last().1@);
                if !valid_header_name(n) {
                    Err(invalid_name_message(n))
                } else if !valid_header_value(v) {
                    Err("provider_fallback: invalid header value: failed to parse header value"@)
                } else {
                    Ok(prev.push((lower_seq(n), v)))
                }
            },
        }
    }
}

/// Validate static headers, lower-casing names.
pub fn resolve_headers(hs: &Vec<(String, String)>) -> (r: Result<Vec<(String, String)>, FilterError>)
    ensures
        r matches Ok(v) ==> resolved_headers(hs@) == Ok::<Seq<(Seq<char>, Seq<char>)>, Seq<char>>(header_pairs(v@)),
        r matches Err(e) ==> resolved_headers(hs@) == Err::<Seq<(Seq<char>, Seq<char>)>, Seq<char>>(e.message@),
{
    let mut out: Vec<(String, String)> = Vec::new();
    let mut i: usize = 0;
    proof {
        assert(hs@.subrange(0, 0) =~= Seq::<(String, String)>::empty());
        assert(header_pairs(out@) =~= Seq::<(Seq<char>, Seq<char>)>::empty());
    }
    while i < hs.len()
        invariant
            i <= hs@.len(),
            resolved_headers(hs@.subrange(0, i as int)) == Ok::<Seq<(Seq<char>, Seq<char>)>, Seq<char>>(header_pairs(out@)),
        decreases hs@.len() - i,
    {
        proof {
            assert(hs@.subrange(0, i + 1).drop_last() =~= hs@.subrange(0, i as int));
        }
        let n = hs[i].0.as_str();
        let v = hs[i].1.as_str();
        if !is_valid_header_name(n) {
            let mut m = String::new();
            push_str(&mut m, "provider_fallback: invalid header name '");
            push_str(&mut m, n);
            push_str(&mut m, "': invalid HTTP header name");
            proof {
                lemma_resolved_err_stays(hs@, i as int + 1);
            }
            return Err(FilterError { message: m });
        }
        if !is_valid_header_value(v) {
            proof {
                lemma_resolved_err_stays(hs@, i as int + 1);
            }
            return Err(FilterError::new("provider_fallback: invalid header value: failed to parse header value"));
        }
        let ghost before = out@;
        out.push((to_ascii_lower(n), v.to_owned()));
        proof {
            assert(header_pairs(out@) =~= header_pairs(before).push((lower_seq(n@), v@)));
        }
        i = i + 1;
    }
    proof {
        assert(hs@.subrange(0, hs@.len() as int) =~= hs@);
    }
    Ok(out)
}

/// Once a prefix fails validation, every longer prefix fails the same way.
proof fn lemma_resolved_err_stays(hs: Seq<(String, String)>, k: int)
    requires
        0 <= k <= hs.len(),
        resolved_headers(hs.subrange(0, k)) is Err,
    ensures
        resolved_headers(hs) == resolved_headers(hs.subrange(0, k)),
    decreases hs.len() - k,
{
    if k < hs.len() {
        assert(hs.subrange(0, k + 1).drop_last() =~= hs.subrange(0, k));
        lemma_resolved_err_stays(hs, k + 1);
    } else {
        assert(hs.subrange(0, k) =~= hs);
    }
}

/// The headers forwarded from the incoming request: `content-type`,
/// `accept` and `x-request-id`, each with its first value when present.
pub open spec fn forward_headers_of(ctx: HttpFilterContext) -> Seq<(Seq<char>, Seq<char>)> {
    let hs = ctx.request.headers;
    let a = match hs.first("content-type"@) {
        Some(v) => seq![("content-type"@, v)],
        None => Seq::empty(),
    };
    let b = match hs.first("accept"@) {
        Some(v) => a.push(("accept"@, v)),
        None => a,
    };
    match hs.first("x-request-id"@) {
        Some(v) => b.push(("x-request-id"@, v)),
        None => b,
    }
}

/// Extract the headers forwarded to every target.
pub fn collect_forward_headers(ctx: &HttpFilterContext) -> (r: Vec<(String, String)>)
    ensures
        header_pairs(r@) == forward_headers_of(*ctx),
{
    let mut out: Vec<(String, String)> = Vec::new();
    let hs = &ctx.request.headers;
    let ghost s0 = header_pairs(out@);
    match hs.get("content-type") {
        Some(v) => {
            out.push(("content-type".to_owned(), v));
        },
        None => {},
    }
    let ghost s1 = header_pairs(out@);
    proof {
        assert(s1 =~= match hs.first("content-type"@) {
            Some(v) => seq![("content-type"@, v)],
            None => Seq::<(Seq<char>, Seq<char>)>::empty(),
        });
    }
    match hs.get("accept") {
        Some(v) => {
            out.push(("accept".to_owned(), v));
        },
        None => {},
    }
    let ghost s2 = header_pairs(out@);
    proof {
        assert(s2 =~= match hs.first("accept"@) {
            Some(v) => s1.push(("accept"@, v)),
            None => s1,
        });
    }
    match hs.get("x-request-id") {
        Some(v) => {
            out.push(("x-request-id".to_owned(), v));
        },
        None => {},
    }
    proof {
        assert(header_pairs(out@) =~= match hs.first("x-request-id"@) {
            Some(v) => s2.push(("x-request-id"@, v)),
            None => s2,
        });
    }
    out
}

/// The JSON document `body` with its top-level member `key` set to the
/// string `value` (when the document is an object) and serialised again;
/// `None` when `body` is not JSON or cannot be written back.
pub uninterp spec fn json_with_member(body: Seq<u8>, key: Seq<char>, value: Seq<char>) -> Option<Seq<u8>>;

/// Parses `body` with `serde_json::from_slice::<serde_json::Value>`, sets
/// the member `key` of an object to the string `value` with `Map::insert`,
/// and serialises with `serde_json::to_vec`. The result is only claimed to
/// be `json_with_member` of the arguments.
#[verifier::external_body]
fn set_json_member(body: &[u8], key: &str, value: &str) -> (r: Option<Vec<u8>>)
    ensures
        r matches Some(b) ==> json_with_member(body@, key@, value@) == Some(b@),
        r is None ==> json_with_member(body@, key@, value@) is None,
{
    match serde_json::from_slice::<serde_json::Value>(body) {
        Ok(mut doc) => {
            if let Some(obj) = doc.as_object_mut() {
                obj.insert(key.to_owned(), serde_json::Value::String(value.to_owned()));
            }
            serde_json::to_vec(&doc).ok()
        },
        Err(_) => None,
    }
}

/// The body sent to a target: with the model override applied when there
/// is one and the body is JSON; the body as it is otherwise.
pub open spec fn prepared_body(body: Seq<u8>, model_override: Option<Seq<char>>) -> Seq<u8> {
    match model_override {
        None => body,
        Some(m) => match json_with_member(body, "model"@, m) {
            Some(b) => b,
            None => body,
        },
    }
}

fn copy_bytes(b: &[u8]) -> (r: Vec<u8>)
    ensures
        r@ == b@,
{
    let mut out: Vec<u8> = Vec::new();
    let mut i: usize = 0;
    while i < b.len()
        invariant
            i <= b@.len(),
            out@ == b@.subrange(0, i as int),
        decreases b@.len() - i,
    {
        out.push(b[i]);
        proof {
            assert(b@.subrange(0, i + 1) =~= b@.subrange(0, i as int).push(b@[i as int]));
        }
        i = i + 1;
    }
    proof {
        assert(b@.subrange(0, b@.len() as int) =~= b@);
    }
    out
}

/// Apply the model override to the request body, if configured.
pub fn prepare_body(body: &[u8], model_override: Option<&str>) -> (r: Vec<u8>)
    ensures
        r@ == prepared_body(body@, match model_override { Some(m) => Some(m@), None => None }),
{
    match model_override {
        None => copy_bytes(body),
        Some(m) => match set_json_member(body, "model", m) {
            Some(b) => b,
            None => copy_bytes(body),
        },
    }
}

/// Build the request for one target: the forwarded headers, then the
/// target's own headers.
pub fn build_callout_request(
    method: &str,
    url: &str,
    forward_headers: &Vec<(String, String)>,
    target_headers: &Vec<(String, String)>,
    body: Vec<u8>,
) -> (r: CalloutRequest)
    ensures
        r.body == Some(body),
        r.depth == 0,
        header_pairs(r.headers@) == header_pairs(forward_headers@) + header_pairs(target_headers@),
        r.method@ == method@,
        r.url@ == url@,
{
    let mut headers: Vec<(String, String)> = Vec::new();
    let mut i: usize = 0;
    while i < forward_headers.len()
        invariant
            i <= forward_headers@.len(),
            header_pairs(headers@) == header_pairs(forward_headers@.subrange(0, i as int)),
        decreases forward_headers@.len() - i,
    {
        let ghost before = headers@;
        headers.push((forward_headers[i].0.as_str().to_owned(), forward_headers[i].1.as_str().to_owned()));
        proof {
            let x = (forward_headers@[i as int].0@, forward_headers@[i as int].1@);
            assert(header_pairs(headers@) =~= header_pairs(before).push(x));
            assert(header_pairs(forward_headers@.subrange(0, i + 1)) =~= header_pairs(forward_headers@.subrange(0, i as int)).push(x));
        }
        i = i + 1;
    }
    let mut j: usize = 0;
    proof {
        assert(forward_headers@.subrange(0, forward_headers@.len() as int) =~= forward_headers@);
        assert(target_headers@.subrange(0, 0) =~= Seq::<(String, String)>::empty());
        assert(header_pairs(headers@) =~= header_pairs(forward_headers@) + header_pairs(target_headers@.subrange(0, 0)));
    }
    while j < target_headers.len()
        invariant
            j <= target_headers@.len(),
            header_pairs(headers@) == header_pairs(forward_headers@) + header_pairs(target_headers@.subrange(0, j as int)),
        decreases target_headers@.len() - j,
    {
        let ghost before = headers@;
        headers.push((target_headers[j].0.as_str().to_owned(), target_headers[j].1.as_str().to_owned()));
        proof {
            let x = (target_headers@[j as int].0@, target_headers@[j as int].1@);
            assert(header_pairs(headers@) =~= header_pairs(before).push(x));
            assert(header_pairs(target_headers@.subrange(0, j + 1)) =~= header_pairs(target_headers@.subrange(0, j as int)).push(x));
            assert(header_pairs(headers@) =~= header_pairs(forward_headers@) + header_pairs(target_headers@.subrange(0, j + 1)));
        }
        j = j + 1;
    }
    proof {
        assert(forward_headers@.subrange(0, forward_headers@.len() as int) =~= forward_headers@);
        assert(target_headers@.subrange(0, target_headers@.len() as int) =~= target_headers@);
    }
    CalloutRequest { body: Some(body), depth: 0, headers, method: method.to_owned(), url: url.to_owned() }
}

/// The response headers kept in an answer: those readable as text.
pub open spec fn readable_headers(hs: Seq<(String, String)>) -> Seq<(Seq<char>, Seq<char>)>
    decreases hs.len(),
{
    if hs.len() == 0 {
        Seq::empty()
    } else {
        let prev = readable_headers(hs.drop_last());
        if visible_text(hs.last().1@) { prev.push((hs.last().0@, hs.last().1@)) } else { prev }
    }
}

/// `a` answers downstream with `response`: its status, its readable
/// headers in order, and its body unless empty.
pub open spec fn answers_with(response: CalloutResponse, a: FilterAction) -> bool {
    a matches FilterAction::Reject(rej) && rej.status == response.status
        && header_pairs(rej.headers@) == readable_headers(response.headers@)
        && (response.body@.len() == 0 ==> rej.body is None)
        && (response.body@.len() > 0 ==> rej.body == Some(response.body))
}

/// Answer downstream with a target's successful response.
pub fn success_to_rejection(response: CalloutResponse) -> (r: FilterAction)
    ensures
        answers_with(response, r),
{
    let mut rejection = Rejection::status(response.status);
    let mut i: usize = 0;
    while i < response.headers.len()
        invariant
            i <= response.headers@.len(),
            rejection.status == response.status,
            rejection.body is None,
            header_pairs(rejection.headers@) == readable_headers(response.headers@.subrange(0, i as int)),
        decreases response.headers@.len() - i,
    {
        proof {
            assert(response.headers@.subrange(0, i + 1).drop_last() =~= response.headers@.subrange(0, i as int));
        }
        let (n, v) = (response.headers[i].0.as_str(), response.headers[i].1.as_str());
        if is_visible_text(v) {
            let ghost before = rejection.headers@;
            rejection = rejection.with_header(n, v);
            proof {
                assert(header_pairs(rejection.headers@) =~= header_pairs(before).push((n@, v@)));
            }
        }
        i = i + 1;
    }
    proof {
        assert(response.headers@.subrange(0, response.headers@.len() as int) =~= response.headers@);
    }
    if response.body.len() > 0 {
        rejection = rejection.with_body(response.body);
    }
    FilterAction::Reject(rejection)
}

/// The answer when every target failed: 502, plain text.
pub open spec fn is_exhausted(a: FilterAction) -> bool {
    a matches FilterAction::Reject(rej) && rej.status == 502
        && header_pairs(rej.headers@) == seq![("content-type"@, "text/plain"@)]
        && (rej.body matches Some(b) && b@ == encode_utf8("all provider targets exhausted"@))
}

/// The answer when every target failed.
pub fn exhausted() -> (r: FilterAction)
    ensures
        is_exhausted(r),
{
    let rej = Rejection::status(502).with_header("content-type", "text/plain");
    proof {
        assert(header_pairs(rej.headers@) =~= seq![("content-type"@, "text/plain"@)]);
    }
    FilterAction::Reject(rej.with_body("all provider targets exhausted".as_bytes_vec()))
}

/// What to do after a callout: a success ends the request with the
/// target's response; anything else moves on to the next target.
pub fn after_callout(result: CalloutResult) -> (r: Option<FilterAction>)
    ensures
        result matches CalloutResult::Success(resp) ==> (r matches Some(a) && answers_with(resp, a)),
        !(result is Success) ==> r is None,
{
    match result {
        CalloutResult::Success(resp) => Some(success_to_rejection(resp)),
        _ => None,
    }
}

/// The next step of the fallback loop.
#[derive(Debug)]
pub enum FallbackStep {
    /// Send this request to target `index`.
    Call {
        /// The target's position.
        index: usize,
        /// The request to send.
        request: CalloutRequest,
    },
    /// Answer downstream.
    Done(FilterAction),
}

/// Terminal filter that tries provider targets in order.
#[derive(Debug)]
pub struct ProviderFallbackFilter {
    /// Targets, in the order they are tried.
    pub targets: Vec<ResolvedTarget>,
    /// Maximum request body bytes to buffer.
    pub max_body_bytes: usize,
}

/// The outcome of building the filter: no targets, or the first target
/// with an invalid static header, is an error.
pub open spec fn targets_error(ts: Seq<TargetConfig>) -> Option<Seq<char>>
    decreases ts.len(),
{
    if ts.len() == 0 {
        None
    } else {
        match targets_error(ts.drop_last()) {
            Some(m) => Some(m),
            None => match resolved_headers(ts.last().headers@) {
                Err(m) => Some(m),
                Ok(_) => None,
            },
        }
    }
}

proof fn lemma_targets_err_stays(ts: Seq<TargetConfig>, k: int)
    requires
        0 <= k <= ts.len(),
        targets_error(ts.subrange(0, k)) is Some,
    ensures
        targets_error(ts) == targets_error(ts.subrange(0, k)),
    decreases ts.len() - k,
{
    if k < ts.len() {
        assert(ts.subrange(0, k + 1).drop_last() =~= ts.subrange(0, k));
        lemma_targets_err_stays(ts, k + 1);
    } else {
        assert(ts.subrange(0, k) =~= ts);
    }
}

impl ProviderFallbackFilter {
    /// Build the filter from its configuration.
    pub fn from_config(cfg: ProviderFallbackConfig) -> (r: Result<Self, FilterError>)
        ensures
            cfg.targets@.len() == 0 ==> (r matches Err(e) && e.message@ == "provider_fallback: at least one target is required"@),
            cfg.targets@.len() > 0 ==> match targets_error(cfg.targets@) {
                Some(m) => r matches Err(e) && e.message@ == m,
                None => r matches Ok(f) && f.max_body_bytes == cfg.max_body_bytes
                    && f.targets@.len() == cfg.targets@.len()
                    && forall|i: int| 0 <= i < f.targets@.len() ==> {
                        let t = #[trigger] f.targets@[i];
                        let c = cfg.targets@[i];
                        &&& t.url@ == c.url@
                        &&& t.model_override == c.model_override
                        &&& t.timeout_ms == c.timeout_ms
                        &&& resolved_headers(c.headers@) == Ok::<Seq<(Seq<char>, Seq<char>)>, Seq<char>>(header_pairs(t.headers@))
                    },
            },
    {
        if cfg.targets.len() == 0 {
            return Err(FilterError::new("provider_fallback: at least one target is required"));
        }
        let ProviderFallbackConfig { targets, max_body_bytes, circuit_breaker: _ } = cfg;
        let mut out: Vec<ResolvedTarget> = Vec::new();
        let mut i: usize = 0;
        while i < targets.len()
            invariant
                targets@ == cfg.targets@,
                i <= targets@.len(),
                out@.len() == i,
                targets_error(targets@.subrange(0, i as int)) is None,
                forall|j: int| 0 <= j < i ==> {
                    let t = #[trigger] out@[j];
                    let c = targets@[j];
                    &&& t.url@ == c.url@
                    &&& t.model_override == c.model_override
                    &&& t.timeout_ms == c.timeout_ms
                    &&& resolved_headers(c.headers@) == Ok::<Seq<(Seq<char>, Seq<char>)>, Seq<char>>(header_pairs(t.headers@))
                },
            decreases targets@.len() - i,
        {
            proof {
                assert(targets@.subrange(0, i + 1).drop_last() =~= targets@.subrange(0, i as int));
            }
            let t = &targets[i];
            match resolve_headers(&t.headers) {
                Err(e) => {
                    proof {
                        assert(targets@.subrange(0, i + 1).last() == targets@[i as int]);
                        assert(targets_error(targets@.subrange(0, i + 1)) == Some(e.message@));
                        lemma_targets_err_stays(targets@, i as int + 1);
                    }
                    return Err(e);
                },
                Ok(hs) => {
                    let model = match &t.model_override {
                        Some(m) => Some(m.clone()),
                        None => None,
                    };
                    out.push(ResolvedTarget { url: t.url.clone(), model_override: model, headers: hs, timeout_ms: t.timeout_ms });
                },
            }
            i = i + 1;
        }
        proof {
            assert(targets@.subrange(0, targets@.len() as int) =~= targets@);
        }
        Ok(ProviderFallbackFilter { targets: out, max_body_bytes })
    }

    /// The filter's registered name.
    pub fn name(&self) -> (r: &'static str)
        ensures
            r@ == "provider_fallback"@,
    {
        "provider_fallback"
    }

    /// The filter may rewrite the request body.
    pub fn request_body_access(&self) -> (r: BodyAccess)
        ensures
            r == BodyAccess::ReadWrite,
    {
        BodyAccess::ReadWrite
    }

    /// The body is buffered up to the configured limit.
    pub fn request_body_mode(&self) -> (r: BodyMode)
        ensures
            r == (BodyMode::StreamBuffer { max_bytes: Some(self.max_body_bytes) }),
    {
        BodyMode::StreamBuffer { max_bytes: Some(self.max_body_bytes) }
    }

    /// The filter needs the request context in the body phase.
    pub fn needs_request_context(&self) -> (r: bool)
        ensures
            r,
    {
        true
    }

    /// The request phase needs nothing from this filter.
    pub fn on_request(&self) -> (r: FilterAction)
        ensures
            r is Continue,
    {
        FilterAction::Continue
    }

    /// The step after trying targets before `index`: call target `index`
    /// with the prepared request, or, past the last target, give up.
    pub fn step(&self, index: usize, method: &str, body: &[u8], forward: &Vec<(String, String)>) -> (r: FallbackStep)
        ensures
            index >= self.targets@.len() ==> (r matches FallbackStep::Done(a) && is_exhausted(a)),
            index < self.targets@.len() ==> (r matches FallbackStep::Call { index: k, request } && k == index && ({
                let t = self.targets@[index as int];
                &&& request.url@ == t.url@
                &&& request.method@ == method@
                &&& request.depth == 0
                &&& header_pairs(request.headers@) == header_pairs(forward@) + header_pairs(t.headers@)
                &&& request.body matches Some(b) && b@ == prepared_body(body@, match t.model_override {
                    Some(m) => Some(m@),
                    None => None,
                })
            })),
    {
        if index >= self.targets.len() {
            return FallbackStep::Done(exhausted());
        }
        let t = &self.targets[index];
        let b = match &t.model_override {
            Some(m) => prepare_body(body, Some(m.as_str())),
            None => prepare_body(body, None),
        };
        let request = build_callout_request(method, t.url.as_str(), forward, &t.headers, b);
        FallbackStep::Call { index, request }
    }
}

/// The name the filter registers under.
pub open spec fn provider_fallback_name() -> Seq<char> {
    "provider_fallback"@
}

/// Register the filter under `provider_fallback` with the given custom
/// factory id; the name must not be taken yet.
pub fn register_filters(registry: &mut FilterRegistry, id: u32)
    requires
        old(registry).wf(),
        !old(registry).has("provider_fallback"@),
    ensures
        final(registry).wf(),
        final(registry).factory("provider_fallback"@) == Some(FilterFactory::Http(id)),
{
    match registry.register("provider_fallback", FilterFactory::Http(id)) {
        Ok(()) => {},
        Err(_) => {},
    }
}

} // verus!
