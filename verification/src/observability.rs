//! Observability filters: access-log sampling and log sanitisation,
//! request correlation IDs, and the TCP connection log.

use vstd::prelude::*;
use vstd::string::*;
use crate::actions::FilterAction;
use crate::context::{HttpFilterContext, FilterError};
use crate::message::{valid_header_name, valid_header_value, visible_text, is_valid_header_name, is_valid_header_value, is_visible_text, without_name};
use crate::pipeline::FilterProfile;
use crate::text::{hex_digits, lower_seq, push_char, push_hex, eq_ignore_ascii_case};

verus! {

// ---------------------------------------------------------------------------
// Access log
// ---------------------------------------------------------------------------

/// Logs structured access records for sampled requests and responses.
#[derive(Debug)]
pub struct AccessLogFilter {
    /// Sampling denominator: log one out of every `sample_every` calls.
    pub sample_every: u64,
    /// Monotonic counter for deterministic sampling.
    pub counter: u64,
}

impl AccessLogFilter {
    /// A filter logging one out of every `sample_every` calls (`<= 1`: all).
    pub fn new(sample_every: u64) -> (r: Self)
        ensures
            r.sample_every == sample_every,
            r.counter == 0,
    {
        AccessLogFilter { sample_every, counter: 0 }
    }

    /// The filter's registered name.
    pub fn name(&self) -> (r: &'static str)
        ensures
            r@ == "access_log"@,
    {
        "access_log"
    }

    /// The filter's profile in a pipeline.
    pub fn profile() -> (r: FilterProfile)
        ensures
            crate::pipeline::plain_http_profile(r, "access_log"@),
    {
        FilterProfile::http("access_log")
    }

    /// Returns `true` if this call should be logged. With sampling, the
    /// counter advances (wrapping) and every `sample_every`-th call logs,
    /// starting with the first.
    pub fn should_log(&mut self) -> (r: bool)
        ensures
            final(self).sample_every == old(self).sample_every,
            old(self).sample_every <= 1 ==> r && final(self).counter == old(self).counter,
            old(self).sample_every > 1 ==> r == (old(self).counter % old(self).sample_every == 0)
                && final(self).counter == old(self).counter.wrapping_add(1),
    {
        if self.sample_every <= 1 {
            return true;
        }
        let c = self.counter;
        self.counter = self.counter.wrapping_add(1);
        c % self.sample_every == 0
    }
}

/// One out of every `n` requests is logged: among `n` consecutive sampled
/// calls (counters `c`, `c + 1`, ..., `c + n - 1`, with no wrap between)
/// exactly one sees a counter that is a multiple of `n`.
pub proof fn one_logged_per_window(c: nat, n: nat)
    requires
        n > 1,
    ensures
        exists|k: int| 0 <= k < n && #[trigger] ((c + k) % (n as int)) == 0,
        forall|j: int, k: int|
            0 <= j < n && 0 <= k < n && #[trigger] ((c + j) % (n as int)) == 0 && #[trigger] ((c + k) % (n as int)) == 0
                ==> j == k,
{
    let ni = n as int;
    let ci = c as int;
    let r = ci % ni;
    let q = ci / ni;
    vstd::arithmetic::div_mod::lemma_fundamental_div_mod(ci, ni);
    vstd::arithmetic::div_mod::lemma_mod_bound(ci, ni);
    let k: int = if r == 0 { 0 } else { ni - r };
    assert((ci + k) % ni == 0) by {
        if r == 0 {
            assert(ci + k == ni * q);
            vstd::arithmetic::div_mod::lemma_mod_multiples_basic(q, ni);
            assert(ni * q == q * ni) by (nonlinear_arith);
        } else {
            assert(ci + k == ni * (q + 1)) by (nonlinear_arith)
                requires ci == ni * q + r, k == ni - r;
            vstd::arithmetic::div_mod::lemma_mod_multiples_basic(q + 1, ni);
            assert(ni * (q + 1) == (q + 1) * ni) by (nonlinear_arith);
        }
    }
    assert(0 <= k < n);
    assert forall|j: int, k2: int|
        0 <= j < n && 0 <= k2 < n && #[trigger] ((c + j) % (n as int)) == 0 && #[trigger] ((c + k2) % (n as int))
            == 0 implies j == k2 by {
        vstd::arithmetic::div_mod::lemma_fundamental_div_mod(ci + j, ni);
        vstd::arithmetic::div_mod::lemma_fundamental_div_mod(ci + k2, ni);
        let a = (ci + j) / ni;
        let b = (ci + k2) / ni;
        assert(j - k2 == ni * (a - b)) by (nonlinear_arith)
            requires ci + j == ni * a, ci + k2 == ni * b;
        if a - b >= 1 {
            assert(ni * (a - b) >= ni) by (nonlinear_arith) requires a - b >= 1, ni > 1;
        } else if a - b <= -1 {
            assert(ni * (a - b) <= -ni) by (nonlinear_arith) requires a - b <= -1, ni > 1;
        } else {
            assert(a - b == 0);
            assert(ni * (a - b) == 0) by (nonlinear_arith) requires a - b == 0;
        }
    }
}

/// A control character: Unicode general category `Cc`.
pub open spec fn control_char(c: char) -> bool {
    (c as u32) <= 0x1f || (0x7f <= (c as u32) && (c as u32) <= 0x9f)
}

/// An ASCII letter.
pub open spec fn ascii_alpha(c: char) -> bool {
    ('a' <= c && c <= 'z') || ('A' <= c && c <= 'Z')
}

/// The index just past the first ASCII letter at or after `j`, or the end.
pub open spec fn csi_end(s: Seq<char>, j: int) -> int
    decreases s.len() - j,
{
    if j >= s.len() {
        s.len() as int
    } else if ascii_alpha(s[j]) {
        j + 1
    } else {
        csi_end(s, j + 1)
    }
}

pub proof fn lemma_csi_end_bounds(s: Seq<char>, j: int)
    ensures
        j < s.len() ==> j < csi_end(s, j) <= s.len(),
        j >= s.len() ==> csi_end(s, j) == s.len(),
    decreases s.len() - j,
{
    if j < s.len() && !ascii_alpha(s[j]) {
        lemma_csi_end_bounds(s, j + 1);
    }
}

/// `s` from position `i` with ANSI escape sequences (ESC `[` ... letter),
/// lone escapes and other control characters removed.
pub open spec fn sanitized_from(s: Seq<char>, i: int) -> Seq<char>
    decreases s.len() - i,
{
    if i < 0 || i >= s.len() {
        Seq::empty()
    } else if s[i] == '\x1b' {
        if i + 1 < s.len() && s[i + 1] == '[' {
            let k = csi_end(s, i + 2);
            proof {
                lemma_csi_end_bounds(s, i + 2);
            }
            if k > i { sanitized_from(s, k) } else { Seq::empty() }
        } else {
            sanitized_from(s, i + 1)
        }
    } else if control_char(s[i]) {
        sanitized_from(s, i + 1)
    } else {
        seq![s[i]] + sanitized_from(s, i + 1)
    }
}

/// Strip control characters (C0/C1, ANSI escapes) from a string before
/// logging, preventing log injection via crafted request URIs.
pub fn sanitize_for_log(s: &str) -> (r: String)
    ensures
        r@ == sanitized_from(s@, 0),
{
    let n = s.unicode_len();
    let mut out = String::new();
    let mut i: usize = 0;
    while i < n
        invariant
            n == s@.len(),
            i <= n,
            out@ + sanitized_from(s@, i as int) == sanitized_from(s@, 0),
        decreases n - i,
    {
        let c = s.get_char(i);
        if c == '\x1b' {
            if i + 1 < n && s.get_char(i + 1) == '[' {
                let mut j: usize = i + 2;
                let mut done = false;
                proof {
                    lemma_csi_end_bounds(s@, i + 2);
                }
                while j < n && !done
                    invariant
                        n == s@.len(),
                        i + 2 <= j <= n,
                        !done ==> csi_end(s@, j as int) == csi_end(s@, i + 2),
                        done ==> j as int == csi_end(s@, i + 2),
                    decreases n - j,
                {
                    let next = s.get_char(j);
                    j = j + 1;
                    if ('a' <= next && next <= 'z') || ('A' <= next && next <= 'Z') {
                        done = true;
                    }
                }
                proof {
                    lemma_csi_end_bounds(s@, j as int);
                }
                i = j;
            } else {
                i = i + 1;
            }
        } else if (c as u32) <= 0x1f || (0x7f <= (c as u32) && (c as u32) <= 0x9f) {
            i = i + 1;
        } else {
            push_char(&mut out, c);
            i = i + 1;
        }
    }
    assert(out@ + sanitized_from(s@, n as int) == out@);
    out
}

/// Sanitised text never holds a control character.
pub proof fn sanitized_has_no_controls(s: Seq<char>, i: int)
    ensures
        forall|k: int| 0 <= k < sanitized_from(s, i).len() ==> !control_char(#[trigger] sanitized_from(s, i)[k]),
    decreases s.len() - i,
{
    if 0 <= i < s.len() {
        if s[i] == '\x1b' {
            if i + 1 < s.len() && s[i + 1] == '[' {
                lemma_csi_end_bounds(s, i + 2);
                assert(sanitized_from(s, i) == sanitized_from(s, csi_end(s, i + 2)));
                sanitized_has_no_controls(s, csi_end(s, i + 2));
            } else {
                assert(sanitized_from(s, i) == sanitized_from(s, i + 1));
                sanitized_has_no_controls(s, i + 1);
            }
        } else if control_char(s[i]) {
            assert(sanitized_from(s, i) == sanitized_from(s, i + 1));
            sanitized_has_no_controls(s, i + 1);
        } else {
            sanitized_has_no_controls(s, i + 1);
            let t = sanitized_from(s, i + 1);
            assert forall|k: int| 0 <= k < sanitized_from(s, i).len() implies !control_char(
                #[trigger] sanitized_from(s, i)[k],
            ) by {
                if k > 0 {
                    assert(sanitized_from(s, i)[k] == t[k - 1]);
                }
            }
        }
    }
}

/// Text without control characters passes through sanitisation unchanged.
pub proof fn sanitize_keeps_clean_text(s: Seq<char>, i: int)
    requires
        0 <= i <= s.len(),
        forall|k: int| 0 <= k < s.len() ==> !control_char(#[trigger] s[k]),
    ensures
        sanitized_from(s, i) == s.subrange(i, s.len() as int),
    decreases s.len() - i,
{
    if i < s.len() {
        assert(!control_char(s[i]));
        sanitize_keeps_clean_text(s, i + 1);
        assert(s.subrange(i, s.len() as int) =~= seq![s[i]] + s.subrange(i + 1, s.len() as int));
    } else {
        assert(s.subrange(i, s.len() as int) =~= Seq::<char>::empty());
    }
}

/// Sanitising twice gives the same text as sanitising once.
pub proof fn sanitize_idempotent(s: Seq<char>)
    ensures
        sanitized_from(sanitized_from(s, 0), 0) == sanitized_from(s, 0),
{
    let t = sanitized_from(s, 0);
    sanitized_has_no_controls(s, 0);
    sanitize_keeps_clean_text(t, 0);
    assert(t.subrange(0, t.len() as int) =~= t);
}

// ---------------------------------------------------------------------------
// Request ID
// ---------------------------------------------------------------------------

/// The text of a generated request ID: 16 hex digits of the time in
/// microseconds followed by 16 hex digits of the sequence number.
pub open spec fn request_id_text(micros: u64, seq: u64) -> Seq<char> {
    hex_digits(micros as nat, 16) + hex_digits(seq as nat, 16)
}

/// Format a request ID from its time and sequence components.
pub fn format_request_id(micros: u64, seq: u64) -> (r: String)
    ensures
        r@ == request_id_text(micros, seq),
{
    let mut s = String::new();
    push_hex(&mut s, micros, 16);
    push_hex(&mut s, seq, 16);
    s
}

/// Makes `std::time::SystemTime` known to Verus as an opaque type.
#[verifier::external_type_specification]
#[verifier::external_body]
pub struct ExSystemTime(std::time::SystemTime);

/// `SystemTime::now`: the system clock's current time. Nothing is claimed
/// of it.
#[verifier::external_body]
fn system_now() -> std::time::SystemTime {
    std::time::SystemTime::now()
}

/// `SystemTime::duration_since(UNIX_EPOCH)`, `None` when the time lies
/// before the epoch. Nothing is claimed of the value.
#[verifier::external_body]
fn since_epoch(t: &std::time::SystemTime) -> Option<std::time::Duration> {
    t.duration_since(std::time::UNIX_EPOCH).ok()
}

/// `Duration::as_micros`. Nothing is claimed of the value.
#[verifier::external_body]
fn duration_micros(d: &std::time::Duration) -> u128 {
    d.as_micros()
}

/// Microseconds since the Unix epoch, truncated to 64 bits; 0 when the
/// clock is before the epoch.
fn now_micros() -> u64 {
    let now = system_now();
    match since_epoch(&now) {
        Some(d) => {
            let m = duration_micros(&d);
            #[verifier::truncate]
            (m as u64)
        },
        None => 0,
    }
}

/// Ensures every request carries a correlation ID under a configurable
/// header, generating one when absent and echoing it on the response.
#[derive(Debug)]
pub struct RequestIdFilter {
    /// Sequence counter for generated IDs.
    pub counter: u64,
    /// Header used for reading, generating and forwarding the ID.
    pub header_name: String,
}

/// The client-supplied ID under `name`, when present and readable as text.
pub open spec fn client_id(ctx: HttpFilterContext, name: Seq<char>) -> Option<Seq<char>> {
    match ctx.request.headers.first(name) {
        Some(v) => if visible_text(v) { Some(v) } else { None },
        None => None,
    }
}

/// The value of the first extra request header whose name equals `name`
/// up to ASCII case.
pub open spec fn extra_header_value(es: Seq<(String, String)>, name: Seq<char>) -> Option<Seq<char>>
    decreases es.len(),
{
    if es.len() == 0 {
        None
    } else if lower_seq(es[0].0@) == lower_seq(name) {
        Some(es[0].1@)
    } else {
        extra_header_value(es.drop_first(), name)
    }
}

/// The ID the response phase echoes under `name`: the client's readable
/// one, otherwise the first extra request header of that name.
pub open spec fn echo_id(ctx: HttpFilterContext, name: Seq<char>) -> Option<Seq<char>> {
    match client_id(ctx, name) {
        Some(v) => Some(v),
        None => extra_header_value(ctx.extra_request_headers@, name),
    }
}

proof fn lemma_extra_push(es: Seq<(String, String)>, e: (String, String), name: Seq<char>)
    requires
        extra_header_value(es, name) is None,
    ensures
        extra_header_value(es.push(e), name) == if lower_seq(e.0@) == lower_seq(name) {
            Some(e.1@)
        } else {
            None::<Seq<char>>
        },
    decreases es.len(),
{
    if es.len() == 0 {
        assert(es.push(e)[0] == e);
        assert(es.push(e).drop_first() =~= Seq::<(String, String)>::empty());
        assert(extra_header_value(Seq::<(String, String)>::empty(), name) is None);
    } else {
        assert(es.push(e).drop_first() =~= es.drop_first().push(e));
        assert(es.push(e)[0] == es[0]);
        lemma_extra_push(es.drop_first(), e, name);
    }
}

/// The ID echoed on the response is the ID forwarded upstream: when the
/// request phase has queued `id` under the filter's header (the client's
/// own readable ID when it sent one) after extra headers holding none of
/// that name, the response phase echoes exactly `id`.
pub proof fn echoed_id_is_forwarded(before: HttpFilterContext, after: HttpFilterContext, name: Seq<char>)
    requires
        extra_header_value(before.extra_request_headers@, name) is None,
        after.request == before.request,
        after.extra_request_headers@.len() == before.extra_request_headers@.len() + 1,
        forall|i: int| 0 <= i < before.extra_request_headers@.len() ==>
            after.extra_request_headers@[i] == before.extra_request_headers@[i],
        after.extra_request_headers@.last().0@ == name,
        client_id(before, name) matches Some(v) ==> after.extra_request_headers@.last().1@ == v,
    ensures
        echo_id(after, name) == Some(after.extra_request_headers@.last().1@),
{
    let es = before.extra_request_headers@;
    let e = after.extra_request_headers@.last();
    assert(after.extra_request_headers@ =~= es.push(e));
    lemma_extra_push(es, e, name);
}

fn find_extra_header(es: &Vec<(String, String)>, name: &str) -> (r: Option<String>)
    ensures
        r matches Some(v) ==> extra_header_value(es@, name@) == Some(v@),
        r is None ==> extra_header_value(es@, name@) is None,
{
    let mut i: usize = 0;
    assert(es@.subrange(0, es@.len() as int) =~= es@);
    while i < es.len()
        invariant
            i <= es@.len(),
            extra_header_value(es@, name@) == extra_header_value(es@.subrange(i as int, es@.len() as int), name@),
        decreases es@.len() - i,
    {
        let ghost rest = es@.subrange(i as int, es@.len() as int);
        if eq_ignore_ascii_case(es[i].0.as_str(), name) {
            return Some(es[i].1.clone());
        }
        assert(rest.drop_first() =~= es@.subrange(i + 1, es@.len() as int));
        i = i + 1;
    }
    None
}

impl RequestIdFilter {
    /// Create the filter; the header defaults to `X-Request-ID`.
    pub fn from_config(header_name: Option<String>) -> (r: Self)
        ensures
            r.counter == 0,
            header_name matches Some(h) ==> r.header_name@ == h@,
            header_name is None ==> r.header_name@ == "X-Request-ID"@,
    {
        let header_name = match header_name {
            Some(h) => h,
            None => "X-Request-ID".to_owned(),
        };
        RequestIdFilter { counter: 0, header_name }
    }

    /// The filter's registered name.
    pub fn name(&self) -> (r: &'static str)
        ensures
            r@ == "request_id"@,
    {
        "request_id"
    }

    /// The filter's profile in a pipeline.
    pub fn profile() -> (r: FilterProfile)
        ensures
            crate::pipeline::plain_http_profile(r, "request_id"@),
    {
        FilterProfile::http("request_id")
    }

    /// Generate a new request ID from the current time and the next
    /// sequence number.
    pub fn generate_id(&mut self) -> (r: String)
        ensures
            final(self).header_name == old(self).header_name,
            final(self).counter == old(self).counter.wrapping_add(1),
            exists|micros: u64| r@ == request_id_text(micros, old(self).counter),
    {
        let micros = now_micros();
        let seq = self.counter;
        self.counter = self.counter.wrapping_add(1);
        format_request_id(micros, seq)
    }

    /// Forward the client's ID (or a freshly generated one) upstream.
    pub fn on_request(&mut self, ctx: &mut HttpFilterContext) -> (r: FilterAction)
        ensures
            *final(ctx) == (HttpFilterContext { extra_request_headers: final(ctx).extra_request_headers, ..*old(ctx) }),
            r is Continue,
            final(self).header_name == old(self).header_name,
            final(ctx).request == old(ctx).request,
            final(ctx).cluster == old(ctx).cluster,
            final(ctx).upstream == old(ctx).upstream,
            final(ctx).response_header == old(ctx).response_header,
            final(ctx).extra_request_headers@.len() == old(ctx).extra_request_headers@.len() + 1,
            forall|i: int| 0 <= i < old(ctx).extra_request_headers@.len() ==>
                final(ctx).extra_request_headers@[i] == old(ctx).extra_request_headers@[i],
            final(ctx).extra_request_headers@.last().0@ == old(self).header_name@,
            client_id(*old(ctx), old(self).header_name@) matches Some(v) ==>
                final(ctx).extra_request_headers@.last().1@ == v && final(self).counter == old(self).counter,
            client_id(*old(ctx), old(self).header_name@) is None ==>
                final(self).counter == old(self).counter.wrapping_add(1) && exists|micros: u64|
                    final(ctx).extra_request_headers@.last().1@ == request_id_text(micros, old(self).counter),
    {
        let existing = match ctx.request.headers.get(self.header_name.as_str()) {
            Some(v) => if is_visible_text(v.as_str()) { Some(v) } else { None },
            None => None,
        };
        let id = match existing {
            Some(v) => v,
            None => self.generate_id(),
        };
        ctx.extra_request_headers.push((self.header_name.clone(), id));
        FilterAction::Continue
    }

    /// Echo the ID on the response: the client's value if it sent one,
    /// otherwise the one forwarded upstream.
    pub fn on_response(&self, ctx: &mut HttpFilterContext) -> (r: FilterAction)
        requires
            old(ctx).response_header matches Some(resp) ==> resp.headers.wf(),
        ensures
            *final(ctx) == (HttpFilterContext { response_header: final(ctx).response_header, ..*old(ctx) }),
            r is Continue,
            final(ctx).request == old(ctx).request,
            final(ctx).extra_request_headers == old(ctx).extra_request_headers,
            final(ctx).cluster == old(ctx).cluster,
            old(ctx).response_header is None ==> final(ctx).response_header is None,
            old(ctx).response_header matches Some(resp) ==> final(ctx).response_header matches Some(out) && ({
                let id = echo_id(*old(ctx), self.header_name@);
                &&& out.status == resp.status
                &&& out.headers.wf()
                &&& match id {
                    Some(v) => if valid_header_name(self.header_name@) && valid_header_value(v) {
                        out.headers@ == without_name(resp.headers@, lower_seq(self.header_name@)).push((lower_seq(self.header_name@), v))
                    } else {
                        out.headers@ == resp.headers@
                    },
                    None => out.headers@ == resp.headers@,
                }
            }),
    {
        if ctx.response_header.is_none() {
            return FilterAction::Continue;
        }
        let id = match ctx.request.headers.get(self.header_name.as_str()) {
            Some(v) => if is_visible_text(v.as_str()) { Some(v) } else { find_extra_header(&ctx.extra_request_headers, self.header_name.as_str()) },
            None => find_extra_header(&ctx.extra_request_headers, self.header_name.as_str()),
        };
        match id {
            Some(v) => {
                if is_valid_header_name(self.header_name.as_str()) && is_valid_header_value(v.as_str()) {
                    let mut resp = ctx.response_header.take().unwrap();
                    resp.headers.insert(self.header_name.as_str(), v.as_str());
                    ctx.response_header = Some(resp);
                }
            },
            None => {},
        }
        FilterAction::Continue
    }
}

// ---------------------------------------------------------------------------
// TCP access log
// ---------------------------------------------------------------------------

/// Logs TCP connection events; it has no configurable parameters.
#[derive(Debug)]
pub struct TcpAccessLogFilter;

impl TcpAccessLogFilter {
    /// Create the filter; any configuration is accepted and ignored.
    pub fn from_config() -> (r: Self) {
        TcpAccessLogFilter
    }

    /// The filter's registered name.
    pub fn name(&self) -> (r: &'static str)
        ensures
            r@ == "tcp_access_log"@,
    {
        "tcp_access_log"
    }

    /// The filter's profile in a pipeline.
    pub fn profile() -> (r: FilterProfile)
        ensures
            crate::pipeline::plain_tcp_profile(r, "tcp_access_log"@),
    {
        FilterProfile::tcp("tcp_access_log")
    }

    /// Connection accepted: the filter only records it and continues.
    pub fn on_connect(&self) -> (r: FilterAction)
        ensures
            r is Continue,
    {
        FilterAction::Continue
    }

    /// Connection closed: the filter only records it.
    pub fn on_disconnect(&self) -> (r: Result<(), FilterError>)
        ensures
            r is Ok,
    {
        Ok(())
    }
}

} // verus!
