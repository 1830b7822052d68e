//! Upstream endpoint selection: cluster configuration, weighted endpoint
//! expansion and the round-robin, least-connections and consistent-hash
//! strategies.

use vstd::prelude::*;
use vstd::string::*;
use vstd::utf8::encode_utf8;
use crate::actions::FilterAction;
use crate::context::{ConnectionOptions, FilterError, HttpFilterContext, Upstream};
use crate::message::{is_visible_text, visible_text, Request};
use crate::text::{push_str, str_eq};

verus! {

// ---------------------------------------------------------------------------
// Cluster configuration
// ---------------------------------------------------------------------------

/// An upstream endpoint: a bare address (weight 1) or an address with an
/// explicit weight.
#[derive(Debug)]
pub enum Endpoint {
    /// An address with the default weight of 1.
    Simple(String),
    /// An address with an explicit weight.
    Weighted {
        /// The endpoint address.
        address: String,
        /// Relative share of the traffic.
        weight: u32,
    },
}

impl Endpoint {
    /// The endpoint's address as text.
    pub open spec fn address_view(&self) -> Seq<char> {
        match self {
            Endpoint::Simple(a) => a@,
            Endpoint::Weighted { address, .. } => address@,
        }
    }

    /// The endpoint's weight.
    pub open spec fn weight_view(&self) -> nat {
        match self {
            Endpoint::Simple(_) => 1,
            Endpoint::Weighted { weight, .. } => *weight as nat,
        }
    }

    /// The endpoint's address.
    pub fn address(&self) -> (r: &str)
        ensures
            r@ == self.address_view(),
    {
        match self {
            Endpoint::Simple(a) => a.as_str(),
            Endpoint::Weighted { address, .. } => address.as_str(),
        }
    }

    /// The endpoint's weight (1 for a bare address).
    pub fn weight(&self) -> (r: u32)
        ensures
            r as nat == self.weight_view(),
    {
        match self {
            Endpoint::Simple(_) => 1,
            Endpoint::Weighted { weight, .. } => *weight,
        }
    }
}

/// Strategies without parameters.
#[derive(Debug, Clone, Copy, PartialEq, Eq, Structural)]
pub enum SimpleStrategy {
    /// Cycle through endpoints in order.
    RoundRobin,
    /// Pick the endpoint with the fewest in-flight requests.
    LeastConnections,
}

/// Options of the consistent-hash strategy.
#[derive(Debug)]
pub struct ConsistentHashOpts {
    /// Request header whose value is hashed; the URI path when absent.
    pub header: Option<String>,
}

/// Strategies with parameters.
#[derive(Debug)]
pub enum ParameterisedStrategy {
    /// Hash a request attribute to a stable endpoint.
    ConsistentHash(ConsistentHashOpts),
}

/// A cluster's load-balancing strategy.
#[derive(Debug)]
pub enum LoadBalancerStrategy {
    /// A strategy without parameters.
    Simple(SimpleStrategy),
    /// A strategy with parameters.
    Parameterised(ParameterisedStrategy),
}

impl Default for LoadBalancerStrategy {
    /// Round robin.
    fn default() -> (r: Self)
        ensures
            r == LoadBalancerStrategy::Simple(SimpleStrategy::RoundRobin),
    {
        LoadBalancerStrategy::Simple(SimpleStrategy::RoundRobin)
    }
}

/// A named group of upstream endpoints with its connection settings.
#[derive(Debug)]
pub struct Cluster {
    /// Cluster name, referenced by routes.
    pub name: String,
    /// The endpoints.
    pub endpoints: Vec<Endpoint>,
    /// Connection establishment timeout in milliseconds.
    pub connection_timeout_ms: Option<u64>,
    /// Idle connection timeout in milliseconds.
    pub idle_timeout_ms: Option<u64>,
    /// How requests are spread over the endpoints.
    pub load_balancer_strategy: LoadBalancerStrategy,
    /// Read timeout in milliseconds.
    pub read_timeout_ms: Option<u64>,
    /// Total connection timeout (including TLS) in milliseconds.
    pub total_connection_timeout_ms: Option<u64>,
    /// SNI override for upstream TLS.
    pub upstream_sni: Option<String>,
    /// Whether to connect to the endpoints over TLS.
    pub upstream_tls: bool,
    /// Write timeout in milliseconds.
    pub write_timeout_ms: Option<u64>,
}

/// The connection options a cluster's settings give.
pub open spec fn cluster_options(c: Cluster) -> ConnectionOptions {
    ConnectionOptions {
        connection_timeout_ms: c.connection_timeout_ms,
        idle_timeout_ms: c.idle_timeout_ms,
        read_timeout_ms: c.read_timeout_ms,
        total_connection_timeout_ms: c.total_connection_timeout_ms,
        write_timeout_ms: c.write_timeout_ms,
    }
}

impl ConnectionOptions {
    /// The connection options a cluster's settings give.
    pub fn from_cluster(c: &Cluster) -> (r: Self)
        ensures
            r == cluster_options(*c),
    {
        ConnectionOptions {
            connection_timeout_ms: c.connection_timeout_ms,
            idle_timeout_ms: c.idle_timeout_ms,
            read_timeout_ms: c.read_timeout_ms,
            total_connection_timeout_ms: c.total_connection_timeout_ms,
            write_timeout_ms: c.write_timeout_ms,
        }
    }
}

/// The addresses of `es`, each repeated as often as its weight.
pub open spec fn expand(es: Seq<Endpoint>) -> Seq<Seq<char>>
    decreases es.len(),
{
    if es.len() == 0 {
        Seq::empty()
    } else {
        expand(es.drop_last()) + Seq::new(es.last().weight_view(), |i: int| es.last().address_view())
    }
}

/// Texts of a list of strings.
pub open spec fn texts(v: Seq<String>) -> Seq<Seq<char>> {
    v.map_values(|s: String| s@)
}

/// Expand weighted endpoints into a flat address list.
pub fn expand_endpoints(es: &Vec<Endpoint>) -> (r: Vec<String>)
    ensures
        texts(r@) == expand(es@),
{
    let mut out: Vec<String> = Vec::new();
    let mut i: usize = 0;
    while i < es.len()
        invariant
            i <= es@.len(),
            texts(out@) == expand(es@.subrange(0, i as int)),
        decreases es@.len() - i,
    {
        let e = &es[i];
        let w = e.weight();
        let ghost before = texts(out@);
        let mut k: u32 = 0;
        while k < w
            invariant
                k <= w,
                w as nat == e.weight_view(),
                texts(out@) == before + Seq::new(k as nat, |j: int| e.address_view()),
            decreases w - k,
        {
            let ghost prev = out@;
            let a = e.address().to_owned();
            out.push(a);
            proof {
                assert(texts(out@) =~= texts(prev).push(e.address_view()));
                assert(Seq::new((k + 1) as nat, |j: int| e.address_view()) =~= Seq::new(k as nat, |j: int| e.address_view()).push(e.address_view()));
                assert(texts(out@) =~= before + Seq::new((k + 1) as nat, |j: int| e.address_view()));
            }
            k = k + 1;
        }
        proof {
            assert(es@.subrange(0, i + 1).drop_last() =~= es@.subrange(0, i as int));
            assert(es@.subrange(0, i + 1).last() == es@[i as int]);
        }
        i = i + 1;
    }
    proof {
        assert(es@.subrange(0, es@.len() as int) =~= es@);
    }
    out
}

/// How often `a` occurs in `s`.
pub open spec fn count_of(s: Seq<Seq<char>>, a: Seq<char>) -> nat
    decreases s.len(),
{
    if s.len() == 0 {
        0
    } else {
        count_of(s.drop_last(), a) + if s.last() == a { 1nat } else { 0nat }
    }
}

/// The total weight of the endpoints of `es` with address `a`.
pub open spec fn weight_of(es: Seq<Endpoint>, a: Seq<char>) -> nat
    decreases es.len(),
{
    if es.len() == 0 {
        0
    } else {
        weight_of(es.drop_last(), a) + if es.last().address_view() == a { es.last().weight_view() } else { 0nat }
    }
}

proof fn lemma_count_concat(x: Seq<Seq<char>>, y: Seq<Seq<char>>, a: Seq<char>)
    ensures
        count_of(x + y, a) == count_of(x, a) + count_of(y, a),
    decreases y.len(),
{
    if y.len() > 0 {
        lemma_count_concat(x, y.drop_last(), a);
        assert((x + y).drop_last() =~= x + y.drop_last());
    } else {
        assert(x + y =~= x);
    }
}

proof fn lemma_count_repeat(b: Seq<char>, w: nat, a: Seq<char>)
    ensures
        count_of(Seq::new(w, |i: int| b), a) == if b == a { w } else { 0 },
    decreases w,
{
    if w > 0 {
        lemma_count_repeat(b, (w - 1) as nat, a);
        assert(Seq::new(w, |i: int| b).drop_last() =~= Seq::new((w - 1) as nat, |i: int| b));
    }
}

/// Each address occurs in the expanded list as often as the weights of its
/// endpoints add up to, so round robin over it gives each endpoint a share
/// of the traffic proportional to its weight.
pub proof fn expansion_respects_weights(es: Seq<Endpoint>, a: Seq<char>)
    ensures
        count_of(expand(es), a) == weight_of(es, a),
    decreases es.len(),
{
    if es.len() > 0 {
        expansion_respects_weights(es.drop_last(), a);
        let rep = Seq::new(es.last().weight_view(), |i: int| es.last().address_view());
        lemma_count_concat(expand(es.drop_last()), rep, a);
        lemma_count_repeat(es.last().address_view(), es.last().weight_view(), a);
    }
}

// ---------------------------------------------------------------------------
// Round robin
// ---------------------------------------------------------------------------

/// Cycles through the (weight-expanded) endpoints in order.
#[derive(Debug)]
pub struct RoundRobin {
    /// Expanded endpoint list.
    pub endpoints: Vec<String>,
    /// Number of selections made so far (wrapping).
    pub next: usize,
}

/// The position a round-robin selector with counter `next` over `n`
/// endpoints picks.
pub open spec fn rr_index(next: usize, n: nat) -> int {
    (next as int) % (n as int)
}

impl RoundRobin {
    /// A selector starting at the first endpoint.
    pub fn new(endpoints: Vec<String>) -> (r: Self)
        ensures
            r.endpoints@ == endpoints@,
            r.next == 0,
    {
        RoundRobin { endpoints, next: 0 }
    }

    /// Pick the next endpoint in turn.
    pub fn select(&mut self) -> (r: String)
        requires
            old(self).endpoints@.len() > 0,
        ensures
            final(self).endpoints@ == old(self).endpoints@,
            final(self).next == old(self).next.wrapping_add(1),
            r@ == old(self).endpoints@[rr_index(old(self).next, old(self).endpoints@.len())]@,
    {
        let idx = self.next % self.endpoints.len();
        self.next = self.next.wrapping_add(1);
        self.endpoints[idx].clone()
    }
}

/// Within `n` consecutive round-robin selections (with no counter wrap in
/// between) every endpoint position is picked exactly once.
pub proof fn round_robin_visits_each_once(start: usize, n: nat, i: nat, j: nat)
    requires
        n > 0,
        i < n,
        j < n,
        i != j,
        start + n <= usize::MAX + 1,
    ensures
        rr_index((start + i) as usize, n) != rr_index((start + j) as usize, n),
{
    let a = start + i;
    let b = start + j;
    assert(a % (n as int) != b % (n as int)) by (nonlinear_arith)
        requires
            n > 0,
            i < n,
            j < n,
            i != j,
            a == start + i,
            b == start + j,
    {
        if a % (n as int) == b % (n as int) {
            vstd::arithmetic::div_mod::lemma_fundamental_div_mod(a, n as int);
            vstd::arithmetic::div_mod::lemma_fundamental_div_mod(b, n as int);
        }
    }
}

// ---------------------------------------------------------------------------
// Least connections
// ---------------------------------------------------------------------------

/// Removes repeated texts, keeping first occurrences in order.
pub open spec fn dedup(s: Seq<Seq<char>>) -> Seq<Seq<char>>
    decreases s.len(),
{
    if s.len() == 0 {
        Seq::empty()
    } else if dedup(s.drop_last()).contains(s.last()) {
        dedup(s.drop_last())
    } else {
        dedup(s.drop_last()).push(s.last())
    }
}

/// The first position holding the smallest counter.
pub open spec fn first_min(c: Seq<usize>) -> int
    decreases c.len(),
{
    if c.len() <= 1 {
        0
    } else {
        let k = first_min(c.drop_last());
        if c.last() < c[k] { c.len() - 1 } else { k }
    }
}

/// `first_min` is a position of a smallest counter, and no earlier position
/// holds that value.
pub proof fn first_min_is_min(c: Seq<usize>)
    requires
        c.len() > 0,
    ensures
        0 <= first_min(c) < c.len(),
        forall|j: int| 0 <= j < c.len() ==> c[first_min(c)] <= #[trigger] c[j],
        forall|j: int| 0 <= j < first_min(c) ==> c[first_min(c)] < #[trigger] c[j],
    decreases c.len(),
{
    if c.len() > 1 {
        let d = c.drop_last();
        first_min_is_min(d);
        let k = first_min(d);
        let m = first_min(c);
        assert(d[k] == c[k]);
        assert forall|j: int| 0 <= j < c.len() implies c[m] <= #[trigger] c[j] by {
            if j < c.len() - 1 {
                assert(d[j] == c[j]);
                assert(d[k] <= d[j]);
            }
        }
        assert forall|j: int| 0 <= j < m implies c[m] < #[trigger] c[j] by {
            assert(d[j] == c[j]);
            if m == k {
                assert(d[k] < d[j]);
            } else {
                assert(d[k] <= d[j]);
            }
        }
    }
}

/// Picks the endpoint with the fewest in-flight requests, ties going to the
/// earliest endpoint.
#[derive(Debug)]
pub struct LeastConnections {
    /// Distinct endpoint addresses in first-seen order.
    pub endpoints: Vec<String>,
    /// In-flight request count per endpoint, by position.
    pub counters: Vec<usize>,
}

impl LeastConnections {
    /// One counter per endpoint, and no endpoint listed twice.
    pub open spec fn wf(&self) -> bool {
        &&& self.counters@.len() == self.endpoints@.len()
        &&& forall|i: int, j: int| 0 <= i < j < self.endpoints@.len() ==> #[trigger] self.endpoints@[i]@ != #[trigger] self.endpoints@[j]@
    }

    /// A selector over the distinct addresses of `endpoints`, all counters
    /// at zero.
    pub fn new(endpoints: Vec<String>) -> (r: Self)
        ensures
            r.wf(),
            texts(r.endpoints@) == dedup(texts(endpoints@)),
            forall|i: int| 0 <= i < r.counters@.len() ==> r.counters@[i] == 0,
    {
        let mut unique: Vec<String> = Vec::new();
        let mut counters: Vec<usize> = Vec::new();
        let mut i: usize = 0;
        while i < endpoints.len()
            invariant
                i <= endpoints@.len(),
                counters@.len() == unique@.len(),
                forall|k: int| 0 <= k < counters@.len() ==> counters@[k] == 0,
                texts(unique@) == dedup(texts(endpoints@).subrange(0, i as int)),
                forall|a: int, b: int| 0 <= a < b < unique@.len() ==> #[trigger] unique@[a]@ != #[trigger] unique@[b]@,
            decreases endpoints@.len() - i,
        {
            let addr = &endpoints[i];
            let mut seen = false;
            let mut j: usize = 0;
            while j < unique.len()
                invariant
                    j <= unique@.len(),
                    seen <==> exists|k: int| 0 <= k < j && unique@[k]@ == addr@,
                decreases unique@.len() - j,
            {
                if str_eq(unique[j].as_str(), addr.as_str()) {
                    seen = true;
                }
                j = j + 1;
            }
            let ghost prev = texts(endpoints@).subrange(0, i as int);
            proof {
                assert(texts(endpoints@).subrange(0, i + 1).drop_last() =~= prev);
                assert(texts(endpoints@).subrange(0, i + 1).last() == addr@);
                if seen {
                    let k = choose|k: int| 0 <= k < unique@.len() && unique@[k]@ == addr@;
                    assert(texts(unique@)[k] == addr@);
                } else {
                    assert forall|k: int| 0 <= k < texts(unique@).len() implies texts(unique@)[k] != addr@ by {
                        assert(texts(unique@)[k] == unique@[k]@);
                    }
                }
            }
            let ghost before = unique@;
            if !seen {
                unique.push(addr.clone());
                counters.push(0);
                proof {
                    assert(texts(unique@) =~= texts(before).push(addr@));
                    assert forall|a: int, b: int| 0 <= a < b < unique@.len() implies #[trigger] unique@[a]@ != #[trigger] unique@[b]@ by {
                        if b == unique@.len() - 1 {
                            assert(texts(before)[a] == before[a]@);
                        }
                    }
                }
            }
            i = i + 1;
        }
        proof {
            assert(texts(endpoints@).subrange(0, endpoints@.len() as int) =~= texts(endpoints@));
        }
        LeastConnections { endpoints: unique, counters }
    }
}


/// The counters after a selection: the first smallest one goes up by one
/// (wrapping).
pub open spec fn lc_selected(c: Seq<usize>) -> Seq<usize> {
    c.update(first_min(c), c[first_min(c)].wrapping_add(1))
}

/// The counters after `addr` is released: its counter goes down by one,
/// but not below zero; an unknown address changes nothing.
pub open spec fn lc_released(eps: Seq<Seq<char>>, c: Seq<usize>, addr: Seq<char>) -> Seq<usize> {
    if exists|k: int| 0 <= k < eps.len() && eps[k] == addr {
        let k = choose|k: int| 0 <= k < eps.len() && eps[k] == addr;
        c.update(k, if c[k] > 0 { (c[k] - 1) as usize } else { 0 })
    } else {
        c
    }
}

impl LeastConnections {
    /// Pick the endpoint with the fewest in-flight requests (the first such
    /// on a tie) and count one more request on it.
    pub fn select(&mut self) -> (r: String)
        requires
            old(self).wf(),
            old(self).endpoints@.len() > 0,
        ensures
            final(self).wf(),
            final(self).endpoints@ == old(self).endpoints@,
            final(self).counters@ == lc_selected(old(self).counters@),
            r@ == old(self).endpoints@[first_min(old(self).counters@)]@,
    {
        let n = self.counters.len();
        let mut best: usize = 0;
        let mut i: usize = 1;
        while i < n
            invariant
                n == self.counters@.len(),
                n > 0,
                1 <= i <= n,
                best < i,
                best as int == first_min(self.counters@.subrange(0, i as int)),
            decreases n - i,
        {
            proof {
                let t = self.counters@.subrange(0, i + 1);
                assert(t.drop_last() =~= self.counters@.subrange(0, i as int));
                assert(t.last() == self.counters@[i as int]);
                assert(t[best as int] == self.counters@[best as int]);
            }
            if self.counters[i] < self.counters[best] {
                best = i;
            }
            i = i + 1;
        }
        proof {
            assert(self.counters@.subrange(0, n as int) =~= self.counters@);
        }
        let v = self.counters[best];
        self.counters.set(best, v.wrapping_add(1));
        self.endpoints[best].clone()
    }

    /// A response arrived from `addr`: count one request less on it, never
    /// going below zero. Unknown addresses are ignored.
    pub fn release(&mut self, addr: &str)
        requires
            old(self).wf(),
        ensures
            final(self).wf(),
            final(self).endpoints@ == old(self).endpoints@,
            final(self).counters@ == lc_released(texts(old(self).endpoints@), old(self).counters@, addr@),
    {
        let n = self.endpoints.len();
        let mut i: usize = 0;
        while i < n
            invariant
                n == self.endpoints@.len(),
                self.wf(),
                self.endpoints@ == old(self).endpoints@,
                self.counters@ == old(self).counters@,
                i <= n,
                forall|k: int| 0 <= k < i ==> self.endpoints@[k]@ != addr@,
            decreases n - i,
        {
            if str_eq(self.endpoints[i].as_str(), addr) {
                let v = self.counters[i];
                let nv = if v > 0 { v - 1 } else { 0 };
                self.counters.set(i, nv);
                proof {
                    let eps = texts(old(self).endpoints@);
                    assert(eps[i as int] == addr@);
                    let k = choose|k: int| 0 <= k < eps.len() && eps[k] == addr@;
                    assert(eps[k] == old(self).endpoints@[k]@);
                    if k != i {
                        if k < i {
                            assert(old(self).endpoints@[k]@ != old(self).endpoints@[i as int]@);
                        } else {
                            assert(old(self).endpoints@[i as int]@ != old(self).endpoints@[k]@);
                        }
                    }
                }
                return;
            }
            i = i + 1;
        }
        proof {
            let eps = texts(old(self).endpoints@);
            assert forall|k: int| 0 <= k < eps.len() implies eps[k] != addr@ by {
                assert(eps[k] == old(self).endpoints@[k]@);
            }
        }
    }
}

/// Releasing the endpoint that a selection just picked restores every
/// counter, as long as that counter did not wrap.
pub proof fn release_undoes_select(eps: Seq<Seq<char>>, c: Seq<usize>)
    requires
        eps.len() == c.len(),
        c.len() > 0,
        forall|i: int, j: int| 0 <= i < j < eps.len() ==> #[trigger] eps[i] != #[trigger] eps[j],
        c[first_min(c)] < usize::MAX,
    ensures
        lc_released(eps, lc_selected(c), eps[first_min(c)]) == c,
{
    first_min_is_min(c);
    let m = first_min(c);
    let k = choose|k: int| 0 <= k < eps.len() && eps[k] == eps[m];
    if k != m {
        if k < m {
            assert(eps[k] != eps[m]);
        } else {
            assert(eps[m] != eps[k]);
        }
    }
    assert(lc_released(eps, lc_selected(c), eps[m]) =~= c);
}

/// A release never takes a counter below zero and never raises one.
pub proof fn release_never_underflows(eps: Seq<Seq<char>>, c: Seq<usize>, addr: Seq<char>, i: int)
    requires
        eps.len() == c.len(),
        0 <= i < c.len(),
    ensures
        lc_released(eps, c, addr)[i] <= c[i],
        c[i] == 0 ==> lc_released(eps, c, addr)[i] == 0,
{
}

// ---------------------------------------------------------------------------
// Consistent hash
// ---------------------------------------------------------------------------

/// FNV-1a 64-bit offset basis.
pub const FNV_OFFSET: u64 = 0xcbf2_9ce4_8422_2325;

/// FNV-1a 64-bit prime.
pub const FNV_PRIME: u64 = 0x0000_0100_0000_01b3;

/// One FNV-1a step: fold in a byte, then multiply (wrapping).
pub open spec fn fnv_step(h: u64, b: u8) -> u64 {
    (h ^ (b as u64)).wrapping_mul(FNV_PRIME)
}

/// FNV-1a 64-bit hash of a byte string.
pub open spec fn fnv1a_bytes(b: Seq<u8>) -> u64
    decreases b.len(),
{
    if b.len() == 0 {
        FNV_OFFSET
    } else {
        fnv_step(fnv1a_bytes(b.drop_last()), b.last())
    }
}

/// FNV-1a 64-bit hash of the UTF-8 encoding of `s`.
pub fn fnv1a(s: &str) -> (r: u64)
    ensures
        r == fnv1a_bytes(encode_utf8(s@)),
{
    let bytes = s.as_bytes();
    let mut hash: u64 = FNV_OFFSET;
    let mut i: usize = 0;
    while i < bytes.len()
        invariant
            i <= bytes@.len(),
            hash == fnv1a_bytes(bytes@.subrange(0, i as int)),
        decreases bytes@.len() - i,
    {
        proof {
            assert(bytes@.subrange(0, i + 1).drop_last() =~= bytes@.subrange(0, i as int));
        }
        hash = (hash ^ (bytes[i] as u64)).wrapping_mul(FNV_PRIME);
        i = i + 1;
    }
    proof {
        assert(bytes@.subrange(0, bytes@.len() as int) =~= bytes@);
    }
    hash
}

/// Routes each request to the endpoint its hash key selects.
#[derive(Debug)]
pub struct ConsistentHash {
    /// Expanded endpoint list.
    pub endpoints: Vec<String>,
    /// Header whose value is hashed; the URI path when `None` or when the
    /// header is absent or not readable as text.
    pub header: Option<String>,
}

/// The text hashed for a request.
pub open spec fn hash_key(header: Option<String>, req: Request) -> Seq<char> {
    match header {
        Some(h) => match req.headers.first(h@) {
            Some(v) => if visible_text(v) { v } else { req.path@ },
            None => req.path@,
        },
        None => req.path@,
    }
}

/// The position a key selects among `n` endpoints.
pub open spec fn hash_index(key: Seq<char>, n: nat) -> int {
    ((fnv1a_bytes(encode_utf8(key)) as usize) as int) % (n as int)
}

impl ConsistentHash {
    /// A selector hashing `header` (or the path).
    pub fn new(endpoints: Vec<String>, header: Option<String>) -> (r: Self)
        ensures
            r.endpoints@ == endpoints@,
            r.header == header,
    {
        ConsistentHash { endpoints, header }
    }

    /// The endpoint for this request's hash key.
    pub fn select(&self, req: &Request) -> (r: String)
        requires
            self.endpoints@.len() > 0,
        ensures
            r@ == self.endpoints@[hash_index(hash_key(self.header, *req), self.endpoints@.len())]@,
    {
        let key: String = match &self.header {
            Some(h) => match req.headers.get(h.as_str()) {
                Some(v) => if is_visible_text(v.as_str()) { v } else { req.path.clone() },
                None => req.path.clone(),
            },
            None => req.path.clone(),
        };
        let idx = (fnv1a(key.as_str()) as usize) % self.endpoints.len();
        self.endpoints[idx].clone()
    }
}

/// Requests with the same hash key go to the same endpoint.
pub proof fn same_key_same_endpoint(header: Option<String>, a: Request, b: Request, n: nat)
    requires
        hash_key(header, a) == hash_key(header, b),
    ensures
        hash_index(hash_key(header, a), n) == hash_index(hash_key(header, b), n),
{
}

// ---------------------------------------------------------------------------
// Strategy dispatch
// ---------------------------------------------------------------------------

/// A cluster's selector state.
#[derive(Debug)]
pub enum Strategy {
    /// Cycle through endpoints in order, respecting weights.
    RoundRobin(RoundRobin),
    /// Pick the endpoint with the fewest active requests.
    LeastConnections(LeastConnections),
    /// Hash a request attribute to a stable endpoint.
    ConsistentHash(ConsistentHash),
}

impl Strategy {
    /// The least-connections state keeps its invariant.
    pub open spec fn wf(&self) -> bool {
        match self {
            Strategy::LeastConnections(lc) => lc.wf(),
            _ => true,
        }
    }

    /// Number of endpoints the strategy chooses among.
    pub open spec fn endpoint_count(&self) -> nat {
        match self {
            Strategy::RoundRobin(rr) => rr.endpoints@.len(),
            Strategy::LeastConnections(lc) => lc.endpoints@.len(),
            Strategy::ConsistentHash(ch) => ch.endpoints@.len(),
        }
    }

    /// `next` is the state after `self` picked `picked` for `req`.
    pub open spec fn select_step(self, next: Strategy, req: Request, picked: Seq<char>) -> bool {
        match (self, next) {
            (Strategy::RoundRobin(a), Strategy::RoundRobin(b)) => {
                &&& b.endpoints@ == a.endpoints@
                &&& b.next == a.next.wrapping_add(1)
                &&& picked == a.endpoints@[rr_index(a.next, a.endpoints@.len())]@
            },
            (Strategy::LeastConnections(a), Strategy::LeastConnections(b)) => {
                &&& b.endpoints@ == a.endpoints@
                &&& b.counters@ == lc_selected(a.counters@)
                &&& picked == a.endpoints@[first_min(a.counters@)]@
            },
            (Strategy::ConsistentHash(a), Strategy::ConsistentHash(b)) => {
                &&& b == a
                &&& picked == a.endpoints@[hash_index(hash_key(a.header, req), a.endpoints@.len())]@
            },
            _ => false,
        }
    }

    /// `next` is the state after a response from `addr` was released:
    /// only least connections keeps count.
    pub open spec fn release_step(self, next: Strategy, addr: Seq<char>) -> bool {
        match (self, next) {
            (Strategy::LeastConnections(a), Strategy::LeastConnections(b)) => {
                &&& b.endpoints@ == a.endpoints@
                &&& b.counters@ == lc_released(texts(a.endpoints@), a.counters@, addr)
            },
            _ => next == self,
        }
    }

    /// Pick the next endpoint address using the strategy's algorithm.
    pub fn select(&mut self, req: &Request) -> (r: String)
        requires
            old(self).wf(),
            old(self).endpoint_count() > 0,
        ensures
            final(self).wf(),
            old(self).select_step(*final(self), *req, r@),
    {
        match self {
            Strategy::RoundRobin(rr) => rr.select(),
            Strategy::LeastConnections(lc) => lc.select(),
            Strategy::ConsistentHash(ch) => ch.select(req),
        }
    }

    /// A response from `addr` arrived.
    pub fn release(&mut self, addr: &str)
        requires
            old(self).wf(),
        ensures
            final(self).wf(),
            old(self).release_step(*final(self), addr@),
    {
        match self {
            Strategy::LeastConnections(lc) => lc.release(addr),
            _ => {},
        }
    }
}

/// The same text, or both absent.
pub open spec fn same_text(a: Option<String>, b: Option<String>) -> bool {
    match (a, b) {
        (Some(x), Some(y)) => x@ == y@,
        (None, None) => true,
        _ => false,
    }
}

fn copy_text(a: &Option<String>) -> (r: Option<String>)
    ensures
        same_text(r, *a),
{
    match a {
        Some(s) => Some(s.as_str().to_owned()),
        None => None,
    }
}

/// The selector state a cluster's strategy starts in, over the expanded
/// endpoint list `expanded`.
pub open spec fn initial_strategy(cfg: LoadBalancerStrategy, expanded: Seq<Seq<char>>, s: Strategy) -> bool {
    match (cfg, s) {
        (LoadBalancerStrategy::Simple(SimpleStrategy::RoundRobin), Strategy::RoundRobin(rr)) => {
            texts(rr.endpoints@) == expanded && rr.next == 0
        },
        (LoadBalancerStrategy::Simple(SimpleStrategy::LeastConnections), Strategy::LeastConnections(lc)) => {
            &&& lc.wf()
            &&& texts(lc.endpoints@) == dedup(expanded)
            &&& forall|i: int| 0 <= i < lc.counters@.len() ==> lc.counters@[i] == 0
        },
        (LoadBalancerStrategy::Parameterised(ParameterisedStrategy::ConsistentHash(o)), Strategy::ConsistentHash(ch)) => {
            texts(ch.endpoints@) == expanded && same_text(ch.header, o.header)
        },
        _ => false,
    }
}

// ---------------------------------------------------------------------------
// Load balancer filter
// ---------------------------------------------------------------------------

/// Resolved state for a single cluster.
#[derive(Debug)]
pub struct ClusterEntry {
    /// The cluster's name.
    pub name: String,
    /// Connection options derived from the cluster config.
    pub opts: ConnectionOptions,
    /// Whether to use TLS when connecting to endpoints in this cluster.
    pub tls: bool,
    /// Optional SNI override for upstream TLS connections.
    pub sni: Option<String>,
    /// The load-balancing strategy for this cluster.
    pub strategy: Strategy,
}

/// The position of the last entry named `n` (a later definition of a name
/// replaces an earlier one), or -1.
pub open spec fn last_named(es: Seq<ClusterEntry>, n: Seq<char>) -> int
    decreases es.len(),
{
    if es.len() == 0 {
        -1
    } else if es.last().name@ == n {
        es.len() - 1
    } else {
        last_named(es.drop_last(), n)
    }
}

proof fn lemma_last_named(es: Seq<ClusterEntry>, n: Seq<char>)
    ensures
        -1 <= last_named(es, n) < es.len(),
        last_named(es, n) >= 0 ==> es[last_named(es, n)].name@ == n,
        last_named(es, n) == -1 ==> forall|i: int| 0 <= i < es.len() ==> (#[trigger] es[i]).name@ != n,
        forall|i: int| last_named(es, n) < i < es.len() ==> (#[trigger] es[i]).name@ != n,
    decreases es.len(),
{
    if es.len() > 0 {
        let d = es.drop_last();
        lemma_last_named(d, n);
        assert forall|i: int| last_named(es, n) < i < es.len() implies (#[trigger] es[i]).name@ != n by {
            if i < es.len() - 1 {
                assert(es[i] == d[i]);
            }
        }
        if last_named(es, n) >= 0 && last_named(es, n) < es.len() - 1 {
            assert(es[last_named(es, n)] == d[last_named(es, n)]);
        }
    }
}

/// The position of the last cluster definition named `n`, or -1.
pub open spec fn last_cluster(cs: Seq<Cluster>, n: Seq<char>) -> int
    decreases cs.len(),
{
    if cs.len() == 0 {
        -1
    } else if cs.last().name@ == n {
        cs.len() - 1
    } else {
        last_cluster(cs.drop_last(), n)
    }
}

/// No two entries share a name.
pub open spec fn distinct_names(es: Seq<ClusterEntry>) -> bool {
    forall|a: int, b: int| 0 <= a < b < es.len() ==> (#[trigger] es[a]).name@ != (#[trigger] es[b]).name@
}

/// `e` is the selector state built from cluster definition `c`.
pub open spec fn entry_from(e: ClusterEntry, c: Cluster) -> bool {
    &&& e.name@ == c.name@
    &&& e.opts == cluster_options(c)
    &&& e.tls == c.upstream_tls
    &&& same_text(e.sni, c.upstream_sni)
    &&& initial_strategy(c.load_balancer_strategy, expand(c.endpoints@), e.strategy)
}

/// The SNI name for a connection: the cluster's override, else the
/// request's `Host` header when readable as text, else empty.
pub open spec fn sni_for(sni: Option<String>, req: Request) -> Seq<char> {
    match sni {
        Some(s) => s@,
        None => match req.headers.first("host"@) {
            Some(v) => if visible_text(v) { v } else { Seq::empty() },
            None => Seq::empty(),
        },
    }
}

/// Selects an upstream endpoint using the routed cluster's strategy.
#[derive(Debug)]
pub struct LoadBalancerFilter {
    /// Per-cluster resolved state, in configuration order.
    pub clusters: Vec<ClusterEntry>,
}

impl LoadBalancerFilter {
    /// Every cluster's strategy keeps its invariant, and no two clusters
    /// share a name.
    pub open spec fn wf(&self) -> bool {
        &&& forall|i: int| 0 <= i < self.clusters@.len() ==> (#[trigger] self.clusters@[i]).strategy.wf()
        &&& distinct_names(self.clusters@)
    }

    /// The selector state for one cluster.
    fn build_entry(c: &Cluster) -> (r: ClusterEntry)
        ensures
            r.name@ == c.name@,
            r.opts == cluster_options(*c),
            r.tls == c.upstream_tls,
            same_text(r.sni, c.upstream_sni),
            r.strategy.wf(),
            initial_strategy(c.load_balancer_strategy, expand(c.endpoints@), r.strategy),
    {
        let addresses = expand_endpoints(&c.endpoints);
        let strategy = match &c.load_balancer_strategy {
            LoadBalancerStrategy::Simple(SimpleStrategy::RoundRobin) => Strategy::RoundRobin(RoundRobin::new(addresses)),
            LoadBalancerStrategy::Simple(SimpleStrategy::LeastConnections) => Strategy::LeastConnections(LeastConnections::new(addresses)),
            LoadBalancerStrategy::Parameterised(ParameterisedStrategy::ConsistentHash(o)) => {
                Strategy::ConsistentHash(ConsistentHash::new(addresses, copy_text(&o.header)))
            },
        };
        ClusterEntry {
            name: c.name.as_str().to_owned(),
            opts: ConnectionOptions::from_cluster(c),
            tls: c.upstream_tls,
            sni: copy_text(&c.upstream_sni),
            strategy,
        }
    }

    /// Create a load balancer from a list of cluster definitions. A later
    /// definition of a name replaces an earlier one.
    pub fn new(clusters: &Vec<Cluster>) -> (r: Self)
        ensures
            r.wf(),
            forall|k: int| 0 <= k < r.clusters@.len() ==> {
                let n = (#[trigger] r.clusters@[k]).name@;
                &&& last_cluster(clusters@, n) >= 0
                &&& entry_from(r.clusters@[k], clusters@[last_cluster(clusters@, n)])
            },
            forall|j: int| 0 <= j < clusters@.len() ==> {
                let n = (#[trigger] clusters@[j]).name@;
                let p = last_named(r.clusters@, n);
                &&& p >= 0
                &&& entry_from(r.clusters@[p], clusters@[last_cluster(clusters@, n)])
            },
    {
        let mut lb = LoadBalancerFilter { clusters: Vec::new() };
        let mut i: usize = 0;
        while i < clusters.len()
            invariant
                i <= clusters@.len(),
                lb.wf(),
                forall|k: int| 0 <= k < lb.clusters@.len() ==> {
                    let n = (#[trigger] lb.clusters@[k]).name@;
                    &&& last_cluster(clusters@.subrange(0, i as int), n) >= 0
                    &&& entry_from(lb.clusters@[k], clusters@[last_cluster(clusters@.subrange(0, i as int), n)])
                },
                forall|j: int| 0 <= j < i ==> last_named(lb.clusters@, (#[trigger] clusters@[j]).name@) >= 0,
            decreases clusters@.len() - i,
        {
            let e = Self::build_entry(&clusters[i]);
            let ghost pre = lb.clusters@;
            let ghost sub = clusters@.subrange(0, i as int);
            let ghost sub1 = clusters@.subrange(0, i + 1);
            let ghost name = clusters@[i as int].name@;
            proof {
                assert(sub1.drop_last() =~= sub);
                lemma_last_named(pre, name);
            }
            match lb.find(clusters[i].name.as_str()) {
                Some(k) => {
                    lb.clusters[k] = e;
                    proof {
                        let post = lb.clusters@;
                        assert(post =~= pre.update(k as int, e));
                        assert forall|a: int, b: int| 0 <= a < b < post.len() implies (#[trigger] post[a]).name@ != (#[trigger] post[b]).name@ by {
                            assert(pre[a].name@ != pre[b].name@);
                        }
                        assert forall|k2: int| 0 <= k2 < post.len() implies {
                            let n = (#[trigger] post[k2]).name@;
                            &&& last_cluster(sub1, n) >= 0
                            &&& entry_from(post[k2], clusters@[last_cluster(sub1, n)])
                        } by {
                            if k2 != k {
                                assert(pre[k2].name@ != pre[k as int].name@);
                            }
                        }
                        assert forall|j: int| 0 <= j < i + 1 implies last_named(post, (#[trigger] clusters@[j]).name@) >= 0 by {
                            let n = clusters@[j].name@;
                            lemma_last_named(pre, n);
                            lemma_last_named(post, n);
                            if j < i {
                                let p = last_named(pre, n);
                                assert(post[p].name@ == n);
                            } else {
                                assert(post[k as int].name@ == n);
                            }
                        }
                    }
                },
                None => {
                    lb.clusters.push(e);
                    proof {
                        let post = lb.clusters@;
                        assert(post.drop_last() =~= pre);
                        assert forall|a: int, b: int| 0 <= a < b < post.len() implies (#[trigger] post[a]).name@ != (#[trigger] post[b]).name@ by {
                            if b < pre.len() {
                                assert(pre[a].name@ != pre[b].name@);
                            } else {
                                assert(pre[a].name@ != name);
                            }
                        }
                        assert forall|k2: int| 0 <= k2 < post.len() implies {
                            let n = (#[trigger] post[k2]).name@;
                            &&& last_cluster(sub1, n) >= 0
                            &&& entry_from(post[k2], clusters@[last_cluster(sub1, n)])
                        } by {
                            if k2 < pre.len() {
                                assert(pre[k2].name@ != name);
                                assert(post[k2] == pre[k2]);
                            }
                        }
                        assert forall|j: int| 0 <= j < i + 1 implies last_named(post, (#[trigger] clusters@[j]).name@) >= 0 by {
                            let n = clusters@[j].name@;
                            if n != name {
                                assert(last_named(post, n) == last_named(pre, n));
                            }
                        }
                    }
                },
            }
            i = i + 1;
        }
        proof {
            assert(clusters@.subrange(0, clusters@.len() as int) =~= clusters@);
            assert forall|j: int| 0 <= j < clusters@.len() implies {
                let n = (#[trigger] clusters@[j]).name@;
                let p = last_named(lb.clusters@, n);
                &&& p >= 0
                &&& entry_from(lb.clusters@[p], clusters@[last_cluster(clusters@, n)])
            } by {
                let n = clusters@[j].name@;
                lemma_last_named(lb.clusters@, n);
                let p = last_named(lb.clusters@, n);
                assert(lb.clusters@[p].name@ == n);
            }
        }
        lb
    }

    /// The filter's registered name.
    pub fn name(&self) -> (r: &'static str)
        ensures
            r@ == "load_balancer"@,
    {
        "load_balancer"
    }

    /// The filter's profile in a pipeline.
    pub fn profile() -> (r: crate::pipeline::FilterProfile)
        ensures
            crate::pipeline::plain_http_profile(r, "load_balancer"@),
    {
        crate::pipeline::FilterProfile::http("load_balancer")
    }

    fn find(&self, name: &str) -> (r: Option<usize>)
        ensures
            r matches Some(i) ==> i as int == last_named(self.clusters@, name@) && i < self.clusters@.len(),
            r is None ==> last_named(self.clusters@, name@) == -1,
    {
        proof {
            lemma_last_named(self.clusters@, name@);
        }
        let mut i: usize = self.clusters.len();
        while i > 0
            invariant
                i <= self.clusters@.len(),
                -1 <= last_named(self.clusters@, name@) < self.clusters@.len(),
                last_named(self.clusters@, name@) >= 0 ==> self.clusters@[last_named(self.clusters@, name@)].name@ == name@,
                forall|j: int| last_named(self.clusters@, name@) < j < self.clusters@.len() ==> (#[trigger] self.clusters@[j]).name@ != name@,
                forall|j: int| i <= j < self.clusters@.len() ==> (#[trigger] self.clusters@[j]).name@ != name@,
            decreases i,
        {
            if str_eq(self.clusters[i - 1].name.as_str(), name) {
                return Some(i - 1);
            }
            i = i - 1;
        }
        None
    }
}

/// `new` equals `old` except for the strategy of entry `k`.
pub open spec fn only_strategy_changed(old: Seq<ClusterEntry>, new: Seq<ClusterEntry>, k: int) -> bool {
    &&& new.len() == old.len()
    &&& forall|j: int| 0 <= j < old.len() && j != k ==> new[j] == old[j]
    &&& new[k].name == old[k].name
    &&& new[k].opts == old[k].opts
    &&& new[k].tls == old[k].tls
    &&& new[k].sni == old[k].sni
}

/// The message when no router chose a cluster before this filter.
pub open spec fn no_cluster_message() -> Seq<char> {
    "load_balancer filter: no cluster set in context (is a router filter configured before this?)"@
}

/// The message for a cluster name the filter does not know.
pub open spec fn unknown_cluster_message(name: Seq<char>) -> Seq<char> {
    "load_balancer filter: unknown cluster '"@ + name + "'"@
}

impl LoadBalancerFilter {
    /// Select an endpoint of the routed cluster and record it as the
    /// request's upstream.
    pub fn on_request(&mut self, ctx: &mut HttpFilterContext) -> (r: Result<FilterAction, FilterError>)
        requires
            old(self).wf(),
            old(ctx).cluster matches Some(n) ==> (last_named(old(self).clusters@, n@) >= 0
                ==> old(self).clusters@[last_named(old(self).clusters@, n@)].strategy.endpoint_count() > 0),
        ensures
            *final(ctx) == (HttpFilterContext { upstream: final(ctx).upstream, ..*old(ctx) }),
            final(self).wf(),
            final(ctx).request == old(ctx).request,
            final(ctx).cluster == old(ctx).cluster,
            final(ctx).client_addr == old(ctx).client_addr,
            final(ctx).extra_request_headers == old(ctx).extra_request_headers,
            final(ctx).response_header == old(ctx).response_header,
            old(ctx).cluster is None ==> (r matches Err(e) && e.message@ == no_cluster_message())
                && *final(self) == *old(self) && final(ctx).upstream == old(ctx).upstream,
            old(ctx).cluster matches Some(n) ==> ({
                let k = last_named(old(self).clusters@, n@);
                &&& k == -1 ==> (r matches Err(e) && e.message@ == unknown_cluster_message(n@))
                    && *final(self) == *old(self) && final(ctx).upstream == old(ctx).upstream
                &&& k >= 0 ==> ({
                    let e = old(self).clusters@[k];
                    &&& r matches Ok(a) && a is Continue
                    &&& only_strategy_changed(old(self).clusters@, final(self).clusters@, k)
                    &&& final(ctx).upstream matches Some(u)
                        && e.strategy.select_step(final(self).clusters@[k].strategy, old(ctx).request, u.address@)
                        && u.tls == e.tls
                        && u.sni@ == sni_for(e.sni, old(ctx).request)
                        && u.connection == e.opts
                })
            }),
    {
        let name: String = match &ctx.cluster {
            Some(n) => n.as_str().to_owned(),
            None => {
                return Err(FilterError::new(
                    "load_balancer filter: no cluster set in context (is a router filter configured before this?)",
                ));
            },
        };
        match self.find(name.as_str()) {
            None => {
                let mut m = String::new();
                push_str(&mut m, "load_balancer filter: unknown cluster '");
                push_str(&mut m, name.as_str());
                push_str(&mut m, "'");
                Err(FilterError { message: m })
            },
            Some(k) => {
                let ghost before = self.clusters@;
                assert(before[k as int].strategy.wf());
                let mut e = self.clusters.remove(k);
                assert(e == before[k as int]);
                let addr = e.strategy.select(&ctx.request);
                let sni = match &e.sni {
                    Some(s) => s.as_str().to_owned(),
                    None => match ctx.request.headers.get("host") {
                        Some(v) => if is_visible_text(v.as_str()) { v } else { String::new() },
                        None => String::new(),
                    },
                };
                ctx.upstream = Some(Upstream { address: addr, tls: e.tls, sni, connection: e.opts });
                self.clusters.insert(k, e);
                proof {
                    assert forall|j: int| 0 <= j < before.len() && j != k implies self.clusters@[j] == before[j] by {
                        if j < k {
                            assert(self.clusters@[j] == before.remove(k as int)[j]);
                        } else {
                            assert(self.clusters@[j] == before.remove(k as int)[j - 1]);
                        }
                    }
                    assert forall|j: int| 0 <= j < self.clusters@.len() implies (#[trigger] self.clusters@[j]).strategy.wf() by {
                        if j != k {
                            assert(before[j].strategy.wf());
                        }
                    }
                }
                Ok(FilterAction::Continue)
            },
        }
    }

    /// A response arrived: release the in-flight count of the upstream the
    /// request went to.
    pub fn on_response(&mut self, ctx: &HttpFilterContext) -> (r: FilterAction)
        requires
            old(self).wf(),
        ensures
            final(self).wf(),
            r is Continue,
            (ctx.cluster matches Some(n) && ctx.upstream matches Some(u)
                && last_named(old(self).clusters@, n@) >= 0) ==> ({
                let k = last_named(old(self).clusters@, ctx.cluster->0@);
                &&& only_strategy_changed(old(self).clusters@, final(self).clusters@, k)
                &&& old(self).clusters@[k].strategy.release_step(final(self).clusters@[k].strategy, ctx.upstream->0.address@)
            }),
            !(ctx.cluster matches Some(n) && ctx.upstream matches Some(u)
                && last_named(old(self).clusters@, n@) >= 0) ==> *final(self) == *old(self),
    {
        match (&ctx.cluster, &ctx.upstream) {
            (Some(n), Some(u)) => {
                match self.find(n.as_str()) {
                    Some(k) => {
                        let ghost before = self.clusters@;
                        assert(before[k as int].strategy.wf());
                        let mut e = self.clusters.remove(k);
                        assert(e == before[k as int]);
                        e.strategy.release(u.address.as_str());
                        self.clusters.insert(k, e);
                        proof {
                            assert forall|j: int| 0 <= j < before.len() && j != k implies self.clusters@[j] == before[j] by {
                                if j < k {
                                    assert(self.clusters@[j] == before.remove(k as int)[j]);
                                } else {
                                    assert(self.clusters@[j] == before.remove(k as int)[j - 1]);
                                }
                            }
                            assert forall|j: int| 0 <= j < self.clusters@.len() implies (#[trigger] self.clusters@[j]).strategy.wf() by {
                                if j != k {
                                    assert(before[j].strategy.wf());
                                }
                            }
                        }
                    },
                    None => {},
                }
            },
            _ => {},
        }
        FilterAction::Continue
    }
}

} // verus!
