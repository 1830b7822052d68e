//! Filter pipeline: the ordered chain of filters with their conditions,
//! aggregate body capabilities, and configuration warnings.

use vstd::prelude::*;
use crate::body::{BodyAccess, BodyCapabilities, BodyMode};
use crate::actions::FilterAction;
use crate::condition::{Condition, ResponseCondition};
use crate::context::FilterError;
use crate::registry::{FilterFactory, FilterRegistry, UnknownFilter};
use crate::text::{decimal, push_decimal, push_str, str_eq};

verus! {

/// The protocol level a filter operates at.
#[derive(Debug, Clone, Copy, PartialEq, Eq, Structural)]
pub enum ProtocolKind {
    /// HTTP request/response processing.
    Http,
    /// TCP connection processing.
    Tcp,
}

/// What the pipeline reads of a filter: its name, protocol level and
/// body-access declarations.
#[derive(Debug)]
pub struct FilterProfile {
    /// Filter type name, e.g. `"router"`.
    pub name: String,
    /// Protocol level.
    pub protocol: ProtocolKind,
    /// Access needed to request bodies.
    pub request_body_access: BodyAccess,
    /// Access needed to response bodies.
    pub response_body_access: BodyAccess,
    /// Delivery mode for request body chunks.
    pub request_body_mode: BodyMode,
    /// Delivery mode for response body chunks.
    pub response_body_mode: BodyMode,
    /// Whether the filter needs the request context during body phases.
    pub needs_request_context: bool,
}

impl FilterProfile {
    /// An HTTP filter with default body declarations (no access, stream mode).
    pub fn http(name: &str) -> (r: Self)
        ensures
            r.name@ == name@,
            r.protocol == ProtocolKind::Http,
            r.request_body_access == BodyAccess::NoAccess,
            r.response_body_access == BodyAccess::NoAccess,
            r.request_body_mode == BodyMode::Stream,
            r.response_body_mode == BodyMode::Stream,
            !r.needs_request_context,
    {
        FilterProfile {
            name: name.to_owned(),
            protocol: ProtocolKind::Http,
            request_body_access: BodyAccess::NoAccess,
            response_body_access: BodyAccess::NoAccess,
            request_body_mode: BodyMode::Stream,
            response_body_mode: BodyMode::Stream,
            needs_request_context: false,
        }
    }

    /// A TCP filter.
    pub fn tcp(name: &str) -> (r: Self)
        ensures
            r.name@ == name@,
            r.protocol == ProtocolKind::Tcp,
            r.request_body_access == BodyAccess::NoAccess,
            r.response_body_access == BodyAccess::NoAccess,
            r.request_body_mode == BodyMode::Stream,
            r.response_body_mode == BodyMode::Stream,
            !r.needs_request_context,
    {
        FilterProfile {
            name: name.to_owned(),
            protocol: ProtocolKind::Tcp,
            request_body_access: BodyAccess::NoAccess,
            response_body_access: BodyAccess::NoAccess,
            request_body_mode: BodyMode::Stream,
            response_body_mode: BodyMode::Stream,
            needs_request_context: false,
        }
    }
}

/// `p` is the profile of an HTTP filter named `name` that declares no
/// body access and does not need the request context in body phases.
pub open spec fn plain_http_profile(p: FilterProfile, name: Seq<char>) -> bool {
    &&& p.name@ == name
    &&& p.protocol == ProtocolKind::Http
    &&& p.request_body_access == BodyAccess::NoAccess
    &&& p.response_body_access == BodyAccess::NoAccess
    &&& p.request_body_mode == BodyMode::Stream
    &&& p.response_body_mode == BodyMode::Stream
    &&& !p.needs_request_context
}

/// `p` is the profile of a TCP filter named `name`.
pub open spec fn plain_tcp_profile(p: FilterProfile, name: Seq<char>) -> bool {
    &&& p.name@ == name
    &&& p.protocol == ProtocolKind::Tcp
    &&& p.request_body_access == BodyAccess::NoAccess
    &&& p.response_body_access == BodyAccess::NoAccess
    &&& p.request_body_mode == BodyMode::Stream
    &&& p.response_body_mode == BodyMode::Stream
    &&& !p.needs_request_context
}

/// A pipeline entry as configured: the filter type and its conditions
/// (the filter's own settings travel separately to its factory).
#[derive(Debug)]
pub struct FilterEntry {
    /// Conditions gating the request phase.
    pub conditions: Vec<Condition>,
    /// Registered filter type name.
    pub filter_type: String,
    /// Conditions gating the response phase.
    pub response_conditions: Vec<ResponseCondition>,
}

impl FilterEntry {
    /// An entry for `filter_type` with the given conditions.
    pub fn new(filter_type: &str, conditions: Vec<Condition>, response_conditions: Vec<ResponseCondition>) -> (r: Self)
        ensures
            r.filter_type@ == filter_type@,
            r.conditions@ == conditions@,
            r.response_conditions@ == response_conditions@,
    {
        FilterEntry { conditions, filter_type: filter_type.to_owned(), response_conditions }
    }
}

/// A filter paired with its request-phase and response-phase conditions.
#[derive(Debug)]
pub struct PipelineFilter {
    /// The filter's profile.
    pub filter: FilterProfile,
    /// Conditions gating the request phase.
    pub conditions: Vec<Condition>,
    /// Conditions gating the response phase.
    pub response_conditions: Vec<ResponseCondition>,
}

// ---------------------------------------------------------------------------
// Body capability computation
// ---------------------------------------------------------------------------

/// The smaller of two limits.
pub open spec fn min_usize(a: usize, b: usize) -> usize {
    if a <= b { a } else { b }
}

/// Merge two optional size limits, keeping the smallest `Some` value.
pub open spec fn merge_limits(a: Option<usize>, b: Option<usize>) -> Option<usize> {
    match (a, b) {
        (Some(x), Some(y)) => Some(min_usize(x, y)),
        (Some(x), None) => Some(x),
        (None, Some(y)) => Some(y),
        (None, None) => None,
    }
}

/// Merge two optional size limits, keeping the smallest `Some` value.
pub fn merge_optional_limits(a: Option<usize>, b: Option<usize>) -> (r: Option<usize>)
    ensures
        r == merge_limits(a, b),
{
    match (a, b) {
        (Some(x), Some(y)) => Some(if x <= y { x } else { y }),
        (Some(x), None) => Some(x),
        (None, Some(y)) => Some(y),
        (None, None) => None,
    }
}

/// The resolved mode after a filter declaring `m` joins a pipeline whose
/// mode so far is `cur`: buffering dominates stream-buffering, which
/// dominates streaming; limits of the same kind combine to the smallest.
pub open spec fn mode_step(cur: BodyMode, m: BodyMode) -> BodyMode {
    match m {
        BodyMode::Buffer { max_bytes } => match cur {
            BodyMode::Buffer { max_bytes: existing } => BodyMode::Buffer { max_bytes: min_usize(existing, max_bytes) },
            _ => BodyMode::Buffer { max_bytes },
        },
        BodyMode::StreamBuffer { max_bytes } => match cur {
            BodyMode::Stream => BodyMode::StreamBuffer { max_bytes },
            BodyMode::StreamBuffer { max_bytes: existing } => BodyMode::StreamBuffer {
                max_bytes: merge_limits(existing, max_bytes),
            },
            BodyMode::Buffer { .. } => cur,
        },
        BodyMode::Stream => cur,
    }
}

/// The capabilities after folding one more filter in.
pub open spec fn caps_step(c: BodyCapabilities, f: FilterProfile) -> BodyCapabilities {
    if f.protocol == ProtocolKind::Tcp {
        c
    } else {
        let req = f.request_body_access != BodyAccess::NoAccess;
        let resp = f.response_body_access != BodyAccess::NoAccess;
        BodyCapabilities {
            needs_request_body: c.needs_request_body || req,
            any_request_body_writer: c.any_request_body_writer || (req && f.request_body_access
                == BodyAccess::ReadWrite),
            request_body_mode: if req {
                mode_step(c.request_body_mode, f.request_body_mode)
            } else {
                c.request_body_mode
            },
            needs_response_body: c.needs_response_body || resp,
            any_response_body_writer: c.any_response_body_writer || (resp
                && f.response_body_access == BodyAccess::ReadWrite),
            response_body_mode: if resp {
                mode_step(c.response_body_mode, f.response_body_mode)
            } else {
                c.response_body_mode
            },
            needs_request_context: c.needs_request_context || f.needs_request_context,
        }
    }
}

/// The capabilities of a sequence of filters, folded in pipeline order.
pub open spec fn caps_of(fs: Seq<FilterProfile>) -> BodyCapabilities
    decreases fs.len(),
{
    if fs.len() == 0 {
        BodyCapabilities::none()
    } else {
        caps_step(caps_of(fs.drop_last()), fs.last())
    }
}

/// The profiles of a sequence of pipeline filters.
pub open spec fn profiles(fs: Seq<PipelineFilter>) -> Seq<FilterProfile> {
    fs.map_values(|p: PipelineFilter| p.filter)
}

fn merge_mode(cur: BodyMode, m: BodyMode) -> (r: BodyMode)
    ensures
        r == mode_step(cur, m),
{
    match m {
        BodyMode::Buffer { max_bytes } => match cur {
            BodyMode::Buffer { max_bytes: existing } => BodyMode::Buffer {
                max_bytes: if existing <= max_bytes { existing } else { max_bytes },
            },
            _ => BodyMode::Buffer { max_bytes },
        },
        BodyMode::StreamBuffer { max_bytes } => match cur {
            BodyMode::Stream => BodyMode::StreamBuffer { max_bytes },
            BodyMode::StreamBuffer { max_bytes: existing } => BodyMode::StreamBuffer {
                max_bytes: merge_optional_limits(existing, max_bytes),
            },
            BodyMode::Buffer { .. } => cur,
        },
        BodyMode::Stream => cur,
    }
}

/// Merge all filters' body access declarations into a single capability set.
pub fn compute_body_capabilities(filters: &[PipelineFilter]) -> (r: BodyCapabilities)
    ensures
        r == caps_of(profiles(filters@)),
{
    let mut caps = BodyCapabilities::default();
    let mut i: usize = 0;
    while i < filters.len()
        invariant
            i <= filters@.len(),
            caps == caps_of(profiles(filters@.subrange(0, i as int))),
        decreases filters@.len() - i,
    {
        let f = &filters[i].filter;
        proof {
            assert(profiles(filters@.subrange(0, i + 1)).drop_last() =~= profiles(
                filters@.subrange(0, i as int),
            ));
            assert(profiles(filters@.subrange(0, i + 1)).last() == *f);
        }
        if f.protocol == ProtocolKind::Http {
            let req_access = f.request_body_access;
            let resp_access = f.response_body_access;
            if req_access != BodyAccess::NoAccess {
                caps.needs_request_body = true;
                if req_access == BodyAccess::ReadWrite {
                    caps.any_request_body_writer = true;
                }
                caps.request_body_mode = merge_mode(caps.request_body_mode, f.request_body_mode);
            }
            if resp_access != BodyAccess::NoAccess {
                caps.needs_response_body = true;
                if resp_access == BodyAccess::ReadWrite {
                    caps.any_response_body_writer = true;
                }
                caps.response_body_mode = merge_mode(caps.response_body_mode, f.response_body_mode);
            }
            if f.needs_request_context {
                caps.needs_request_context = true;
            }
        }
        i = i + 1;
    }
    assert(filters@.subrange(0, filters@.len() as int) =~= filters@);
    caps
}

/// The mode after a global hard ceiling is applied: existing limits are
/// capped, and streaming is forced to buffer so the size can be counted.
pub open spec fn ceiling_mode(m: BodyMode, ceiling: usize) -> BodyMode {
    match m {
        BodyMode::Buffer { max_bytes } => BodyMode::Buffer { max_bytes: min_usize(max_bytes, ceiling) },
        BodyMode::StreamBuffer { max_bytes } => BodyMode::StreamBuffer {
            max_bytes: Some(
                match max_bytes {
                    Some(x) => min_usize(x, ceiling),
                    None => ceiling,
                },
            ),
        },
        BodyMode::Stream => BodyMode::Buffer { max_bytes: ceiling },
    }
}

/// Apply a global hard ceiling to a resolved body mode.
pub fn apply_ceiling(m: BodyMode, ceiling: usize) -> (r: BodyMode)
    ensures
        r == ceiling_mode(m, ceiling),
{
    match m {
        BodyMode::Buffer { max_bytes } => BodyMode::Buffer {
            max_bytes: if max_bytes <= ceiling { max_bytes } else { ceiling },
        },
        BodyMode::StreamBuffer { max_bytes } => BodyMode::StreamBuffer {
            max_bytes: Some(
                match max_bytes {
                    Some(x) => if x <= ceiling { x } else { ceiling },
                    None => ceiling,
                },
            ),
        },
        BodyMode::Stream => BodyMode::Buffer { max_bytes: ceiling },
    }
}

// ---------------------------------------------------------------------------
// FilterPipeline
// ---------------------------------------------------------------------------

/// Why building a pipeline from its entries stopped.
#[derive(Debug)]
pub enum BuildFailure<E> {
    /// An entry names a filter type that is not registered.
    UnknownType(UnknownFilter),
    /// A filter could not be made from its entry's settings.
    Instantiate(E),
}

/// Every entry before position `k` names a registered type whose filter
/// was made.
pub open spec fn built_before<T, E, F: Fn(usize, FilterFactory) -> Result<(T, FilterProfile), E>>(
    entries: Seq<FilterEntry>,
    registry: &FilterRegistry,
    instantiate: F,
    k: int,
) -> bool {
    forall|j: int| 0 <= j < k ==> {
        &&& #[trigger] registry.factory(entries[j].filter_type@) is Some
        &&& exists|o: (T, FilterProfile)| call_ensures(
            instantiate,
            (j as usize, registry.factory(entries[j].filter_type@)->0),
            Ok(o),
        )
    }
}

/// An ordered list of filters executed on every request, with the body
/// capabilities of the pipeline.
#[derive(Debug)]
pub struct FilterPipeline {
    body_capabilities: BodyCapabilities,
    filters: Vec<PipelineFilter>,
}

impl FilterPipeline {
    /// The filters, in pipeline order.
    pub closed spec fn filters(&self) -> Seq<PipelineFilter> {
        self.filters@
    }

    /// The pre-computed body capabilities.
    pub closed spec fn caps(&self) -> BodyCapabilities {
        self.body_capabilities
    }

    /// Build a pipeline from filters already instantiated via the registry,
    /// computing its body capabilities.
    pub fn build(filters: Vec<PipelineFilter>) -> (r: Self)
        ensures
            r.filters() == filters@,
            r.caps() == caps_of(profiles(filters@)),
    {
        let body_capabilities = compute_body_capabilities(filters.as_slice());
        FilterPipeline { body_capabilities, filters }
    }

    /// Build a pipeline from its configured entries: each entry's filter
    /// type is looked up in the registry and its factory handed, with the
    /// entry's position, to `instantiate`, which makes the filter from the
    /// entry's settings and reports its profile. The first entry whose type
    /// is unknown, or whose instantiation fails, ends the build; later
    /// entries are not looked at.
    pub fn build_from_entries<T, E, F>(entries: Vec<FilterEntry>, registry: &FilterRegistry, instantiate: F) -> (r: Result<
        (FilterPipeline, Vec<T>),
        BuildFailure<E>,
    >) where F: Fn(usize, FilterFactory) -> Result<(T, FilterProfile), E>
        requires
            registry.wf(),
            forall|i: usize, f: FilterFactory| call_requires(instantiate, (i, f)),
        ensures
            r matches Ok((p, made)) ==> {
                &&& p.filters().len() == entries@.len()
                &&& made@.len() == entries@.len()
                &&& p.caps() == caps_of(profiles(p.filters()))
                &&& forall|i: int| 0 <= i < entries@.len() ==> {
                    &&& #[trigger] registry.factory(entries@[i].filter_type@) is Some
                    &&& call_ensures(
                        instantiate,
                        (i as usize, registry.factory(entries@[i].filter_type@)->0),
                        Ok((made@[i], p.filters()[i].filter)),
                    )
                    &&& p.filters()[i].conditions@ == entries@[i].conditions@
                    &&& p.filters()[i].response_conditions@ == entries@[i].response_conditions@
                }
            },
            r matches Err(BuildFailure::UnknownType(e)) ==> exists|k: int| {
                &&& 0 <= k < entries@.len()
                &&& (#[trigger] entries@[k]).filter_type@ == e.name@
                &&& registry.factory(entries@[k].filter_type@) is None
                &&& built_before(entries@, registry, instantiate, k)
            },
            r matches Err(BuildFailure::Instantiate(e)) ==> exists|k: int| {
                &&& 0 <= k < entries@.len()
                &&& registry.factory((#[trigger] entries@[k]).filter_type@) is Some
                &&& call_ensures(instantiate, (k as usize, registry.factory(entries@[k].filter_type@)->0), Err(e))
                &&& built_before(entries@, registry, instantiate, k)
            },
            (forall|i: int| 0 <= i < entries@.len() ==> (#[trigger] registry.factory(entries@[i].filter_type@)) is Some)
                && (forall|i: usize, f: FilterFactory, o: Result<(T, FilterProfile), E>| call_ensures(instantiate, (i, f), o) ==> o is Ok)
                ==> r is Ok,
    {
        let ghost orig = entries@;
        let n = entries.len();
        let mut rest = entries;
        let mut planned: Vec<PipelineFilter> = Vec::new();
        let mut made: Vec<T> = Vec::new();
        let mut i: usize = 0;
        while rest.len() > 0
            invariant
                registry.wf(),
                forall|i: usize, f: FilterFactory| call_requires(instantiate, (i, f)),
                orig == entries@,
                n == orig.len(),
                i <= orig.len(),
                rest@ == orig.subrange(i as int, orig.len() as int),
                planned@.len() == i,
                made@.len() == i,
                built_before(orig, registry, instantiate, i as int),
                forall|j: int| 0 <= j < i ==> {
                    &&& #[trigger] registry.factory(orig[j].filter_type@) is Some
                    &&& call_ensures(
                        instantiate,
                        (j as usize, registry.factory(orig[j].filter_type@)->0),
                        Ok((made@[j], planned@[j].filter)),
                    )
                    &&& planned@[j].conditions@ == orig[j].conditions@
                    &&& planned@[j].response_conditions@ == orig[j].response_conditions@
                },
            decreases rest.len(),
        {
            assert(rest@.len() == n - i);
            let entry = rest.remove(0);
            assert(entry == orig[i as int]);
            let factory = match registry.create(entry.filter_type.as_str()) {
                Ok(f) => f,
                Err(e) => {
                    assert(registry.factory(orig[i as int].filter_type@) is None);
                    assert(orig[i as int].filter_type@ == e.name@);
                    return Err(BuildFailure::UnknownType(e));
                },
            };
            match instantiate(i, factory) {
                Ok((t, profile)) => {
                    let FilterEntry { conditions, filter_type: _, response_conditions } = entry;
                    planned.push(PipelineFilter { filter: profile, conditions, response_conditions });
                    made.push(t);
                    proof {
                        assert forall|j: int| 0 <= j < i + 1 implies {
                            &&& #[trigger] registry.factory(orig[j].filter_type@) is Some
                            &&& exists|o: (T, FilterProfile)| call_ensures(
                                instantiate,
                                (j as usize, registry.factory(orig[j].filter_type@)->0),
                                Ok(o),
                            )
                        } by {
                            assert(call_ensures(
                                instantiate,
                                (j as usize, registry.factory(orig[j].filter_type@)->0),
                                Ok((made@[j], planned@[j].filter)),
                            ));
                        }
                    }
                },
                Err(e) => {
                    assert(registry.factory(orig[i as int].filter_type@) is Some);
                    return Err(BuildFailure::Instantiate(e));
                },
            }
            i = i + 1;
            assert(rest@ =~= orig.subrange(i as int, orig.len() as int));
        }
        assert(i == orig.len());
        let pipeline = FilterPipeline::build(planned);
        Ok((pipeline, made))
    }

    /// Apply the global body-size ceilings from the proxy configuration.
    /// A ceiling caps any per-filter limit and forces buffering (for size
    /// counting) even when no filter asked for body access.
    pub fn apply_body_limits(&mut self, max_request_body_bytes: Option<usize>, max_response_body_bytes: Option<usize>)
        ensures
            final(self).filters() == old(self).filters(),
            final(self).caps() == ({
                let c = old(self).caps();
                let c1 = match max_request_body_bytes {
                    Some(ceiling) => BodyCapabilities {
                        request_body_mode: ceiling_mode(c.request_body_mode, ceiling),
                        needs_request_body: true,
                        ..c
                    },
                    None => c,
                };
                match max_response_body_bytes {
                    Some(ceiling) => BodyCapabilities {
                        response_body_mode: ceiling_mode(c1.response_body_mode, ceiling),
                        needs_response_body: true,
                        ..c1
                    },
                    None => c1,
                }
            }),
    {
        if let Some(ceiling) = max_request_body_bytes {
            self.body_capabilities.request_body_mode = apply_ceiling(self.body_capabilities.request_body_mode, ceiling);
            self.body_capabilities.needs_request_body = true;
        }
        if let Some(ceiling) = max_response_body_bytes {
            self.body_capabilities.response_body_mode = apply_ceiling(self.body_capabilities.response_body_mode, ceiling);
            self.body_capabilities.needs_response_body = true;
        }
    }

    /// Pre-computed body processing capabilities for this pipeline.
    pub fn body_capabilities(&self) -> (r: &BodyCapabilities)
        ensures
            *r == self.caps(),
    {
        &self.body_capabilities
    }

    /// Whether any filter in the pipeline needs body access.
    pub fn needs_body_filters(&self) -> (r: bool)
        ensures
            r == (self.caps().needs_request_body || self.caps().needs_response_body),
    {
        self.body_capabilities.needs_request_body || self.body_capabilities.needs_response_body
    }

    /// Number of filters in the pipeline.
    pub fn len(&self) -> (r: usize)
        ensures
            r == self.filters().len(),
    {
        self.filters.len()
    }

    /// Whether the pipeline has no filters.
    pub fn is_empty(&self) -> (r: bool)
        ensures
            r == (self.filters().len() == 0),
    {
        self.filters.len() == 0
    }

    /// The `i`-th filter with its conditions.
    pub fn filter(&self, i: usize) -> (r: &PipelineFilter)
        requires
            i < self.filters().len(),
        ensures
            *r == self.filters()[i as int],
    {
        &self.filters[i]
    }
}


// ---------------------------------------------------------------------------
// TCP phase scheduling
// ---------------------------------------------------------------------------

/// Whether the `i`-th filter of `fs` is a TCP filter.
pub open spec fn is_tcp_at(fs: Seq<PipelineFilter>, i: int) -> bool {
    fs[i].filter.protocol == ProtocolKind::Tcp
}

/// What a connect-phase filter's outcome means for the rest of the phase:
/// `None` to go on with the next TCP filter; otherwise the phase's result.
pub fn connect_outcome(outcome: Result<FilterAction, FilterError>) -> (r: Option<Result<FilterAction, FilterError>>)
    ensures
        outcome matches Ok(a) && (a is Continue || a is Release) ==> r is None,
        outcome matches Ok(FilterAction::Reject(rej)) ==> r == Some(Ok::<FilterAction, FilterError>(FilterAction::Reject(rej))),
        outcome matches Err(e) ==> r == Some(Err::<FilterAction, FilterError>(e)),
{
    match outcome {
        Ok(FilterAction::Continue) => None,
        Ok(FilterAction::Release) => None,
        Ok(FilterAction::Reject(rej)) => Some(Ok(FilterAction::Reject(rej))),
        Err(e) => Some(Err(e)),
    }
}

impl FilterPipeline {
    /// The first TCP filter at or after position `from`; connect runs the
    /// TCP filters front to back.
    pub fn next_tcp_filter(&self, from: usize) -> (r: Option<usize>)
        ensures
            r matches Some(k) ==> from <= k < self.filters().len() && is_tcp_at(self.filters(), k as int)
                && forall|j: int| from <= j < k ==> !is_tcp_at(self.filters(), j),
            r is None ==> forall|j: int| from <= j < self.filters().len() ==> !is_tcp_at(self.filters(), j),
    {
        let mut i = from;
        while i < self.filters.len()
            invariant
                from <= i,
                forall|j: int| from <= j < i ==> !is_tcp_at(self.filters@, j),
            decreases self.filters@.len() - i,
        {
            if self.filters[i].filter.protocol == ProtocolKind::Tcp {
                return Some(i);
            }
            i = i + 1;
        }
        None
    }

    /// The last TCP filter before position `before`; disconnect runs the TCP
    /// filters back to front.
    pub fn prev_tcp_filter(&self, before: usize) -> (r: Option<usize>)
        ensures
            r matches Some(k) ==> k < before && k < self.filters().len() && is_tcp_at(self.filters(), k as int)
                && forall|j: int| k < j < before && j < self.filters().len() ==> !is_tcp_at(self.filters(), j),
            r is None ==> forall|j: int| 0 <= j < before && j < self.filters().len() ==> !is_tcp_at(self.filters(), j),
    {
        let mut i = if before < self.filters.len() { before } else { self.filters.len() };
        while i > 0
            invariant
                i <= before,
                i <= self.filters@.len(),
                forall|j: int| i <= j < before && j < self.filters@.len() ==> !is_tcp_at(self.filters@, j),
            decreases i,
        {
            if self.filters[i - 1].filter.protocol == ProtocolKind::Tcp {
                return Some(i - 1);
            }
            i = i - 1;
        }
        None
    }
}

// ---------------------------------------------------------------------------
// Ordering warnings
// ---------------------------------------------------------------------------

/// The names of a sequence of pipeline filters.
pub open spec fn names_of(fs: Seq<PipelineFilter>) -> Seq<Seq<char>> {
    fs.map_values(|p: PipelineFilter| p.filter.name@)
}

/// `parts` joined with `sep` between consecutive elements.
pub open spec fn join(parts: Seq<Seq<char>>, sep: Seq<char>) -> Seq<char>
    decreases parts.len(),
{
    if parts.len() == 0 {
        Seq::empty()
    } else if parts.len() == 1 {
        parts[0]
    } else {
        join(parts.drop_last(), sep) + sep + parts.last()
    }
}

/// The number of names among the first `n` that equal `name`.
pub open spec fn count_upto(names: Seq<Seq<char>>, name: Seq<char>, n: int) -> nat
    decreases n,
{
    if n <= 0 {
        0
    } else {
        count_upto(names, name, n - 1) + if names[n - 1] == name { 1nat } else { 0nat }
    }
}

/// The warning for a load balancer with no router before it.
pub open spec fn lb_without_router_message() -> Seq<char> {
    "load_balancer without a preceding router filter; requests will fail with 'no cluster selected'"@
}

/// The warning for an unconditional static response that shadows later filters.
pub open spec fn static_message(i: nat, rest: Seq<Seq<char>>) -> Seq<char> {
    "unconditional static_response at position "@ + decimal(i)
        + " makes subsequent filters unreachable: "@ + join(rest, ", "@)
}

/// The warning for a security filter gated by request conditions.
pub open spec fn security_message(name: Seq<char>, i: nat) -> Seq<char> {
    "security filter '"@ + name + "' at position "@ + decimal(i)
        + " has request conditions; it will be bypassed for non-matching requests"@
}

/// The warning for more than one router.
pub open spec fn router_dup_message(n: nat) -> Seq<char> {
    "multiple router filters in chain ("@ + decimal(n)
        + "); only the last one's cluster selection will take effect"@
}

/// The warning for more than one load balancer.
pub open spec fn lb_dup_message(n: nat) -> Seq<char> {
    "multiple load_balancer filters in chain ("@ + decimal(n)
        + "); only the last one's upstream selection will take effect"@
}

/// Whether `name` is one of the security-class filters.
pub open spec fn is_security(name: Seq<char>) -> bool {
    name == "ip_acl"@ || name == "forwarded_headers"@
}

/// Static-response warnings for the first `n` filters.
pub open spec fn static_warnings(fs: Seq<PipelineFilter>, n: int) -> Seq<Seq<char>>
    decreases n,
{
    if n <= 0 {
        Seq::empty()
    } else {
        let prev = static_warnings(fs, n - 1);
        let i = n - 1;
        let names = names_of(fs);
        if names[i] == "static_response"@ && i + 1 < fs.len() && fs[i].conditions@.len() == 0 {
            prev.push(static_message(i as nat, names.subrange(i + 1, fs.len() as int)))
        } else {
            prev
        }
    }
}

/// Security-filter warnings for the first `n` filters.
pub open spec fn security_warnings(fs: Seq<PipelineFilter>, n: int) -> Seq<Seq<char>>
    decreases n,
{
    if n <= 0 {
        Seq::empty()
    } else {
        let prev = security_warnings(fs, n - 1);
        let i = n - 1;
        let names = names_of(fs);
        if is_security(names[i]) && fs[i].conditions@.len() != 0 {
            prev.push(security_message(names[i], i as nat))
        } else {
            prev
        }
    }
}

/// The warning (if any) for the first load balancer lacking an earlier router.
pub open spec fn lb_warning(names: Seq<Seq<char>>) -> Seq<Seq<char>> {
    if exists|p: int| 0 <= p < names.len() && names[p] == "load_balancer"@ {
        let p = choose|p: int|
            0 <= p < names.len() && names[p] == "load_balancer"@ && forall|q: int|
                0 <= q < p ==> names[q] != "load_balancer"@;
        if names.subrange(0, p).contains("router"@) {
            Seq::empty()
        } else {
            seq![lb_without_router_message()]
        }
    } else {
        Seq::empty()
    }
}

/// All ordering warnings, in the order they are reported.
pub open spec fn ordering_warnings_of(fs: Seq<PipelineFilter>) -> Seq<Seq<char>> {
    let names = names_of(fs);
    let routers = count_upto(names, "router"@, names.len() as int);
    let lbs = count_upto(names, "load_balancer"@, names.len() as int);
    lb_warning(names) + static_warnings(fs, fs.len() as int) + security_warnings(fs, fs.len() as int)
        + (if routers > 1 { seq![router_dup_message(routers)] } else { Seq::empty() })
        + (if lbs > 1 { seq![lb_dup_message(lbs)] } else { Seq::empty() })
}

/// The first position holding `name`, if any.
fn position_of(fs: &Vec<PipelineFilter>, name: &str) -> (r: Option<usize>)
    ensures
        r matches Some(p) ==> p < fs@.len() && names_of(fs@)[p as int] == name@ && forall|q: int|
            0 <= q < p ==> names_of(fs@)[q] != name@,
        r is None ==> forall|q: int| 0 <= q < fs@.len() ==> names_of(fs@)[q] != name@,
{
    let mut i: usize = 0;
    while i < fs.len()
        invariant
            i <= fs@.len(),
            forall|q: int| 0 <= q < i ==> names_of(fs@)[q] != name@,
        decreases fs@.len() - i,
    {
        if str_eq(fs[i].filter.name.as_str(), name) {
            return Some(i);
        }
        i = i + 1;
    }
    None
}

/// Count the filters named `name`.
fn count_named(fs: &Vec<PipelineFilter>, name: &str) -> (r: usize)
    ensures
        r == count_upto(names_of(fs@), name@, fs@.len() as int),
{
    let mut i: usize = 0;
    let mut n: usize = 0;
    while i < fs.len()
        invariant
            i <= fs@.len(),
            n == count_upto(names_of(fs@), name@, i as int),
            n <= i,
        decreases fs@.len() - i,
    {
        if str_eq(fs[i].filter.name.as_str(), name) {
            n = n + 1;
        }
        i = i + 1;
    }
    n
}

/// Join the names of filters `from..` with `", "`.
fn join_names_from(fs: &Vec<PipelineFilter>, from: usize) -> (r: String)
    requires
        from <= fs@.len(),
    ensures
        r@ == join(names_of(fs@).subrange(from as int, fs@.len() as int), ", "@),
{
    let ghost names = names_of(fs@);
    let mut out = String::new();
    let mut i: usize = from;
    while i < fs.len()
        invariant
            from <= i <= fs@.len(),
            names == names_of(fs@),
            out@ == join(names.subrange(from as int, i as int), ", "@),
        decreases fs@.len() - i,
    {
        proof {
            assert(names.subrange(from as int, i + 1).drop_last() =~= names.subrange(from as int, i as int));
            assert(names.subrange(from as int, i + 1).last() == fs@[i as int].filter.name@);
        }
        if i > from {
            push_str(&mut out, ", ");
        } else {
            assert(names.subrange(from as int, i + 1) =~= seq![fs@[i as int].filter.name@]);
        }
        push_str(&mut out, fs[i].filter.name.as_str());
        i = i + 1;
    }
    out
}

impl FilterPipeline {
    /// Check for common filter ordering issues and return warning
    /// messages. Does not prevent startup.
    pub fn ordering_warnings(&self) -> (r: Vec<String>)
        ensures
            r@.map_values(|s: String| s@) == ordering_warnings_of(self.filters()),
    {
        let fs = &self.filters;
        let ghost names = names_of(fs@);
        let mut warnings: Vec<String> = Vec::new();

        match position_of(fs, "load_balancer") {
            Some(lb_pos) => {
                let has_router_before = match position_of(fs, "router") {
                    Some(rp) => rp < lb_pos,
                    None => false,
                };
                proof {
                    let p = choose|p: int|
                        0 <= p < names.len() && names[p] == "load_balancer"@ && forall|q: int|
                            0 <= q < p ==> names[q] != "load_balancer"@;
                    assert(p == lb_pos as int) by {
                        if p < lb_pos {
                        } else if p > lb_pos {
                        }
                    }
                    if has_router_before {
                        let rp = choose|rp: int| 0 <= rp < lb_pos && names[rp] == "router"@;
                        assert(names.subrange(0, p)[rp] == "router"@);
                    } else {
                        assert forall|q: int| 0 <= q < p implies names.subrange(0, p)[q] != "router"@ by {
                            assert(names.subrange(0, p)[q] == names[q]);
                        }
                    }
                }
                if !has_router_before {
                    let mut w = String::new();
                    push_str(&mut w, "load_balancer without a preceding router filter; requests will fail with 'no cluster selected'");
                    warnings.push(w);
                }
            },
            None => {},
        }
        assert(warnings@.map_values(|s: String| s@) =~= lb_warning(names));

        let ghost base1 = warnings@.map_values(|s: String| s@);
        let mut i: usize = 0;
        while i < fs.len()
            invariant
                i <= fs@.len(),
                names == names_of(fs@),
                fs@ == self.filters(),
                warnings@.map_values(|s: String| s@) == base1 + static_warnings(fs@, i as int),
            decreases fs@.len() - i,
        {
            if str_eq(fs[i].filter.name.as_str(), "static_response") && i + 1 < fs.len()
                && fs[i].conditions.len() == 0 {
                let mut w = String::new();
                push_str(&mut w, "unconditional static_response at position ");
                push_decimal(&mut w, i as u64);
                push_str(&mut w, " makes subsequent filters unreachable: ");
                let rest = join_names_from(fs, i + 1);
                push_str(&mut w, rest.as_str());
                let ghost before = warnings@.map_values(|s: String| s@);
                warnings.push(w);
                assert(warnings@.map_values(|s: String| s@) =~= before.push(w@));
            }
            i = i + 1;
        }

        let ghost base2 = warnings@.map_values(|s: String| s@);
        let mut i: usize = 0;
        while i < fs.len()
            invariant
                i <= fs@.len(),
                names == names_of(fs@),
                fs@ == self.filters(),
                warnings@.map_values(|s: String| s@) == base2 + security_warnings(fs@, i as int),
            decreases fs@.len() - i,
        {
            let name = fs[i].filter.name.as_str();
            if (str_eq(name, "ip_acl") || str_eq(name, "forwarded_headers")) && fs[i].conditions.len() != 0 {
                let mut w = String::new();
                push_str(&mut w, "security filter '");
                push_str(&mut w, name);
                push_str(&mut w, "' at position ");
                push_decimal(&mut w, i as u64);
                push_str(&mut w, " has request conditions; it will be bypassed for non-matching requests");
                let ghost before = warnings@.map_values(|s: String| s@);
                warnings.push(w);
                assert(warnings@.map_values(|s: String| s@) =~= before.push(w@));
            }
            i = i + 1;
        }

        let ghost base3 = warnings@.map_values(|s: String| s@);
        let router_count = count_named(fs, "router");
        if router_count > 1 {
            let mut w = String::new();
            push_str(&mut w, "multiple router filters in chain (");
            push_decimal(&mut w, router_count as u64);
            push_str(&mut w, "); only the last one's cluster selection will take effect");
            warnings.push(w);
            assert(warnings@.map_values(|s: String| s@) =~= base3.push(w@));
        } else {
            assert(warnings@.map_values(|s: String| s@) =~= base3);
        }
        let ghost base4 = warnings@.map_values(|s: String| s@);
        let lb_count = count_named(fs, "load_balancer");
        if lb_count > 1 {
            let mut w = String::new();
            push_str(&mut w, "multiple load_balancer filters in chain (");
            push_decimal(&mut w, lb_count as u64);
            push_str(&mut w, "); only the last one's upstream selection will take effect");
            warnings.push(w);
            assert(warnings@.map_values(|s: String| s@) =~= base4.push(w@));
        } else {
            assert(warnings@.map_values(|s: String| s@) =~= base4);
        }
        warnings
    }
}


// ---------------------------------------------------------------------------
// Laws
// ---------------------------------------------------------------------------

/// Merging limits is commutative.
pub proof fn merge_limits_commutative(a: Option<usize>, b: Option<usize>)
    ensures
        merge_limits(a, b) == merge_limits(b, a),
{
}

/// Merging limits is associative.
pub proof fn merge_limits_associative(a: Option<usize>, b: Option<usize>, c: Option<usize>)
    ensures
        merge_limits(merge_limits(a, b), c) == merge_limits(a, merge_limits(b, c)),
{
}

/// The resolved body mode does not depend on the order in which two
/// filters' declared modes are folded in.
pub proof fn mode_step_order_independent(cur: BodyMode, a: BodyMode, b: BodyMode)
    ensures
        mode_step(mode_step(cur, a), b) == mode_step(mode_step(cur, b), a),
{
}

/// Swapping two adjacent filters never changes the pipeline's body
/// capabilities.
pub proof fn caps_step_order_independent(c: BodyCapabilities, f: FilterProfile, g: FilterProfile)
    ensures
        caps_step(caps_step(c, f), g) == caps_step(caps_step(c, g), f),
{
    mode_step_order_independent(c.request_body_mode, f.request_body_mode, g.request_body_mode);
    mode_step_order_independent(c.response_body_mode, f.response_body_mode, g.response_body_mode);
}

proof fn lemma_move_to_end(s: Seq<FilterProfile>, k: int)
    requires
        0 <= k < s.len(),
    ensures
        caps_of(s) == caps_step(caps_of(s.remove(k)), s[k]),
    decreases s.len(),
{
    if k == s.len() - 1 {
        assert(s.remove(k) =~= s.drop_last());
    } else {
        let d = s.drop_last();
        lemma_move_to_end(d, k);
        assert(d[k] == s[k]);
        caps_step_order_independent(caps_of(d.remove(k)), s[k], s.last());
        assert(s.remove(k).drop_last() =~= d.remove(k));
        assert(s.remove(k).last() == s.last());
    }
}

/// The pipeline's body capabilities do not depend on the order of its
/// filters: any rearrangement of the same filters has the same
/// capabilities.
pub proof fn caps_permutation_independent(fs: Seq<FilterProfile>, gs: Seq<FilterProfile>)
    requires
        fs.to_multiset() == gs.to_multiset(),
    ensures
        caps_of(fs) == caps_of(gs),
    decreases fs.len(),
{
    broadcast use vstd::seq_lib::group_to_multiset_ensures;
    if fs.len() == 0 {
        assert(gs.to_multiset().len() == 0);
        assert(gs =~= Seq::<FilterProfile>::empty());
    } else {
        let x = fs.last();
        let d = fs.drop_last();
        assert(d.push(x) =~= fs);
        assert(fs.to_multiset().count(x) > 0);
        assert(gs.contains(x));
        let k = choose|k: int| 0 <= k < gs.len() && gs[k] == x;
        lemma_move_to_end(gs, k);
        assert(gs.remove(k).to_multiset() =~= d.to_multiset());
        caps_permutation_independent(d, gs.remove(k));
    }
}

/// What `compute_body_capabilities` returns does not depend on the order of
/// the filters: any rearrangement of the same pipeline filters gets the
/// same capabilities in every field.
pub proof fn body_capabilities_order_independent(fs: Seq<PipelineFilter>, gs: Seq<PipelineFilter>)
    requires
        fs.to_multiset() == gs.to_multiset(),
    ensures
        caps_of(profiles(fs)) == caps_of(profiles(gs)),
    decreases fs.len(),
{
    broadcast use vstd::seq_lib::group_to_multiset_ensures;
    if fs.len() == 0 {
        assert(gs.to_multiset().len() == 0);
        assert(profiles(fs) =~= Seq::<FilterProfile>::empty());
        assert(profiles(gs) =~= Seq::<FilterProfile>::empty());
    } else {
        let x = fs.last();
        let d = fs.drop_last();
        assert(d.push(x) =~= fs);
        assert(fs.to_multiset().count(x) > 0);
        assert(gs.contains(x));
        let k = choose|k: int| 0 <= k < gs.len() && gs[k] == x;
        lemma_move_to_end(profiles(gs), k);
        assert(profiles(gs).remove(k) =~= profiles(gs.remove(k)));
        assert(profiles(fs).drop_last() =~= profiles(d));
        assert(gs.remove(k).to_multiset() =~= d.to_multiset());
        body_capabilities_order_independent(d, gs.remove(k));
    }
}

/// A pipeline needs the request body exactly when some HTTP filter
/// declares request body access, and has a request body writer exactly
/// when some HTTP filter declares read-write access.
pub proof fn caps_request_flags(fs: Seq<FilterProfile>)
    ensures
        caps_of(fs).needs_request_body <==> exists|i: int|
            0 <= i < fs.len() && (#[trigger] fs[i]).protocol == ProtocolKind::Http
                && fs[i].request_body_access != BodyAccess::NoAccess,
        caps_of(fs).any_request_body_writer <==> exists|i: int|
            0 <= i < fs.len() && (#[trigger] fs[i]).protocol == ProtocolKind::Http
                && fs[i].request_body_access == BodyAccess::ReadWrite,
        caps_of(fs).needs_response_body <==> exists|i: int|
            0 <= i < fs.len() && (#[trigger] fs[i]).protocol == ProtocolKind::Http
                && fs[i].response_body_access != BodyAccess::NoAccess,
        caps_of(fs).any_response_body_writer <==> exists|i: int|
            0 <= i < fs.len() && (#[trigger] fs[i]).protocol == ProtocolKind::Http
                && fs[i].response_body_access == BodyAccess::ReadWrite,
    decreases fs.len(),
{
    if fs.len() > 0 {
        caps_request_flags(fs.drop_last());
        let d = fs.drop_last();
        assert forall|i: int| 0 <= i < d.len() implies d[i] == fs[i] by {}
        if caps_of(d).needs_request_body {
            let i = choose|i: int| 0 <= i < d.len() && (#[trigger] d[i]).protocol == ProtocolKind::Http
                && d[i].request_body_access != BodyAccess::NoAccess;
            assert(fs[i] == d[i]);
        }
        if caps_of(d).any_request_body_writer {
            let i = choose|i: int| 0 <= i < d.len() && (#[trigger] d[i]).protocol == ProtocolKind::Http
                && d[i].request_body_access == BodyAccess::ReadWrite;
            assert(fs[i] == d[i]);
        }
        if caps_of(d).needs_response_body {
            let i = choose|i: int| 0 <= i < d.len() && (#[trigger] d[i]).protocol == ProtocolKind::Http
                && d[i].response_body_access != BodyAccess::NoAccess;
            assert(fs[i] == d[i]);
        }
        if caps_of(d).any_response_body_writer {
            let i = choose|i: int| 0 <= i < d.len() && (#[trigger] d[i]).protocol == ProtocolKind::Http
                && d[i].response_body_access == BodyAccess::ReadWrite;
            assert(fs[i] == d[i]);
        }
        assert forall|i: int| 0 <= i < fs.len() - 1 implies fs[i] == d[i] by {}
    }
}

/// A global ceiling always yields a buffered or stream-buffered mode whose
/// limit is at most the ceiling.
pub proof fn ceiling_bounds_limit(m: BodyMode, ceiling: usize)
    ensures
        match ceiling_mode(m, ceiling) {
            BodyMode::Buffer { max_bytes } => max_bytes <= ceiling,
            BodyMode::StreamBuffer { max_bytes } => max_bytes matches Some(x) && x <= ceiling,
            BodyMode::Stream => false,
        },
{
}

} // verus!
