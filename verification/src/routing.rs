//! Path-prefix, host and header based routing of requests to clusters.

use vstd::prelude::*;
use vstd::string::*;
use crate::actions::{FilterAction, Rejection};
use crate::context::HttpFilterContext;
use crate::message::{is_visible_text, visible_text, HeaderMap, Request};
use crate::pipeline::FilterProfile;
use crate::text::{char_pos, find_char, seq_starts_with, starts_with, str_eq};

verus! {

/// A route: requests whose path starts with `path_prefix` (and whose host
/// and headers satisfy the optional constraints) go to `cluster`.
#[derive(Debug)]
pub struct Route {
    /// Raw path prefix (not segment-aware: `/api` matches `/apiary`).
    pub path_prefix: String,
    /// Required host, compared without the port.
    pub host: Option<String>,
    /// Required header values, each compared case-sensitively.
    pub headers: Option<Vec<(String, String)>>,
    /// The cluster requests are routed to.
    pub cluster: String,
}

/// A host with its port removed: a bracketed IPv6 host keeps everything up
/// to its closing `]`; any other host is cut at its first `:`.
pub open spec fn strip_port_spec(h: Seq<char>) -> Seq<char> {
    if h.len() > 0 && h[0] == '[' {
        if char_pos(h, ']') < h.len() {
            h.subrange(0, char_pos(h, ']') + 1)
        } else {
            h
        }
    } else {
        h.subrange(0, char_pos(h, ':'))
    }
}

/// Strip the port from a host, handling bracketed IPv6 hosts.
pub fn strip_port(host: &str) -> (r: String)
    ensures
        r@ == strip_port_spec(host@),
{
    let n = host.unicode_len();
    if n > 0 && host.get_char(0) == '[' {
        let p = find_char(host, ']');
        if p < n {
            host.substring_char(0, p + 1).to_owned()
        } else {
            host.to_owned()
        }
    } else {
        let p = find_char(host, ':');
        host.substring_char(0, p).to_owned()
    }
}

/// Some value of `name` in `hs` is readable text equal to `value`.
pub open spec fn header_has(hs: HeaderMap, name: Seq<char>, value: Seq<char>) -> bool {
    exists|i: int| 0 <= i < hs.values(name).len() && visible_text(#[trigger] hs.values(name)[i]) && hs.values(name)[i] == value
}

/// Every pair of `req` is present in `hs`.
pub open spec fn all_headers_present(req: Seq<(String, String)>, hs: HeaderMap) -> bool {
    forall|i: int| 0 <= i < req.len() ==> header_has(hs, (#[trigger] req[i]).0@, req[i].1@)
}

/// All required header pairs are present in `hs`.
pub open spec fn route_headers_ok(required: Option<Vec<(String, String)>>, hs: HeaderMap) -> bool {
    match required {
        Some(req) => all_headers_present(req@, hs),
        None => true,
    }
}

fn header_has_exec(hs: &HeaderMap, name: &str, value: &str) -> (r: bool)
    ensures
        r == header_has(*hs, name@, value@),
{
    let all = hs.get_all(name);
    let mut i: usize = 0;
    while i < all.len()
        invariant
            i <= all@.len(),
            all@.map_values(|s: String| s@) == hs.values(name@),
            forall|j: int| 0 <= j < i ==> !(visible_text(all@[j]@) && all@[j]@ == value@),
        decreases all@.len() - i,
    {
        if is_visible_text(all[i].as_str()) && str_eq(all[i].as_str(), value) {
            proof {
                assert(hs.values(name@)[i as int] == all@[i as int]@);
            }
            return true;
        }
        i = i + 1;
    }
    proof {
        assert forall|j: int| 0 <= j < hs.values(name@).len() implies !(visible_text(#[trigger] hs.values(name@)[j])
            && hs.values(name@)[j] == value@) by {
            assert(hs.values(name@)[j] == all@[j]@);
        }
    }
    false
}

/// Whether the request headers satisfy all of a route's header constraints.
pub fn headers_match(required: &Option<Vec<(String, String)>>, actual: &HeaderMap) -> (r: bool)
    ensures
        r == route_headers_ok(*required, *actual),
{
    match required {
        None => true,
        Some(req) => {
            let mut i: usize = 0;
            while i < req.len()
                invariant
                    *required == Some(*req),
                    i <= req@.len(),
                    forall|j: int| 0 <= j < i ==> header_has(*actual, (#[trigger] req@[j]).0@, req@[j].1@),
                decreases req@.len() - i,
            {
                if !header_has_exec(actual, req[i].0.as_str(), req[i].1.as_str()) {
                    proof {
                        let x = req@[i as int];
                        assert(!header_has(*actual, x.0@, x.1@));
                        assert(!all_headers_present(req@, *actual));

                    }
                    return false;
                }
                i = i + 1;
            }
            true
        },
    }
}

/// Whether route `r` applies to a request with this path, host and headers.
pub open spec fn route_matches(r: Route, path: Seq<char>, host: Option<Seq<char>>, hs: HeaderMap) -> bool {
    &&& seq_starts_with(path, r.path_prefix@)
    &&& match r.host {
        Some(h) => host matches Some(rh) && strip_port_spec(rh) == h@,
        None => true,
    }
    &&& route_headers_ok(r.headers, hs)
}

/// The number of constraints besides the path: a host, and each header.
pub open spec fn constraint_count(r: Route) -> nat {
    (if r.host is Some { 1nat } else { 0nat }) + match r.headers {
        Some(v) => v@.len(),
        None => 0nat,
    }
}

/// `a` beats `b`: a longer prefix, or an equal prefix with more constraints.
pub open spec fn outranks(a: Route, b: Route) -> bool {
    a.path_prefix@.len() > b.path_prefix@.len() || (a.path_prefix@.len() == b.path_prefix@.len()
        && constraint_count(a) > constraint_count(b))
}

/// The route chosen among `rs`: the first of the highest-ranking matching
/// routes, or `None` when none matches.
pub open spec fn best_match(rs: Seq<Route>, path: Seq<char>, host: Option<Seq<char>>, hs: HeaderMap) -> Option<int>
    decreases rs.len(),
{
    if rs.len() == 0 {
        None
    } else {
        let b = best_match(rs.drop_last(), path, host, hs);
        if route_matches(rs.last(), path, host, hs) && match b {
            Some(j) => outranks(rs.last(), rs[j]),
            None => true,
        } {
            Some(rs.len() - 1)
        } else {
            b
        }
    }
}

/// The chosen route matches, no matching route outranks it, and it
/// outranks every matching route declared before it; `None` only when no
/// route matches.
pub proof fn best_match_is_best(rs: Seq<Route>, path: Seq<char>, host: Option<Seq<char>>, hs: HeaderMap)
    ensures
        best_match(rs, path, host, hs) matches Some(k) ==> {
            &&& 0 <= k < rs.len()
            &&& route_matches(rs[k], path, host, hs)
            &&& forall|j: int| 0 <= j < rs.len() && route_matches(#[trigger] rs[j], path, host, hs) ==> !outranks(rs[j], rs[k])
            &&& forall|j: int| 0 <= j < k && route_matches(#[trigger] rs[j], path, host, hs) ==> outranks(rs[k], rs[j])
        },
        best_match(rs, path, host, hs) is None ==> forall|j: int| 0 <= j < rs.len() ==> !route_matches(#[trigger] rs[j], path, host, hs),
    decreases rs.len(),
{
    if rs.len() > 0 {
        let d = rs.drop_last();
        best_match_is_best(d, path, host, hs);
        assert forall|j: int| 0 <= j < d.len() implies #[trigger] rs[j] == d[j] by {}
        let b = best_match(d, path, host, hs);
        match b {
            Some(k) => {
                assert(rs[k] == d[k]);
                assert forall|j: int| 0 <= j < rs.len() - 1 && route_matches(#[trigger] rs[j], path, host, hs) implies !outranks(rs[j], rs[k]) by {
                    assert(rs[j] == d[j]);
                }
            },
            None => {
                assert forall|j: int| 0 <= j < rs.len() - 1 implies !route_matches(#[trigger] rs[j], path, host, hs) by {
                    assert(rs[j] == d[j]);
                }
            },
        }
    }
}

/// The host a request is routed by: its `Host` header when readable as
/// text, else the URI authority.
pub open spec fn request_host(req: Request) -> Option<Seq<char>> {
    let authority = match req.authority {
        Some(a) => Some(a@),
        None => None,
    };
    match req.headers.first("host"@) {
        Some(v) => if visible_text(v) { Some(v) } else { authority },
        None => authority,
    }
}

/// Routes requests to clusters by path prefix, host and headers.
#[derive(Debug)]
pub struct RouterFilter {
    /// The route table, in configuration order.
    pub routes: Vec<Route>,
}

impl RouterFilter {
    /// A router over `routes`.
    pub fn new(routes: Vec<Route>) -> (r: Self)
        ensures
            r.routes@ == routes@,
    {
        RouterFilter { routes }
    }

    /// The filter's registered name.
    pub fn name(&self) -> (r: &'static str)
        ensures
            r@ == "router"@,
    {
        "router"
    }

    /// The filter's profile in a pipeline.
    pub fn profile() -> (r: FilterProfile)
        ensures
            crate::pipeline::plain_http_profile(r, "router"@),
    {
        FilterProfile::http("router")
    }

    fn route_matches_exec(r: &Route, path: &str, host: Option<&str>, hs: &HeaderMap) -> (b: bool)
        ensures
            b == route_matches(*r, path@, match host { Some(h) => Some(h@), None => None }, *hs),
    {
        if !starts_with(path, r.path_prefix.as_str()) {
            return false;
        }
        let host_ok = match &r.host {
            Some(h) => match host {
                Some(rh) => {
                    let s = strip_port(rh);
                    str_eq(s.as_str(), h.as_str())
                },
                None => false,
            },
            None => true,
        };
        host_ok && headers_match(&r.headers, hs)
    }

    fn constraints(r: &Route) -> (c: u128)
        ensures
            c as nat == constraint_count(*r),
    {
        let h: u128 = if r.host.is_some() { 1 } else { 0 };
        let n: usize = match &r.headers {
            Some(v) => v.len(),
            None => 0,
        };
        h + n as u128
    }

    /// The position of the best matching route for the given path, host
    /// and headers.
    pub fn match_index(&self, path: &str, host: Option<&str>, hs: &HeaderMap) -> (r: Option<usize>)
        ensures
            r matches Some(k) ==> k < self.routes@.len() && best_match(self.routes@, path@, match host { Some(h) => Some(h@), None => None }, *hs) == Some(k as int),
            r is None ==> best_match(self.routes@, path@, match host { Some(h) => Some(h@), None => None }, *hs) is None,
    {
        let ghost hv = match host { Some(h) => Some(h@), None => None };
        let mut best: Option<usize> = None;
        let mut best_len: usize = 0;
        let mut best_c: u128 = 0;
        let mut i: usize = 0;
        while i < self.routes.len()
            invariant
                i <= self.routes@.len(),
                hv == match host { Some(h) => Some(h@), None => None },
                best_match(self.routes@.subrange(0, i as int), path@, hv, *hs) == match best {
                    Some(k) => Some(k as int),
                    None => None::<int>,
                },
                best matches Some(k) ==> k < i && best_len as nat == self.routes@[k as int].path_prefix@.len()
                    && best_c as nat == constraint_count(self.routes@[k as int]),
            decreases self.routes@.len() - i,
        {
            let r = &self.routes[i];
            let ghost sub = self.routes@.subrange(0, i + 1);
            proof {
                assert(sub.drop_last() =~= self.routes@.subrange(0, i as int));
                assert(sub.last() == self.routes@[i as int]);
                if best is Some {
                    assert(sub[best->0 as int] == self.routes@[best->0 as int]);
                }
            }
            if Self::route_matches_exec(r, path, host, hs) {
                let plen = r.path_prefix.unicode_len();
                let c = Self::constraints(r);
                let better = match best {
                    None => true,
                    Some(_) => plen > best_len || (plen == best_len && c > best_c),
                };
                if better {
                    best = Some(i);
                    best_len = plen;
                    best_c = c;
                }
            }
            i = i + 1;
        }
        proof {
            assert(self.routes@.subrange(0, self.routes@.len() as int) =~= self.routes@);
        }
        best
    }

    /// The best matching route for the given path, host and headers.
    pub fn match_route(&self, path: &str, host: Option<&str>, hs: &HeaderMap) -> (r: Option<&Route>)
        ensures
            best_match(self.routes@, path@, match host { Some(h) => Some(h@), None => None }, *hs) matches Some(k)
                ==> r matches Some(rt) && *rt == self.routes@[k],
            best_match(self.routes@, path@, match host { Some(h) => Some(h@), None => None }, *hs) is None ==> r is None,
    {
        match self.match_index(path, host, hs) {
            Some(k) => {
                proof {
                    best_match_is_best(self.routes@, path@, match host { Some(h) => Some(h@), None => None }, *hs);
                }
                Some(&self.routes[k])
            },
            None => None,
        }
    }

    /// Route the request: record the chosen cluster, or reject with 404
    /// when no route matches.
    pub fn on_request(&self, ctx: &mut HttpFilterContext) -> (r: FilterAction)
        ensures
            *final(ctx) == (HttpFilterContext { cluster: final(ctx).cluster, ..*old(ctx) }),
            final(ctx).request == old(ctx).request,
            final(ctx).client_addr == old(ctx).client_addr,
            final(ctx).extra_request_headers == old(ctx).extra_request_headers,
            final(ctx).upstream == old(ctx).upstream,
            final(ctx).response_header == old(ctx).response_header,
            best_match(self.routes@, old(ctx).request.path@, request_host(old(ctx).request), old(ctx).request.headers) matches Some(k)
                ==> r is Continue && (final(ctx).cluster matches Some(c) && c@ == self.routes@[k].cluster@),
            best_match(self.routes@, old(ctx).request.path@, request_host(old(ctx).request), old(ctx).request.headers) is None
                ==> (r matches FilterAction::Reject(rej) && rej.status == 404 && rej.headers@.len() == 0 && rej.body is None)
                && final(ctx).cluster == old(ctx).cluster,
    {
        let host: Option<String> = match ctx.request.headers.get("host") {
            Some(v) => if is_visible_text(v.as_str()) {
                Some(v)
            } else {
                match &ctx.request.authority {
                    Some(a) => Some(a.as_str().to_owned()),
                    None => None,
                }
            },
            None => match &ctx.request.authority {
                Some(a) => Some(a.as_str().to_owned()),
                None => None,
            },
        };
        let found = match &host {
            Some(h) => self.match_index(ctx.request.path.as_str(), Some(h.as_str()), &ctx.request.headers),
            None => self.match_index(ctx.request.path.as_str(), None, &ctx.request.headers),
        };
        proof {
            let hv = match host { Some(h) => Some(h@), None => None::<Seq<char>> };
            assert(hv == request_host(ctx.request));
            best_match_is_best(self.routes@, ctx.request.path@, hv, ctx.request.headers);
        }
        match found {
            Some(k) => {
                let c = self.routes[k].cluster.as_str().to_owned();
                ctx.cluster = Some(c);
                FilterAction::Continue
            },
            None => FilterAction::Reject(Rejection::status(404)),
        }
    }
}

} // verus!
