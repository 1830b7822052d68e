//! Security filters: IP allow/deny lists and `X-Forwarded-*` injection
//! with trusted-proxy handling.

use vstd::prelude::*;
use vstd::string::*;
use crate::actions::{FilterAction, Rejection};
use crate::context::{header_pairs, HttpFilterContext};
use crate::message::{is_visible_text, visible_text};
use crate::net::{any_contains, in_range, CidrRange, IpAddress};
use crate::pipeline::FilterProfile;
use crate::text::push_str;

verus! {

/// Some range of `ranges` contains `ip`.
pub open spec fn in_any(ranges: Seq<CidrRange>, ip: IpAddress) -> bool {
    exists|i: int| 0 <= i < ranges.len() && in_range(#[trigger] ranges[i], ip)
}

/// The access decision: with a non-empty allow list only its members pass;
/// otherwise everything passes but members of the deny list.
pub open spec fn acl_allows(allow: Seq<CidrRange>, deny: Seq<CidrRange>, ip: IpAddress) -> bool {
    if allow.len() > 0 {
        in_any(allow, ip)
    } else {
        !in_any(deny, ip)
    }
}

/// IP-based access control: allow and deny lists of CIDR ranges, where
/// the allow list takes precedence.
#[derive(Debug)]
pub struct IpAclFilter {
    /// Allowed ranges; when non-empty only these pass.
    pub allow: Vec<CidrRange>,
    /// Denied ranges.
    pub deny: Vec<CidrRange>,
}

impl IpAclFilter {
    /// A filter over the given parsed ranges.
    pub fn new(allow: Vec<CidrRange>, deny: Vec<CidrRange>) -> (r: Self)
        ensures
            r.allow@ == allow@,
            r.deny@ == deny@,
    {
        IpAclFilter { allow, deny }
    }

    /// The filter's registered name.
    pub fn name(&self) -> (r: &'static str)
        ensures
            r@ == "ip_acl"@,
    {
        "ip_acl"
    }

    /// The filter's profile in a pipeline.
    pub fn profile() -> (r: FilterProfile)
        ensures
            crate::pipeline::plain_http_profile(r, "ip_acl"@),
    {
        FilterProfile::http("ip_acl")
    }

    /// Check `ip` against the allow and deny lists.
    pub fn is_allowed(&self, ip: &IpAddress) -> (r: bool)
        ensures
            r == acl_allows(self.allow@, self.deny@, *ip),
    {
        if self.allow.len() > 0 {
            any_contains(&self.allow, ip)
        } else {
            !any_contains(&self.deny, ip)
        }
    }

    /// Admit the request when the client address passes the lists; reject
    /// with 403 otherwise, and also when the client address is unknown.
    pub fn on_request(&self, ctx: &HttpFilterContext) -> (r: FilterAction)
        ensures
            r is Continue <==> (ctx.client_addr matches Some(c) && acl_allows(self.allow@, self.deny@, c.ip)),
            r is Continue || r is Reject,
            r matches FilterAction::Reject(rej) ==> rej.status == 403 && rej.headers@.len() == 0
                && rej.body is None,
    {
        match &ctx.client_addr {
            Some(c) => {
                if self.is_allowed(&c.ip) {
                    FilterAction::Continue
                } else {
                    FilterAction::Reject(Rejection::status(403))
                }
            },
            None => FilterAction::Reject(Rejection::status(403)),
        }
    }
}

/// A client matching an allow entry is never denied, whatever the deny
/// list holds.
pub proof fn allow_overrides_deny(allow: Seq<CidrRange>, deny: Seq<CidrRange>, ip: IpAddress)
    requires
        in_any(allow, ip),
    ensures
        acl_allows(allow, deny, ip),
{
}

/// With a non-empty allow list, a client outside every allowed range is
/// refused, whatever the deny list holds.
pub proof fn allow_list_admits_only_members(allow: Seq<CidrRange>, deny: Seq<CidrRange>, ip: IpAddress)
    requires
        allow.len() > 0,
        forall|i: int| 0 <= i < allow.len() ==> !in_range(#[trigger] allow[i], ip),
    ensures
        !acl_allows(allow, deny, ip),
{
}

/// Without an allow list, a client inside some denied range is refused.
pub proof fn deny_list_refuses_members(deny: Seq<CidrRange>, ip: IpAddress, k: int)
    requires
        0 <= k < deny.len(),
        in_range(deny[k], ip),
    ensures
        !acl_allows(Seq::empty(), deny, ip),
{
}

/// The decision in terms of the ranges themselves: with an allow list a
/// client passes exactly when some allowed range holds it; without one,
/// exactly when no denied range holds it.
pub proof fn acl_decision_by_ranges(allow: Seq<CidrRange>, deny: Seq<CidrRange>, ip: IpAddress)
    ensures
        allow.len() > 0 ==> (acl_allows(allow, deny, ip) <==> exists|i: int|
            0 <= i < allow.len() && in_range(#[trigger] allow[i], ip)),
        allow.len() == 0 ==> (acl_allows(allow, deny, ip) <==> forall|i: int|
            0 <= i < deny.len() ==> !in_range(#[trigger] deny[i], ip)),
{
}

/// With both lists empty every client passes.
pub proof fn empty_lists_allow_all(ip: IpAddress)
    ensures
        acl_allows(Seq::empty(), Seq::empty(), ip),
{
}

/// The `X-Forwarded-For` value: the client address appended to the
/// incoming chain for a trusted proxy, the client address alone otherwise.
pub open spec fn forwarded_for_value(trusted: Seq<CidrRange>, ctx: HttpFilterContext, client: Seq<char>, ip: IpAddress) -> Seq<char> {
    if in_any(trusted, ip) {
        match ctx.request.headers.first("x-forwarded-for"@) {
            Some(v) => (if visible_text(v) { v } else { Seq::empty() }) + ", "@ + client,
            None => client,
        }
    } else {
        client
    }
}

/// The headers added for a request from `client` at `ip`.
pub open spec fn forwarded_entries(trusted: Seq<CidrRange>, ctx: HttpFilterContext, client: Seq<char>, ip: IpAddress) -> Seq<(Seq<char>, Seq<char>)> {
    let proto = match ctx.request.scheme {
        Some(s) => s@,
        None => "http"@,
    };
    let base = seq![("X-Forwarded-For"@, forwarded_for_value(trusted, ctx, client, ip)), ("X-Forwarded-Proto"@, proto)];
    match ctx.request.headers.first("host"@) {
        Some(h) => if visible_text(h) { base.push(("X-Forwarded-Host"@, h)) } else { base },
        None => base,
    }
}

/// What the filter adds for a request from `client` at `ip`:
/// `X-Forwarded-For` first, then `X-Forwarded-Proto` carrying the request's
/// own scheme (`http` only when the request has none), then
/// `X-Forwarded-Host` exactly when the request has a readable `Host`. A
/// client that is not a trusted proxy is forwarded as itself alone; a
/// trusted proxy's readable chain is extended with its address.
pub proof fn forwarded_headers_carry_request_facts(
    trusted: Seq<CidrRange>,
    ctx: HttpFilterContext,
    client: Seq<char>,
    ip: IpAddress,
)
    ensures
        ({
            let e = forwarded_entries(trusted, ctx, client, ip);
            &&& e.len() >= 2
            &&& e[0].0 == "X-Forwarded-For"@
            &&& e[1].0 == "X-Forwarded-Proto"@
            &&& (ctx.request.scheme matches Some(s) ==> e[1].1 == s@)
            &&& (ctx.request.scheme is None ==> e[1].1 == "http"@)
            &&& (!in_any(trusted, ip) ==> e[0].1 == client)
            &&& (in_any(trusted, ip) ==> (ctx.request.headers.first("x-forwarded-for"@) matches Some(v)
                ==> (visible_text(v) ==> e[0].1 == v + ", "@ + client)))
            &&& (ctx.request.headers.first("host"@) matches Some(h) ==> (visible_text(h) ==> e.len() == 3
                && e[2] == ("X-Forwarded-Host"@, h)))
            &&& (ctx.request.headers.first("host"@) matches Some(h) ==> (!visible_text(h) ==> e.len() == 2))
            &&& (ctx.request.headers.first("host"@) is None ==> e.len() == 2)
        }),
{
}

/// Injects `X-Forwarded-For`, `X-Forwarded-Proto` and `X-Forwarded-Host`.
/// A trusted proxy's incoming `X-Forwarded-For` is extended; any other
/// client's is replaced, so it cannot be spoofed.
#[derive(Debug)]
pub struct ForwardedHeadersFilter {
    /// Ranges of trusted proxies.
    pub trusted_proxies: Vec<CidrRange>,
}

impl ForwardedHeadersFilter {
    /// A filter trusting the given parsed ranges.
    pub fn new(trusted_proxies: Vec<CidrRange>) -> (r: Self)
        ensures
            r.trusted_proxies@ == trusted_proxies@,
    {
        ForwardedHeadersFilter { trusted_proxies }
    }

    /// The filter's registered name.
    pub fn name(&self) -> (r: &'static str)
        ensures
            r@ == "forwarded_headers"@,
    {
        "forwarded_headers"
    }

    /// The filter's profile in a pipeline.
    pub fn profile() -> (r: FilterProfile)
        ensures
            crate::pipeline::plain_http_profile(r, "forwarded_headers"@),
    {
        FilterProfile::http("forwarded_headers")
    }

    /// Whether `ip` is a trusted proxy.
    pub fn is_trusted(&self, ip: &IpAddress) -> (r: bool)
        ensures
            r == in_any(self.trusted_proxies@, *ip),
    {
        any_contains(&self.trusted_proxies, ip)
    }

    /// Add the forwarding headers for a request with a known client.
    pub fn on_request(&self, ctx: &mut HttpFilterContext) -> (r: FilterAction)
        ensures
            *final(ctx) == (HttpFilterContext { extra_request_headers: final(ctx).extra_request_headers, ..*old(ctx) }),
            r is Continue,
            final(ctx).request == old(ctx).request,
            final(ctx).client_addr == old(ctx).client_addr,
            final(ctx).cluster == old(ctx).cluster,
            final(ctx).upstream == old(ctx).upstream,
            final(ctx).response_header == old(ctx).response_header,
            old(ctx).client_addr is None ==> final(ctx).extra_request_headers@ == old(ctx).extra_request_headers@,
            old(ctx).client_addr matches Some(c) ==> header_pairs(final(ctx).extra_request_headers@)
                == header_pairs(old(ctx).extra_request_headers@) + forwarded_entries(
                    self.trusted_proxies@, *old(ctx), c.text@, c.ip),
    {
        let (client, ip) = match &ctx.client_addr {
            Some(c) => (c.text.clone(), c.ip),
            None => {
                return FilterAction::Continue;
            },
        };
        let ghost c0 = *old(ctx);
        let ghost before = header_pairs(old(ctx).extra_request_headers@);
        let xff = if self.is_trusted(&ip) {
            match ctx.request.headers.get("x-forwarded-for") {
                Some(existing) => {
                    let mut v = String::new();
                    if is_visible_text(existing.as_str()) {
                        push_str(&mut v, existing.as_str());
                    }
                    push_str(&mut v, ", ");
                    push_str(&mut v, client.as_str());
                    v
                },
                None => client,
            }
        } else {
            client
        };
        ctx.add_extra_header("X-Forwarded-For", xff);
        let proto = match &ctx.request.scheme {
            Some(s) => s.clone(),
            None => "http".to_owned(),
        };
        ctx.add_extra_header("X-Forwarded-Proto", proto);
        match ctx.request.headers.get("host") {
            Some(h) => {
                if is_visible_text(h.as_str()) {
                    ctx.add_extra_header("X-Forwarded-Host", h);
                }
            },
            None => {},
        }
        proof {
            let c = c0.client_addr->0;
            let e = forwarded_entries(self.trusted_proxies@, c0, c.text@, c.ip);
            assert(header_pairs(ctx.extra_request_headers@) =~= before + e);
        }
        FilterAction::Continue
    }
}

} // verus!
