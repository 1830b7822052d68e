//! Fixed responses and header manipulation.

use vstd::prelude::*;
use vstd::string::*;
use crate::actions::{FilterAction, Rejection};
use crate::context::{header_pairs, HttpFilterContext};
use crate::message::{is_valid_header_name, is_valid_header_value, valid_header_name, valid_header_value, without_name};
use crate::pipeline::FilterProfile;
use crate::text::lower_seq;

verus! {

// ---------------------------------------------------------------------------
// Static response
// ---------------------------------------------------------------------------

/// Returns a fixed response without contacting any upstream.
#[derive(Debug)]
pub struct StaticResponseFilter {
    /// HTTP status code to return.
    pub status: u16,
    /// Response headers as (name, value) pairs.
    pub headers: Vec<(String, String)>,
    /// Optional response body.
    pub body: Option<Vec<u8>>,
}

impl StaticResponseFilter {
    /// A filter answering with `status`, `headers` and the UTF-8 bytes of
    /// `body`.
    pub fn new(status: u16, headers: Vec<(String, String)>, body: Option<&str>) -> (r: Self)
        ensures
            r.status == status,
            r.headers@ == headers@,
            body is None ==> r.body is None,
            body matches Some(b) ==> (r.body matches Some(v) && v@ == b.spec_bytes()),
    {
        let body = match body {
            Some(b) => Some(b.as_bytes_vec()),
            None => None,
        };
        StaticResponseFilter { status, headers, body }
    }

    /// The filter's registered name.
    pub fn name(&self) -> (r: &'static str)
        ensures
            r@ == "static_response"@,
    {
        "static_response"
    }

    /// The filter's profile in a pipeline.
    pub fn profile() -> (r: FilterProfile)
        ensures
            crate::pipeline::plain_http_profile(r, "static_response"@),
    {
        FilterProfile::http("static_response")
    }

    /// Answer every request with the configured response.
    pub fn on_request(&self) -> (r: FilterAction)
        ensures
            r matches FilterAction::Reject(rej) && rej.status == self.status
                && header_pairs(rej.headers@) == header_pairs(self.headers@)
                && match self.body {
                    Some(b) => rej.body matches Some(rb) && rb@ == b@,
                    None => rej.body is None,
                },
    {
        let mut rejection = Rejection::status(self.status);
        let mut i: usize = 0;
        while i < self.headers.len()
            invariant
                i <= self.headers@.len(),
                rejection.status == self.status,
                rejection.body is None,
                header_pairs(rejection.headers@) == header_pairs(self.headers@.subrange(0, i as int)),
            decreases self.headers@.len() - i,
        {
            let ghost before = rejection.headers@;
            rejection = rejection.with_header(self.headers[i].0.as_str(), self.headers[i].1.as_str());
            proof {
                let x = (self.headers@[i as int].0@, self.headers@[i as int].1@);
                assert(header_pairs(rejection.headers@) =~= header_pairs(before).push(x));
                assert(header_pairs(self.headers@.subrange(0, i + 1)) =~= header_pairs(self.headers@.subrange(0, i as int)).push(x));
            }
            i = i + 1;
        }
        proof {
            assert(self.headers@.subrange(0, self.headers@.len() as int) =~= self.headers@);
        }
        match &self.body {
            Some(b) => {
                let copy = b.clone();
                FilterAction::Reject(rejection.with_body(copy))
            },
            None => FilterAction::Reject(rejection),
        }
    }
}

// ---------------------------------------------------------------------------
// Header manipulation
// ---------------------------------------------------------------------------

/// Headers after removing each of `names` in turn (invalid names are
/// ignored).
pub open spec fn after_removes(hs: Seq<(Seq<char>, Seq<char>)>, names: Seq<String>) -> Seq<(Seq<char>, Seq<char>)>
    decreases names.len(),
{
    if names.len() == 0 {
        hs
    } else {
        let prev = after_removes(hs, names.drop_last());
        let n = names.last()@;
        if valid_header_name(n) { without_name(prev, lower_seq(n)) } else { prev }
    }
}

/// Headers after appending each valid pair of `pairs` in turn.
pub open spec fn after_adds(hs: Seq<(Seq<char>, Seq<char>)>, pairs: Seq<(String, String)>) -> Seq<(Seq<char>, Seq<char>)>
    decreases pairs.len(),
{
    if pairs.len() == 0 {
        hs
    } else {
        let prev = after_adds(hs, pairs.drop_last());
        let (n, v) = (pairs.last().0@, pairs.last().1@);
        if valid_header_name(n) && valid_header_value(v) { prev.push((lower_seq(n), v)) } else { prev }
    }
}

/// Headers after setting each valid pair of `pairs` in turn, replacing
/// all earlier values of its name.
pub open spec fn after_sets(hs: Seq<(Seq<char>, Seq<char>)>, pairs: Seq<(String, String)>) -> Seq<(Seq<char>, Seq<char>)>
    decreases pairs.len(),
{
    if pairs.len() == 0 {
        hs
    } else {
        let prev = after_sets(hs, pairs.drop_last());
        let (n, v) = (pairs.last().0@, pairs.last().1@);
        if valid_header_name(n) && valid_header_value(v) {
            without_name(prev, lower_seq(n)).push((lower_seq(n), v))
        } else {
            prev
        }
    }
}

/// Adds headers to upstream requests; adds, sets, or removes headers on
/// downstream responses. Invalid names or values are skipped.
#[derive(Debug)]
pub struct HeaderFilter {
    /// Headers to append to the upstream request.
    pub request_add: Vec<(String, String)>,
    /// Headers to append to the downstream response.
    pub response_add: Vec<(String, String)>,
    /// Header names to strip from the downstream response.
    pub response_remove: Vec<String>,
    /// Headers to overwrite on the downstream response.
    pub response_set: Vec<(String, String)>,
}

impl HeaderFilter {
    /// A filter with the given edits.
    pub fn new(
        request_add: Vec<(String, String)>,
        response_add: Vec<(String, String)>,
        response_remove: Vec<String>,
        response_set: Vec<(String, String)>,
    ) -> (r: Self)
        ensures
            r.request_add@ == request_add@,
            r.response_add@ == response_add@,
            r.response_remove@ == response_remove@,
            r.response_set@ == response_set@,
    {
        HeaderFilter { request_add, response_add, response_remove, response_set }
    }

    /// The filter's registered name.
    pub fn name(&self) -> (r: &'static str)
        ensures
            r@ == "headers"@,
    {
        "headers"
    }

    /// The filter's profile in a pipeline.
    pub fn profile() -> (r: FilterProfile)
        ensures
            crate::pipeline::plain_http_profile(r, "headers"@),
    {
        FilterProfile::http("headers")
    }

    /// Queue the configured request headers, in order.
    pub fn on_request(&self, ctx: &mut HttpFilterContext) -> (r: FilterAction)
        ensures
            *final(ctx) == (HttpFilterContext { extra_request_headers: final(ctx).extra_request_headers, ..*old(ctx) }),
            r is Continue,
            final(ctx).request == old(ctx).request,
            final(ctx).client_addr == old(ctx).client_addr,
            final(ctx).cluster == old(ctx).cluster,
            final(ctx).upstream == old(ctx).upstream,
            final(ctx).response_header == old(ctx).response_header,
            header_pairs(final(ctx).extra_request_headers@) == header_pairs(old(ctx).extra_request_headers@)
                + header_pairs(self.request_add@),
    {
        let mut i: usize = 0;
        while i < self.request_add.len()
            invariant
                i <= self.request_add@.len(),
                *ctx == (HttpFilterContext { extra_request_headers: ctx.extra_request_headers, ..*old(ctx) }),
                ctx.request == old(ctx).request,
                ctx.client_addr == old(ctx).client_addr,
                ctx.cluster == old(ctx).cluster,
                ctx.upstream == old(ctx).upstream,
                ctx.response_header == old(ctx).response_header,
                header_pairs(ctx.extra_request_headers@) == header_pairs(old(ctx).extra_request_headers@)
                    + header_pairs(self.request_add@.subrange(0, i as int)),
            decreases self.request_add@.len() - i,
        {
            let v = self.request_add[i].1.as_str().to_owned();
            ctx.add_extra_header(self.request_add[i].0.as_str(), v);
            proof {
                assert(header_pairs(self.request_add@.subrange(0, i + 1)) =~= header_pairs(
                    self.request_add@.subrange(0, i as int),
                ).push((self.request_add@[i as int].0@, self.request_add@[i as int].1@)));
            }
            i = i + 1;
        }
        proof {
            assert(self.request_add@.subrange(0, self.request_add@.len() as int) =~= self.request_add@);
        }
        FilterAction::Continue
    }

    /// Edit the response headers: removals first, then additions, then
    /// replacements.
    pub fn on_response(&self, ctx: &mut HttpFilterContext) -> (r: FilterAction)
        requires
            old(ctx).response_header matches Some(resp) ==> resp.headers.wf(),
        ensures
            *final(ctx) == (HttpFilterContext { response_header: final(ctx).response_header, ..*old(ctx) }),
            r is Continue,
            final(ctx).request == old(ctx).request,
            final(ctx).extra_request_headers == old(ctx).extra_request_headers,
            final(ctx).cluster == old(ctx).cluster,
            final(ctx).upstream == old(ctx).upstream,
            old(ctx).response_header is None ==> final(ctx).response_header is None,
            old(ctx).response_header matches Some(resp) ==> (final(ctx).response_header matches Some(out)
                && out.status == resp.status
                && out.headers.wf()
                && out.headers@ == after_sets(
                    after_adds(after_removes(resp.headers@, self.response_remove@), self.response_add@),
                    self.response_set@,
                )),
    {
        let mut resp = match ctx.response_header.take() {
            Some(r) => r,
            None => {
                return FilterAction::Continue;
            },
        };
        let ghost h0 = resp.headers@;
        let mut i: usize = 0;
        while i < self.response_remove.len()
            invariant
                i <= self.response_remove@.len(),
                resp.headers.wf(),
                resp.status == old(ctx).response_header->0.status,
                resp.headers@ == after_removes(h0, self.response_remove@.subrange(0, i as int)),
            decreases self.response_remove@.len() - i,
        {
            proof {
                assert(self.response_remove@.subrange(0, i + 1).drop_last() =~= self.response_remove@.subrange(0, i as int));
            }
            resp.headers.remove(self.response_remove[i].as_str());
            i = i + 1;
        }
        proof {
            assert(self.response_remove@.subrange(0, self.response_remove@.len() as int) =~= self.response_remove@);
        }
        let ghost h1 = resp.headers@;
        let mut i: usize = 0;
        while i < self.response_add.len()
            invariant
                i <= self.response_add@.len(),
                resp.headers.wf(),
                resp.status == old(ctx).response_header->0.status,
                resp.headers@ == after_adds(h1, self.response_add@.subrange(0, i as int)),
            decreases self.response_add@.len() - i,
        {
            proof {
                assert(self.response_add@.subrange(0, i + 1).drop_last() =~= self.response_add@.subrange(0, i as int));
            }
            let (n, v) = (self.response_add[i].0.as_str(), self.response_add[i].1.as_str());
            if is_valid_header_name(n) && is_valid_header_value(v) {
                resp.headers.append(n, v);
            }
            i = i + 1;
        }
        proof {
            assert(self.response_add@.subrange(0, self.response_add@.len() as int) =~= self.response_add@);
        }
        let ghost h2 = resp.headers@;
        let mut i: usize = 0;
        while i < self.response_set.len()
            invariant
                i <= self.response_set@.len(),
                resp.headers.wf(),
                resp.status == old(ctx).response_header->0.status,
                resp.headers@ == after_sets(h2, self.response_set@.subrange(0, i as int)),
            decreases self.response_set@.len() - i,
        {
            proof {
                assert(self.response_set@.subrange(0, i + 1).drop_last() =~= self.response_set@.subrange(0, i as int));
            }
            let (n, v) = (self.response_set[i].0.as_str(), self.response_set[i].1.as_str());
            if is_valid_header_name(n) && is_valid_header_value(v) {
                resp.headers.insert(n, v);
            }
            i = i + 1;
        }
        proof {
            assert(self.response_set@.subrange(0, self.response_set@.len() as int) =~= self.response_set@);
        }
        ctx.response_header = Some(resp);
        FilterAction::Continue
    }
}

} // verus!
