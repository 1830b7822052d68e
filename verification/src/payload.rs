//! Payload processing: promoting a top-level JSON body field to a
//! request header.

use vstd::prelude::*;
use crate::actions::FilterAction;
use crate::body::{BodyAccess, BodyMode};
use crate::context::{FilterError, HttpFilterContext};
use crate::pipeline::FilterProfile;

verus! {

/// The text of the top-level field `field` of the JSON document `body`:
/// `None` when `body` is not JSON or has no such field; a string's
/// contents, or any other value rendered as compact JSON.
pub uninterp spec fn json_field_text(body: Seq<u8>, field: Seq<char>) -> Option<Seq<char>>;

/// Parses `body` with `serde_json::from_slice::<serde_json::Value>`, looks
/// the field up with `Value::get` and renders it (a string's contents, any
/// other value through `Value::to_string`). The result is only claimed to be
/// `json_field_text` of the arguments; what that is, is left to serde_json.
#[verifier::external_body]
fn extract_json_field(body: &[u8], field: &str) -> (r: Option<String>)
    ensures
        r matches Some(t) ==> json_field_text(body@, field@) == Some(t@),
        r is None ==> json_field_text(body@, field@) is None,
{
    match serde_json::from_slice::<serde_json::Value>(body) {
        Ok(value) => match value.get(field) {
            Some(serde_json::Value::String(s)) => Some(s.clone()),
            Some(other) => Some(other.to_string()),
            None => None,
        },
        Err(_) => None,
    }
}

/// Extracts a top-level field from a JSON request body and promotes its
/// value to a request header, buffering the body in stream-buffer mode.
#[derive(Debug)]
pub struct JsonBodyFieldFilter {
    /// Top-level JSON field name to extract.
    pub field: String,
    /// Request header name to promote the extracted value into.
    pub header_name: String,
}

impl JsonBodyFieldFilter {
    /// Create the filter; both names must be non-empty.
    pub fn from_config(field: &str, header: &str) -> (r: Result<Self, FilterError>)
        ensures
            field@.len() == 0 ==> (r matches Err(e)
                && e.message@ == "json_body_field: 'field' must not be empty"@),
            field@.len() > 0 && header@.len() == 0 ==> (r matches Err(e)
                && e.message@ == "json_body_field: 'header' must not be empty"@),
            field@.len() > 0 && header@.len() > 0 ==> (r matches Ok(f)
                && f.field@ == field@ && f.header_name@ == header@),
    {
        if field.unicode_len() == 0 {
            return Err(FilterError::new("json_body_field: 'field' must not be empty"));
        }
        if header.unicode_len() == 0 {
            return Err(FilterError::new("json_body_field: 'header' must not be empty"));
        }
        Ok(JsonBodyFieldFilter { field: field.to_owned(), header_name: header.to_owned() })
    }

    /// The filter's registered name.
    pub fn name(&self) -> (r: &'static str)
        ensures
            r@ == "json_body_field"@,
    {
        "json_body_field"
    }

    /// The filter reads the request body but never changes it.
    pub fn request_body_access(&self) -> (r: BodyAccess)
        ensures
            r == BodyAccess::ReadOnly,
    {
        BodyAccess::ReadOnly
    }

    /// The body streams through while being buffered, without a limit.
    pub fn request_body_mode(&self) -> (r: BodyMode)
        ensures
            r == (BodyMode::StreamBuffer { max_bytes: None }),
    {
        BodyMode::StreamBuffer { max_bytes: None }
    }

    /// The filter's profile in a pipeline.
    pub fn profile() -> (r: FilterProfile)
        ensures
            r.name@ == "json_body_field"@,
            r.protocol == crate::pipeline::ProtocolKind::Http,
            r.request_body_access == BodyAccess::ReadOnly,
            r.request_body_mode == (BodyMode::StreamBuffer { max_bytes: None }),
            r.response_body_access == BodyAccess::NoAccess,
            r.response_body_mode == BodyMode::Stream,
            !r.needs_request_context,
    {
        let mut p = FilterProfile::http("json_body_field");
        p.request_body_access = BodyAccess::ReadOnly;
        p.request_body_mode = BodyMode::StreamBuffer { max_bytes: None };
        p
    }

    /// The request phase needs nothing from this filter.
    pub fn on_request(&self) -> (r: FilterAction)
        ensures
            r is Continue,
    {
        FilterAction::Continue
    }

    /// Act on the extracted field text: promote it to the configured header
    /// and release the buffered body, or continue buffering when absent.
    pub fn promote_field(&self, ctx: &mut HttpFilterContext, extracted: Option<String>) -> (r: FilterAction)
        ensures
            *final(ctx) == (HttpFilterContext { extra_request_headers: final(ctx).extra_request_headers, ..*old(ctx) }),
            final(ctx).request == old(ctx).request,
            final(ctx).cluster == old(ctx).cluster,
            final(ctx).upstream == old(ctx).upstream,
            final(ctx).response_header == old(ctx).response_header,
            extracted is None ==> r is Continue
                && final(ctx).extra_request_headers@ == old(ctx).extra_request_headers@,
            extracted matches Some(t) ==> (r is Release
                && final(ctx).extra_request_headers@.len() == old(ctx).extra_request_headers@.len() + 1
                && final(ctx).extra_request_headers@.drop_last() == old(ctx).extra_request_headers@
                && final(ctx).extra_request_headers@.last().0@ == self.header_name@
                && final(ctx).extra_request_headers@.last().1@ == t@),
    {
        match extracted {
            Some(text) => {
                ctx.extra_request_headers.push((self.header_name.clone(), text));
                proof {
                    assert(ctx.extra_request_headers@.drop_last() =~= old(ctx).extra_request_headers@);
                }
                FilterAction::Release
            },
            None => FilterAction::Continue,
        }
    }

    /// A body chunk (the accumulated buffer) arrived: when it is a JSON
    /// document with the configured field, promote the field's text.
    pub fn on_request_body(&self, ctx: &mut HttpFilterContext, body: Option<&[u8]>) -> (r: FilterAction)
        ensures
            *final(ctx) == (HttpFilterContext { extra_request_headers: final(ctx).extra_request_headers, ..*old(ctx) }),
            final(ctx).request == old(ctx).request,
            final(ctx).cluster == old(ctx).cluster,
            final(ctx).upstream == old(ctx).upstream,
            final(ctx).response_header == old(ctx).response_header,
            ({
                let found = match body {
                    Some(b) => json_field_text(b@, self.field@),
                    None => None,
                };
                &&& found is None ==> r is Continue
                    && final(ctx).extra_request_headers@ == old(ctx).extra_request_headers@
                &&& found matches Some(t) ==> (r is Release
                    && final(ctx).extra_request_headers@ == old(ctx).extra_request_headers@.push(
                        (final(ctx).extra_request_headers@.last().0, final(ctx).extra_request_headers@.last().1))
                    && final(ctx).extra_request_headers@.last().0@ == self.header_name@
                    && final(ctx).extra_request_headers@.last().1@ == t)
            }),
    {
        let extracted = match body {
            Some(b) => extract_json_field(b, self.field.as_str()),
            None => None,
        };
        let r = self.promote_field(ctx, extracted);
        proof {
            if r is Release {
                assert(ctx.extra_request_headers@ =~= old(ctx).extra_request_headers@.push(
                    (ctx.extra_request_headers@.last().0, ctx.extra_request_headers@.last().1)));
            }
        }
        r
    }
}

} // verus!
