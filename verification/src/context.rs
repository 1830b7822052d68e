//! Per-request and per-connection state shared by filters.

use vstd::prelude::*;
use crate::message::{Request, Response};
use crate::net::ClientAddress;
use crate::text::push_str;

verus! {

/// Connection options for upstream peers, derived from cluster settings
/// (all in milliseconds).
#[derive(Debug, Clone, Copy, PartialEq, Eq, Structural)]
pub struct ConnectionOptions {
    /// Connection establishment timeout.
    pub connection_timeout_ms: Option<u64>,
    /// Idle connection timeout.
    pub idle_timeout_ms: Option<u64>,
    /// Read timeout.
    pub read_timeout_ms: Option<u64>,
    /// Total connection timeout (including TLS).
    pub total_connection_timeout_ms: Option<u64>,
    /// Write timeout.
    pub write_timeout_ms: Option<u64>,
}

/// The upstream peer selected for a request.
#[derive(Debug)]
pub struct Upstream {
    /// Peer address, e.g. `10.0.0.1:8080`.
    pub address: String,
    /// Whether to use TLS.
    pub tls: bool,
    /// SNI name for TLS.
    pub sni: String,
    /// Connection options.
    pub connection: ConnectionOptions,
}

/// A filter failure.
#[derive(Debug)]
pub struct FilterError {
    /// Human-readable description.
    pub message: String,
}

impl FilterError {
    /// An error with the given message.
    pub fn new(message: &str) -> (r: Self)
        ensures
            r.message@ == message@,
    {
        FilterError { message: message.to_owned() }
    }

    /// The error message.
    pub fn to_string(&self) -> (r: String)
        ensures
            r@ == self.message@,
    {
        let mut s = String::new();
        push_str(&mut s, self.message.as_str());
        s
    }
}

/// Header name/value pairs as text.
pub open spec fn header_pairs(es: Seq<(String, String)>) -> Seq<(Seq<char>, Seq<char>)> {
    es.map_values(|e: (String, String)| (e.0@, e.1@))
}

/// Per-request mutable state shared across all HTTP filters.
#[derive(Debug)]
pub struct HttpFilterContext {
    /// Downstream client address.
    pub client_addr: Option<ClientAddress>,
    /// The cluster selected by the router filter.
    pub cluster: Option<String>,
    /// Extra headers to inject into the upstream request.
    pub extra_request_headers: Vec<(String, String)>,
    /// Whether the downstream connection uses TLS.
    pub downstream_tls: bool,
    /// The request.
    pub request: Request,
    /// Request header names to remove before forwarding upstream.
    pub request_headers_to_remove: Vec<String>,
    /// Request headers to set (replacing existing values) upstream.
    pub request_headers_to_set: Vec<(String, String)>,
    /// The upstream response, available during the response phase.
    pub response_header: Option<Response>,
    /// Whether a filter changed the response headers.
    pub response_headers_modified: bool,
    /// Accumulated request body bytes seen so far.
    pub request_body_bytes: u64,
    /// Accumulated response body bytes seen so far.
    pub response_body_bytes: u64,
    /// The upstream peer selected by the load balancer filter.
    pub upstream: Option<Upstream>,
}

impl HttpFilterContext {
    /// A fresh context for `request`, with nothing selected yet.
    pub fn new(request: Request) -> (r: Self)
        ensures
            r.request == request,
            r.client_addr is None,
            r.cluster is None,
            r.extra_request_headers@.len() == 0,
            !r.downstream_tls,
            r.request_headers_to_remove@.len() == 0,
            r.request_headers_to_set@.len() == 0,
            r.response_header is None,
            !r.response_headers_modified,
            r.request_body_bytes == 0,
            r.response_body_bytes == 0,
            r.upstream is None,
    {
        HttpFilterContext {
            client_addr: None,
            cluster: None,
            extra_request_headers: Vec::new(),
            downstream_tls: false,
            request,
            request_headers_to_remove: Vec::new(),
            request_headers_to_set: Vec::new(),
            response_header: None,
            response_headers_modified: false,
            request_body_bytes: 0,
            response_body_bytes: 0,
            upstream: None,
        }
    }

    /// Queue a header for injection into the upstream request.
    pub fn add_extra_header(&mut self, name: &str, value: String)
        ensures
            final(self).client_addr == old(self).client_addr,
            final(self).cluster == old(self).cluster,
            final(self).downstream_tls == old(self).downstream_tls,
            final(self).request_headers_to_remove == old(self).request_headers_to_remove,
            final(self).request_headers_to_set == old(self).request_headers_to_set,
            final(self).response_headers_modified == old(self).response_headers_modified,
            final(self).request == old(self).request,
            final(self).response_header == old(self).response_header,
            final(self).request_body_bytes == old(self).request_body_bytes,
            final(self).response_body_bytes == old(self).response_body_bytes,
            final(self).upstream == old(self).upstream,
            final(self).extra_request_headers@.len() == old(self).extra_request_headers@.len() + 1,
            final(self).extra_request_headers@.drop_last() == old(self).extra_request_headers@,
            header_pairs(final(self).extra_request_headers@) == header_pairs(old(self).extra_request_headers@).push((name@, value@)),
    {
        self.extra_request_headers.push((name.to_owned(), value));
        proof {
            assert(self.extra_request_headers@.drop_last() =~= old(self).extra_request_headers@);
            assert(header_pairs(self.extra_request_headers@) =~= header_pairs(old(self).extra_request_headers@).push((name@, value@)));
        }
    }

    /// Selected cluster name, if any.
    pub fn cluster_name(&self) -> (r: Option<&str>)
        ensures
            r matches Some(s) ==> self.cluster matches Some(c) && s@ == c@,
            r is None ==> self.cluster is None,
    {
        match &self.cluster {
            Some(c) => Some(c.as_str()),
            None => None,
        }
    }

    /// Upstream peer address, if selected.
    pub fn upstream_addr(&self) -> (r: Option<&str>)
        ensures
            r matches Some(s) ==> self.upstream matches Some(u) && s@ == u.address@,
            r is None ==> self.upstream is None,
    {
        match &self.upstream {
            Some(u) => Some(u.address.as_str()),
            None => None,
        }
    }

    /// The `x-request-id` header value, if present and readable as text.
    pub fn request_id(&self) -> (r: Option<String>)
        ensures
            r matches Some(v) ==> self.request.headers.first("x-request-id"@) == Some(v@)
                && crate::message::visible_text(v@),
            r is None ==> !(self.request.headers.first("x-request-id"@) matches Some(v)
                && crate::message::visible_text(v)),
    {
        match self.request.headers.get("x-request-id") {
            Some(v) => if crate::message::is_visible_text(v.as_str()) {
                Some(v)
            } else {
                None
            },
            None => None,
        }
    }
}

/// Per-connection state shared across TCP filters.
#[derive(Debug)]
pub struct TcpFilterContext {
    /// Remote (client) address.
    pub remote_addr: String,
    /// Local (listener) address.
    pub local_addr: String,
    /// Upstream address.
    pub upstream_addr: String,
    /// Bytes received from the client.
    pub bytes_in: u64,
    /// Bytes sent to the client.
    pub bytes_out: u64,
}

} // verus!
