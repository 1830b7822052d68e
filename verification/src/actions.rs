//! Filter return types: continue processing or reject with a response.

use vstd::prelude::*;

verus! {

/// Result of a filter's request or response processing.
#[derive(Debug)]
pub enum FilterAction {
    /// Continue to the next filter in the pipeline.
    Continue,
    /// Stop processing and respond with the given rejection.
    Reject(Rejection),
    /// Release accumulated body data upstream; behaves as `Continue`
    /// outside of stream-buffer body delivery.
    Release,
}

/// A filter rejection response.
#[derive(Debug)]
pub struct Rejection {
    /// Response body.
    pub body: Option<Vec<u8>>,
    /// Response headers, in the order they were added.
    pub headers: Vec<(String, String)>,
    /// HTTP status code.
    pub status: u16,
}

impl Rejection {
    /// Create a rejection with the given status code, no headers and no body.
    pub fn status(code: u16) -> (r: Self)
        ensures
            r.status == code,
            r.headers@.len() == 0,
            r.body is None,
    {
        Rejection { status: code, headers: Vec::new(), body: None }
    }

    /// Append a header to the rejection response.
    pub fn with_header(self, name: &str, value: &str) -> (r: Self)
        ensures
            r.status == self.status,
            r.body == self.body,
            r.headers@.len() == self.headers@.len() + 1,
            forall|i: int| 0 <= i < self.headers@.len() ==> r.headers@[i] == self.headers@[i],
            r.headers@.last().0@ == name@,
            r.headers@.last().1@ == value@,
    {
        let mut s = self;
        s.headers.push((name.to_owned(), value.to_owned()));
        s
    }

    /// Set the rejection response body.
    pub fn with_body(self, body: Vec<u8>) -> (r: Self)
        ensures
            r.status == self.status,
            r.headers == self.headers,
            r.body == Some(body),
    {
        let mut s = self;
        s.body = Some(body);
        s
    }
}

} // verus!
