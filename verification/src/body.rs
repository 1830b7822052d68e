//! Body access declarations, buffering, and capability computation.

use vstd::prelude::*;
use crate::text::{push_decimal, push_str, decimal};

verus! {

/// Declares whether a filter needs access to request or response bodies.
#[derive(Debug, Clone, Copy, PartialEq, Eq, Structural)]
pub enum BodyAccess {
    /// No body access needed.
    NoAccess,
    /// Read-only access.
    ReadOnly,
    /// Read-write access.
    ReadWrite,
}

impl Default for BodyAccess {
    fn default() -> (r: Self)
        ensures
            r == BodyAccess::NoAccess,
    {
        BodyAccess::NoAccess
    }
}

/// Controls how body chunks are delivered to a filter.
#[derive(Debug, Clone, Copy, PartialEq, Eq, Structural)]
pub enum BodyMode {
    /// Deliver chunks as they arrive.
    Stream,
    /// Buffer the entire body, then deliver it in a single call.
    Buffer {
        /// Maximum body size in bytes.
        max_bytes: usize,
    },
    /// Deliver chunks incrementally but defer upstream forwarding until a
    /// filter releases the body or the stream ends.
    StreamBuffer {
        /// Optional maximum body size in bytes. `None` means no limit.
        max_bytes: Option<usize>,
    },
}

impl Default for BodyMode {
    fn default() -> (r: Self)
        ensures
            r == BodyMode::Stream,
    {
        BodyMode::Stream
    }
}

/// Pre-computed body processing capabilities for a pipeline.
#[derive(Debug, Clone, Copy, PartialEq, Eq, Structural)]
pub struct BodyCapabilities {
    /// Whether any filter writes to the request body.
    pub any_request_body_writer: bool,
    /// Whether any filter writes to the response body.
    pub any_response_body_writer: bool,
    /// Whether any filter needs request body access.
    pub needs_request_body: bool,
    /// Whether any filter needs the incoming request context during body phases.
    pub needs_request_context: bool,
    /// Whether any filter needs response body access.
    pub needs_response_body: bool,
    /// Resolved request body mode.
    pub request_body_mode: BodyMode,
    /// Resolved response body mode.
    pub response_body_mode: BodyMode,
}

impl BodyCapabilities {
    /// The capabilities of a pipeline that touches no body.
    pub open spec fn none() -> Self {
        BodyCapabilities {
            any_request_body_writer: false,
            any_response_body_writer: false,
            needs_request_body: false,
            needs_request_context: false,
            needs_response_body: false,
            request_body_mode: BodyMode::Stream,
            response_body_mode: BodyMode::Stream,
        }
    }
}

impl Default for BodyCapabilities {
    fn default() -> (r: Self)
        ensures
            r == BodyCapabilities::none(),
    {
        BodyCapabilities {
            any_request_body_writer: false,
            any_response_body_writer: false,
            needs_request_body: false,
            needs_request_context: false,
            needs_response_body: false,
            request_body_mode: BodyMode::Stream,
            response_body_mode: BodyMode::Stream,
        }
    }
}

/// Concatenation of a sequence of chunks.
pub open spec fn flatten(chunks: Seq<Seq<u8>>) -> Seq<u8>
    decreases chunks.len(),
{
    if chunks.len() == 0 {
        Seq::empty()
    } else {
        flatten(chunks.drop_last()) + chunks.last()
    }
}

/// Accumulates body chunks for buffer mode delivery.
#[derive(Debug)]
pub struct BodyBuffer {
    chunks: Vec<Vec<u8>>,
    max_bytes: usize,
    total_bytes: usize,
}

/// Error returned when a body buffer exceeds its size limit.
#[derive(Debug, Clone, Copy, PartialEq, Eq, Structural)]
pub struct BodyBufferOverflow {
    /// The size that was attempted.
    pub attempted: usize,
    /// The configured maximum.
    pub limit: usize,
}

impl BodyBufferOverflow {
    /// The human-readable error message.
    pub open spec fn spec_message(&self) -> Seq<char> {
        "body exceeds maximum size: "@ + decimal(self.attempted as nat) + " bytes attempted, "@
            + decimal(self.limit as nat) + " byte limit"@
    }

    /// The human-readable error message.
    pub fn to_string(&self) -> (r: String)
        ensures
            r@ == self.spec_message(),
    {
        let mut s = String::new();
        push_str(&mut s, "body exceeds maximum size: ");
        push_decimal(&mut s, self.attempted as u64);
        push_str(&mut s, " bytes attempted, ");
        push_decimal(&mut s, self.limit as u64);
        push_str(&mut s, " byte limit");
        s
    }
}

impl BodyBuffer {
    /// The bytes accumulated so far, in order.
    pub closed spec fn content(&self) -> Seq<u8> {
        flatten(self.chunks@.map_values(|c: Vec<u8>| c@))
    }

    /// The configured limit.
    pub closed spec fn limit(&self) -> usize {
        self.max_bytes
    }

    /// The running total matches the content, which fits the limit.
    pub closed spec fn wf(&self) -> bool {
        self.total_bytes == self.content().len() && self.total_bytes <= self.max_bytes
    }

    /// A well-formed buffer never holds more bytes than its limit.
    pub proof fn content_within_limit(&self)
        requires
            self.wf(),
        ensures
            self.content().len() <= self.limit(),
    {
    }

    /// Create a new, empty buffer with the given size limit.
    pub fn new(max_bytes: usize) -> (r: Self)
        ensures
            r.wf(),
            r.content() == Seq::<u8>::empty(),
            r.limit() == max_bytes,
    {
        let r = BodyBuffer { chunks: Vec::new(), max_bytes, total_bytes: 0 };
        assert(r.chunks@.map_values(|c: Vec<u8>| c@) =~= Seq::<Seq<u8>>::empty());
        r
    }

    /// Append a chunk. Fails, leaving the buffer unchanged, exactly when the
    /// new total would exceed the limit.
    pub fn push(&mut self, chunk: Vec<u8>) -> (r: Result<(), BodyBufferOverflow>)
        requires
            old(self).wf(),
            old(self).content().len() + chunk@.len() <= usize::MAX,
        ensures
            final(self).wf(),
            final(self).limit() == old(self).limit(),
            final(self).content().len() <= final(self).limit(),
            old(self).content().len() + chunk@.len() <= old(self).limit() ==> r is Ok
                && final(self).content() == old(self).content() + chunk@,
            old(self).content().len() + chunk@.len() > old(self).limit() ==> r == Err::<(), BodyBufferOverflow>(
                BodyBufferOverflow {
                    limit: old(self).limit(),
                    attempted: (old(self).content().len() + chunk@.len()) as usize,
                })
                && final(self).content() == old(self).content(),
    {
        let new_total = self.total_bytes + chunk.len();
        if new_total > self.max_bytes {
            return Err(BodyBufferOverflow { limit: self.max_bytes, attempted: new_total });
        }
        let ghost pre = self.chunks@.map_values(|c: Vec<u8>| c@);
        self.total_bytes = new_total;
        self.chunks.push(chunk);
        proof {
            let post = self.chunks@.map_values(|c: Vec<u8>| c@);
            assert(post.drop_last() =~= pre);
        }
        Ok(())
    }

    /// Total bytes accumulated so far.
    pub fn total_bytes(&self) -> (r: usize)
        requires
            self.wf(),
        ensures
            r == self.content().len(),
    {
        self.total_bytes
    }

    /// Consume the buffer and return the accumulated bytes as one sequence.
    pub fn freeze(self) -> (r: Vec<u8>)
        requires
            self.wf(),
        ensures
            r@ == self.content(),
    {
        let ghost all = self.chunks@.map_values(|c: Vec<u8>| c@);
        let mut combined: Vec<u8> = Vec::new();
        let mut i: usize = 0;
        while i < self.chunks.len()
            invariant
                i <= self.chunks@.len(),
                all == self.chunks@.map_values(|c: Vec<u8>| c@),
                combined@ == flatten(all.subrange(0, i as int)),
            decreases self.chunks@.len() - i,
        {
            let chunk = &self.chunks[i];
            let mut j: usize = 0;
            let ghost base = combined@;
            while j < chunk.len()
                invariant
                    j <= chunk@.len(),
                    combined@ == base + chunk@.subrange(0, j as int),
                decreases chunk@.len() - j,
            {
                combined.push(chunk[j]);
                assert(chunk@.subrange(0, j + 1) =~= chunk@.subrange(0, j as int).push(chunk@[j as int]));
                j = j + 1;
            }
            proof {
                assert(chunk@.subrange(0, chunk@.len() as int) =~= chunk@);
                assert(all.subrange(0, i + 1).drop_last() =~= all.subrange(0, i as int));
                assert(all.subrange(0, i + 1).last() == chunk@);
            }
            i = i + 1;
        }
        assert(all.subrange(0, all.len() as int) =~= all);
        combined
    }
}

} // verus!
