//! Per-worker shared state and the per-request context.
//!
//! A worker owns one `SharedState` for its lifetime and checks it out into a
//! `Context` for the span of exactly one call; the pipeline hands it back with
//! the response on every path, success or failure, so the checkout can never
//! leak. The database client handle the worker also owns stays with the
//! worker: only the collaborator ever touches it.

use vstd::prelude::*;

use crate::http::Request;

verus! {

/// Per-worker, long-lived resources: the reusable serialization buffer.
pub struct SharedState {
    pub write_buf: Vec<u8>,
}

impl SharedState {
    /// A fresh worker state with an empty scratch buffer.
    pub fn new() -> (s: SharedState)
        ensures
            s.write_buf@ == Seq::<u8>::empty(),
    {
        SharedState { write_buf: Vec::new() }
    }
}

/// One request bound to the worker state it has checked out.
pub struct Context {
    pub request: Request,
    pub state: SharedState,
}

impl Context {
    /// Bind an inbound request to the worker's state (context injection).
    pub fn new(request: Request, state: SharedState) -> (c: Context)
        ensures
            c.request == request,
            c.state == state,
    {
        Context { request, state }
    }

    /// One-way destructuring, consumed by exactly one terminal handler.
    pub fn into_parts(self) -> (r: (Request, SharedState))
        ensures
            r.0 == self.request,
            r.1 == self.state,
    {
        (self.request, self.state)
    }
}

} // verus!
