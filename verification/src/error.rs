//! The error taxonomy of the dispatch core.
//!
//! `RouteNotFound` and `MethodNotAllowed` are produced by the router alone;
//! the remaining kinds report a collaborator failure inside a handler. A
//! malformed count parameter is never an error: it silently defaults. The
//! transport layer owns turning any of these into a wire response.

use vstd::prelude::*;

verus! {

/// Everything the pipeline can fail with.
#[derive(Clone, Copy, PartialEq, Eq, Structural, Debug)]
pub enum Error {
    /// No route entry carries the request's path.
    RouteNotFound,
    /// Some entry carries the path, but none with the request's method.
    MethodNotAllowed,
    /// The database collaborator failed.
    Upstream,
    /// The template collaborator failed.
    Render,
    /// A body could not be serialized. The core's own serializer is total,
    /// so the pipeline never reports this kind itself; it stands in the
    /// taxonomy for a serializing collaborator at the transport boundary.
    Serialization,
}

} // verus!
