//! Request-dispatch core of an HTTP service.
//!
//! The library is the composition kernel of a small web service: an exact-match
//! router over a fixed route table, a middleware chain that injects a
//! per-worker context and stamps a fixed `Server` header, and six terminal
//! handlers that build complete responses, serializing JSON bodies into a
//! reusable per-worker scratch buffer.
//!
//! The byte-level HTTP transport, the database client and the HTML template
//! renderer are external collaborators: the pipeline is split so that every
//! decision and every byte of a produced response is computed and verified
//! here, while the collaborators' results enter as plain values.

pub mod error;
pub mod http;
pub mod pipeline;
pub mod query;
pub mod router;
pub mod ser;
pub mod state;
pub mod text;
