//! A verified HTTP middleware pipeline: a `Service`/`Layer` composition that
//! injects a shared backend resource handle into each request's extension
//! context before dispatching to a router of CRUD handlers.
//!
//! The pipeline core is modelled sequentially: readiness negotiation is a
//! two-state protocol (`poll_ready` / `call`) enforced by preconditions, the
//! extension context is a per-request key/value side channel, and the backend
//! connection is a resource handle whose access is serialized by an internal
//! lock.

pub mod errors;
pub mod extensions;
pub mod handle;
pub mod handlers;
pub mod ids;
pub mod laws;
pub mod router;
pub mod service;
pub mod task;
