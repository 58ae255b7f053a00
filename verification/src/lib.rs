//! One-time-read secret storage.
//!
//! A client deposits an opaque encrypted blob and may retrieve it exactly
//! once before its time-to-live expires; the server never sees plaintext.
//! This crate holds the storage core (an in-process backend and the decision
//! logic of a remote key-value backend), the per-client fixed-window rate
//! limiter, and the request-validation and error-rendering rules that the
//! HTTP layer consumes.

pub mod api;
pub mod clock;
pub mod ids;
pub mod keyed;
pub mod models;
pub mod rate_limit;
pub mod remote;
pub mod store;
