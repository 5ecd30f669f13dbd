//! A boundary layer for an external process orchestrator, together with the
//! per-run task-data store it operates on.
//!
//! The orchestrator drives a workflow run and, at defined lifecycle points,
//! calls into this library with byte buffers describing identifiers, keys and
//! values. The library validates every buffer as well-formed text before any
//! use, maps store operations over a dynamically typed key/value store, and
//! answers each call with a small integer status code.

pub mod boundary;
pub mod state;
pub mod text;
