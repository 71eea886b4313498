//! Incremental, stateful execution core of an interactive interpreter.
//!
//! The library accepts one already-compiled line at a time (an ordered
//! sequence of fragments), incorporates declarations into the session,
//! executes statements against the persistent binding environment, and
//! returns either a value or structured diagnostics with a rendered
//! call-stack trace for runtime failures inside nested calls.

pub mod ast;
pub mod env;
pub mod eval;
pub mod index_map;
pub mod interpret;
pub mod render;
pub mod resolve;
pub mod store;
