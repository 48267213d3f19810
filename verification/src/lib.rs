//! A command-dispatch core for embedded document databases.
//!
//! Arbitrarily many concurrent callers talk to a single worker that owns a
//! registry of open database handles. Commands arrive as values of a closed
//! enum, are executed one at a time against the registry and the storage
//! engine, and each produces exactly one typed reply — except the shutdown
//! command, which stops the worker without a reply.
//!
//! This crate holds the verified core: the registry, the command protocol,
//! and the per-command dispatch step. The queue, the worker thread and the
//! asynchronous caller facade are thin plumbing around it.

pub mod engine;

pub mod daemon;
pub mod error;
pub mod protocol;
pub mod registry;

pub use error::Error;
