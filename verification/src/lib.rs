//! The core of a text-chat relay: a registry of connected clients that fans
//! every line of text out to all members but its sender, and the
//! per-connection worker that turns what a connection does into events.
//!
//! Nothing in this crate performs I/O. Both components are state machines:
//! the caller performs the reads and writes they ask for and feeds the
//! results back in.
//!
//! - [`address`]: the identity of a connection.
//! - [`text`]: the fixed lines of the protocol, and the texts made of what
//!   clients send.
//! - [`event`]: what goes into the registry and what comes out of it.
//! - [`model`]: the registry as a transition on sequences of members.
//! - [`registry`]: the registry itself, proved to follow the model.
//! - [`worker`]: the worker of one connection, and its model.
//! - [`laws`]: what holds of both, whatever happens.

pub mod address;
pub mod text;
pub mod event;
pub mod model;
pub mod registry;
pub mod worker;
pub mod laws;
