//! Core of a lattice message bus: peers exchange request/response invocations
//! over a publish/subscribe transport, and a router hands each received
//! invocation to the worker registered for its subject.
//!
//! The crate holds the decisions and the data; the transport itself, the wire
//! codec and the process environment belong to the caller.

pub mod channel;
pub mod config;
pub mod decimal;
pub mod handler;
pub mod invocation;
pub mod lattice;
pub mod router;
pub mod table;
pub mod text;
