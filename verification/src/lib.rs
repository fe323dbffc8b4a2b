//! Client-side runtime of a capability-oriented remote object bridge.
//!
//! A host process exposes remotely invokable capabilities and hands out
//! handles (opaque server-side object references) over a local IPC channel
//! carrying `Content-Length`-framed JSON-RPC messages. This crate holds the
//! verified core of the client: the JSON value model and its codec, the
//! framing, the handle and reference-expression model, the request/response
//! and reverse-callback decision logic, the callback and cancellation
//! registries, and the lazy handle-backed collections. The unverified shell
//! that owns the socket, the environment and the user closures drives this
//! core and performs no protocol decision of its own.

pub mod ats_error_codes;
pub mod base;
pub mod bootstrap;
pub mod cancel;
pub mod client;
pub mod digits;
pub mod errors;
pub mod frame;
pub mod handle;
pub mod json;
pub mod keys;
pub mod lazy;
pub mod parse;
pub mod registry;
pub mod rpc;
pub mod ser;
