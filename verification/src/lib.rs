//! Core logic of an HTTP/WebSocket gateway that fronts a cluster-management
//! control plane: request validation, per-site backend dispatch, the
//! console/log-tail stream bridge, and bounded-concurrency fan-out.
//!
//! Network transport, configuration files and the concrete management-plane
//! clients live outside this crate; everything here works on plain values and
//! carries a verified contract.

pub mod auth;
pub mod bridge;
pub mod config;
pub mod dispatcher;
pub mod encoding;
pub mod error;
pub mod fanout;
pub mod query;
pub mod session;
