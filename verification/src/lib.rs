//! Core logic of a connector node: a stateful edge gateway that holds
//! per-user sessions, routes typed requests to backend services chosen on a
//! consistent-hash ring, and accepts push deliveries addressed to a connected
//! user.
//!
//! The crate verifies the node's decision logic: the hash ring, the registry
//! store, the wire codec, the session state machine, and the dispatch and
//! routing rules. Network transports (HTTP, WebSocket, gRPC, the cache and
//! directory clients) are driven by a thin unverified shell that feeds plain
//! values into these functions and carries their answers back out.

pub mod cache;
pub mod codec;
pub mod config;
pub mod consistent_hash;
pub mod dispatch;
pub mod hashing;
pub mod message;
pub mod model;
pub mod registry;
pub mod result;
pub mod router;
pub mod rsp_codec;
pub mod session;
pub mod text;
pub mod upstream;
