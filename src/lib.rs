//! Client-side core of the Tor protocol: flow-control windows, path
//! selection, wire codec primitives and Ed25519 identity handling.

pub mod bytes;
mod ct;
pub mod ed25519;
pub mod error;
pub mod net;
pub mod path;
pub mod relay;
pub mod sendme;
