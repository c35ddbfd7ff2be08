//! Errors raised by the protocol core.
use vstd::prelude::*;

verus! {

/// An error from the protocol core.
#[derive(Debug, Clone, PartialEq, Eq)]
pub enum Error {
    /// Path construction attempted without a live directory.
    NeedConsensus,
    /// No candidate relay satisfies the constraints.
    NoRelays(&'static str),
    /// A wire-format parse failure.
    BadMessage(&'static str),
    /// A protocol violation on a live circuit or stream.
    CircProto(&'static str),
}

} // verus!
