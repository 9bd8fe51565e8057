//! Error taxonomy of the data-transfer core.

use vstd::prelude::*;

verus! {

/// How an operation on the window engine can fail.
#[derive(Clone, Copy, Debug, PartialEq, Eq, Structural)]
pub enum Fail {
    /// The receiver or sender has been shut down; surfaced to the caller,
    /// never retried internally.
    Closed,
    /// A recoverable, expected condition (out-of-order segment, full
    /// receive window, duplicate acknowledgement): the caller drops the
    /// offending input and relies on peer retransmission.
    Ignored,
    /// An acknowledgement for bytes never sent, or a like violation of the
    /// protocol by the peer.
    ProtocolViolation,
    /// A segment exhausted its retransmission budget: the peer is
    /// considered dead and the connection must be torn down.
    PeerUnreachable,
    /// Maximum-segment-size negotiation produced an unusable value.
    NegotiationFailure,
}

} // verus!
