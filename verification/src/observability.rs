//! Events for an injected observability sink.
//!
//! The engine and the layers around it report these moments to whatever
//! sink the embedding process supplies; the core keeps no ambient global
//! state of its own.

use vstd::prelude::*;

verus! {

/// A reportable moment in the life of the node.
#[derive(Clone, Copy, PartialEq, Eq, Structural, Debug)]
pub enum LogEvent {
    EpochStart,
    ModeTransition,
    BroadcastNode,
    ReceiveNode,
    Vote,
    ReceiveVote,
    BroadcastCertifiedNode,
    ReceiveCertifiedNode,
    ReceiveAck,
    OrderedAnchor,
    NewRound,
    FetchNodes,
    ReceiveFetchNodes,
    ActiveMode,
    SyncMode,
    SyncOutcome,
    Shutdown,
}

} // verus!
