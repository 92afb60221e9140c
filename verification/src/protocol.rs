//! The protocol vocabulary: the messages the engine consumes and emits.

use crate::chain::Block;
use vstd::prelude::*;

verus! {

/// One protocol message, exchanged over the gossip bus or between the
/// node's own tasks.
#[derive(Debug)]
pub enum P2PMessage {
    /// Ask a peer for its tip.
    QueryLatest,
    /// Ask a peer for its full chain.
    QueryAll,
    /// Carries one or more blocks: a single tip or a full chain.
    ResponseBlockchain(Vec<Block>),
    /// Ask the transport for its peer listing.
    QueryPeers,
    /// The peer listing, answering an outstanding `QueryPeers`.
    ResponsePeers(Vec<String>),
    /// Ask the transport to connect to an explicit peer address.
    AddPeer(String),
}

/// What one engine step hands back: at most one message to broadcast to the
/// network and at most one message for a front-end caller awaiting a reply.
#[derive(Debug)]
pub struct EngineOutput {
    pub publish: Option<P2PMessage>,
    pub reply: Option<P2PMessage>,
}

} // verus!
