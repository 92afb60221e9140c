//! The reconciliation engine: consumes protocol messages one at a time,
//! applies the tie-break policy against the ledger, mutates the chain, and
//! says what to publish or reply.

use crate::chain::{
    block_hash_ok, clone_blocks, lemma_chain_indices, valid_chain, valid_successor, Block, Chain,
};
use crate::protocol::{EngineOutput, P2PMessage};
use vstd::prelude::*;

verus! {

/// What the reconciliation policy decides for a received run of blocks.
#[derive(Debug, PartialEq, Eq, Structural)]
pub enum ReconStep {
    /// Ours is at least as long: do nothing.
    Ignore,
    /// The received tip directly continues our chain: append it.
    Append,
    /// A bare tip we cannot link: ask the sender for its full chain.
    RequestAll,
    /// A strictly longer valid chain: adopt it wholesale.
    Replace,
    /// Malformed or invalid: drop it, mutate nothing.
    Reject,
}

/// The tie-break policy, deciding what a non-empty local chain does with a
/// received run of blocks: strictly-longer, strictly-valid chains win; equal
/// length never replaces.
pub open spec fn recon_step(local: Seq<Block>, received: Seq<Block>) -> ReconStep {
    if received.len() == 0 {
        ReconStep::Reject
    } else if received.last().index <= local.last().index {
        ReconStep::Ignore
    } else if local.last().hash@ == received.last().previous_hash@ {
        if valid_successor(received.last(), local.last()) {
            ReconStep::Append
        } else {
            ReconStep::Reject
        }
    } else if received.len() == 1 {
        ReconStep::RequestAll
    } else if valid_chain(received) && local.len() < received.len() {
        ReconStep::Replace
    } else {
        ReconStep::Reject
    }
}

/// Runs the reconciliation policy for a received run of blocks.
fn reconcile(chain: &mut Chain, received: Vec<Block>) -> (out: EngineOutput)
    requires
        old(chain).chains@.len() >= 1,
        old(chain).next_index < usize::MAX,
    ensures
        old(chain).wf() ==> final(chain).wf(),
        out.reply is None,
        ({
            let step = recon_step(old(chain).chains@, received@);
            &&& ((step is Ignore || step is Reject) ==> (*final(chain) == *old(chain)
                && out.publish is None))
            &&& (step is Append ==> {
                &&& final(chain).chains@ == old(chain).chains@.push(received@.last())
                &&& final(chain).next_index == old(chain).next_index + 1
                &&& (out.publish matches Some(P2PMessage::ResponseBlockchain(bs)) && bs@ == seq![
                    received@.last(),
                ])
            })
            &&& (step is RequestAll ==> (*final(chain) == *old(chain) && out.publish == Some(
                P2PMessage::QueryAll,
            )))
            &&& (step is Replace ==> {
                &&& final(chain).chains@ == received@
                &&& final(chain).next_index == received@.len()
                &&& final(chain).wf()
                &&& (out.publish matches Some(P2PMessage::ResponseBlockchain(bs)) && bs@
                    == received@)
            })
        }),
{
    if received.len() == 0 {
        return EngineOutput { publish: None, reply: None };
    }
    let our_tip = chain.chains[chain.chains.len() - 1].clone();
    let their_tip = received[received.len() - 1].clone();
    if their_tip.index <= our_tip.index {
        EngineOutput { publish: None, reply: None }
    } else if our_tip.hash == their_tip.previous_hash {
        if Chain::is_valid_new_block(&their_tip, &our_tip) {
            chain.add_block(their_tip.clone());
            let mut tip_run: Vec<Block> = Vec::new();
            tip_run.push(their_tip);
            EngineOutput { publish: Some(P2PMessage::ResponseBlockchain(tip_run)), reply: None }
        } else {
            EngineOutput { publish: None, reply: None }
        }
    } else if received.len() == 1 {
        EngineOutput { publish: Some(P2PMessage::QueryAll), reply: None }
    } else {
        let candidate = clone_blocks(&received);
        if chain.replace_block_chain(candidate) {
            EngineOutput { publish: Some(P2PMessage::ResponseBlockchain(received)), reply: None }
        } else {
            EngineOutput { publish: None, reply: None }
        }
    }
}

/// Feeds one protocol message into the engine: queries are answered from the
/// local chain, peer bookkeeping messages are forwarded, and a received run
/// of blocks goes through the reconciliation policy.
pub fn apply(chain: &mut Chain, msg: P2PMessage) -> (out: EngineOutput)
    requires
        old(chain).chains@.len() >= 1,
        old(chain).next_index < usize::MAX,
    ensures
        old(chain).wf() ==> final(chain).wf(),
        msg is QueryAll ==> (*final(chain) == *old(chain) && out.reply is None && (out.publish
            matches Some(P2PMessage::ResponseBlockchain(bs)) && bs@ == old(chain).chains@)),
        msg is QueryLatest ==> (*final(chain) == *old(chain) && out.reply is None && (out.publish
            matches Some(P2PMessage::ResponseBlockchain(bs)) && bs@ == seq![
            old(chain).chains@.last(),
        ])),
        msg is QueryPeers ==> (*final(chain) == *old(chain) && out.reply is None && out.publish
            == Some(msg)),
        msg is ResponsePeers ==> (*final(chain) == *old(chain) && out.publish is None && out.reply
            == Some(msg)),
        msg is AddPeer ==> (*final(chain) == *old(chain) && out.reply is None && out.publish
            == Some(msg)),
        msg matches P2PMessage::ResponseBlockchain(received) ==> {
            let step = recon_step(old(chain).chains@, received@);
            &&& out.reply is None
            &&& ((step is Ignore || step is Reject) ==> (*final(chain) == *old(chain)
                && out.publish is None))
            &&& (step is Append ==> {
                &&& final(chain).chains@ == old(chain).chains@.push(received@.last())
                &&& final(chain).next_index == old(chain).next_index + 1
                &&& (out.publish matches Some(P2PMessage::ResponseBlockchain(bs)) && bs@ == seq![
                    received@.last(),
                ])
            })
            &&& (step is RequestAll ==> (*final(chain) == *old(chain) && out.publish == Some(
                P2PMessage::QueryAll,
            )))
            &&& (step is Replace ==> {
                &&& final(chain).chains@ == received@
                &&& final(chain).next_index == received@.len()
                &&& final(chain).wf()
                &&& (out.publish matches Some(P2PMessage::ResponseBlockchain(bs)) && bs@
                    == received@)
            })
        },
{
    match msg {
        P2PMessage::QueryAll => {
            let snap = clone_blocks(&chain.chains);
            EngineOutput { publish: Some(P2PMessage::ResponseBlockchain(snap)), reply: None }
        },
        P2PMessage::QueryLatest => {
            let tip = chain.chains[chain.chains.len() - 1].clone();
            let mut tip_run: Vec<Block> = Vec::new();
            tip_run.push(tip);
            EngineOutput { publish: Some(P2PMessage::ResponseBlockchain(tip_run)), reply: None }
        },
        P2PMessage::QueryPeers => EngineOutput {
            publish: Some(P2PMessage::QueryPeers),
            reply: None,
        },
        P2PMessage::ResponsePeers(peers) => EngineOutput {
            publish: None,
            reply: Some(P2PMessage::ResponsePeers(peers)),
        },
        P2PMessage::AddPeer(addr) => EngineOutput {
            publish: Some(P2PMessage::AddPeer(addr)),
            reply: None,
        },
        P2PMessage::ResponseBlockchain(received) => reconcile(chain, received),
    }
}

/// A received single-block tip at the next free index, linking to our tip's
/// hash and carrying a hash that recomputes, is classified as a direct
/// continuation and appended.
pub proof fn lemma_direct_continuation_appends(local: Seq<Block>, b: Block)
    requires
        valid_chain(local),
        b.index == local.len(),
        b.previous_hash@ == local.last().hash@,
        block_hash_ok(b),
    ensures
        recon_step(local, seq![b]) is Append,
{
    lemma_chain_indices(local);
    assert(local.last() == local[local.len() - 1]);
    assert(seq![b].last() == b);
}

/// A received single-block tip above our tip's index that does not link to
/// our tip's hash makes the engine request the sender's full chain.
pub proof fn lemma_unlinked_tip_requests_all(local: Seq<Block>, b: Block)
    requires
        local.len() >= 1,
        b.index > local.last().index,
        b.previous_hash@ != local.last().hash@,
    ensures
        recon_step(local, seq![b]) is RequestAll,
{
    assert(seq![b].last() == b);
}

/// A received valid chain strictly longer than ours, whose tip does not link
/// directly to our tip, is adopted wholesale. The hypothesis that the tips
/// do not link leaves out digest collisions, which the hash model cannot
/// rule out.
pub proof fn lemma_longer_valid_chain_replaces(local: Seq<Block>, received: Seq<Block>)
    requires
        valid_chain(local),
        valid_chain(received),
        local.len() < received.len(),
        local.last().hash@ != received.last().previous_hash@,
    ensures
        recon_step(local, received) is Replace,
{
    lemma_chain_indices(local);
    lemma_chain_indices(received);
    assert(local.last() == local[local.len() - 1]);
    assert(received.last() == received[received.len() - 1]);
}

/// Equal length never replaces: a received valid chain of the same length as
/// our valid chain is ignored, preventing oscillation between equally long
/// forks.
pub proof fn lemma_no_replacement_on_tie(local: Seq<Block>, received: Seq<Block>)
    requires
        valid_chain(local),
        valid_chain(received),
        local.len() == received.len(),
    ensures
        recon_step(local, received) is Ignore,
{
    lemma_chain_indices(local);
    lemma_chain_indices(received);
    assert(local.last() == local[local.len() - 1]);
    assert(received.last() == received[received.len() - 1]);
}

/// Authors a new block over the given payload, appends it to the chain, and
/// returns it for response rendering and for broadcasting.
pub fn mine(chain: &mut Chain, timestamp: u64, data: &str) -> (b: Block)
    requires
        old(chain).chains@.len() >= 1,
        old(chain).next_index < usize::MAX,
        old(chain).next_index == old(chain).chains@.last().index + 1,
    ensures
        b.index == old(chain).next_index,
        b.previous_hash@ == old(chain).chains@.last().hash@,
        b.timestamp == timestamp,
        b.data@ == data@,
        block_hash_ok(b),
        final(chain).chains@ == old(chain).chains@.push(b),
        final(chain).next_index == old(chain).next_index + 1,
        old(chain).wf() ==> final(chain).wf(),
{
    let previous_hash = chain.chains[chain.chains.len() - 1].hash.clone();
    let index = chain.next_index;
    let new_block = Block::new(index, previous_hash.as_str(), timestamp, data);
    chain.add_block(new_block.clone());
    new_block
}

} // verus!
