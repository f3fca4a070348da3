//! Makes the block stream and the controller of one subgraph, and carries
//! the controller's messages over to the stream.

use crate::block_stream::{BlockStream, DEFAULT_REORG_WINDOW};
use crate::controller::{BlockStreamController, ChannelState, ControlMessage};
use crate::laws::acknowledge_all;
use crate::manifest::SubgraphManifest;
use crate::retry::RetryPolicy;
use crate::types::{BlockPointer, H256};
use vstd::prelude::*;

verus! {

/// The hashes that the messages acknowledge, in order.
pub open spec fn acknowledged_hashes(messages: Seq<ControlMessage>) -> Seq<H256> {
    messages.map_values(|message: ControlMessage| message->block_hash)
}

/// Makes block streams for the subgraphs of one network.
#[derive(Clone, Debug)]
pub struct BlockStreamBuilder {
    network: String,
}

impl BlockStreamBuilder {
    /// The network whose chain the streams follow.
    pub closed spec fn spec_network(&self) -> Seq<char> {
        self.network@
    }

    /// A builder of streams on `network`.
    pub fn new(network: String) -> (builder: BlockStreamBuilder)
        ensures
            builder.spec_network() == network@,
    {
        BlockStreamBuilder { network }
    }

    /// The network whose chain the streams follow.
    pub fn network(&self) -> (network: &String)
        ensures
            network@ == self.spec_network(),
    {
        &self.network
    }

    /// The block stream of `manifest`'s subgraph on the builder's network,
    /// started from the persisted `checkpoint`, or from `start_block` where
    /// nothing was persisted, together with its controller, whose channel is
    /// open and empty.
    pub fn from_subgraph(
        &self,
        manifest: &SubgraphManifest,
        checkpoint: Option<BlockPointer>,
        start_block: BlockPointer,
    ) -> (made: (BlockStream, BlockStreamController))
        ensures
            made.0.wf(),
            made.0.policy() == RetryPolicy::standard(),
            made.0@.network == self.spec_network(),
            made.0@.subgraph == manifest.id@,
            made.0@.window == DEFAULT_REORG_WINDOW,
            made.0@.phase is AwaitingHead,
            made.0@.head is None,
            made.0@.attempts == 0,
            made.0@.confirmed == match checkpoint {
                Some(confirmed) => confirmed,
                None => start_block,
            },
            made.0@.checkpoint == made.0@.confirmed,
            made.0@.history == seq![made.0@.confirmed],
            made.1@ == (ChannelState { pending: Seq::empty(), closed: false }),
    {
        let stream_controller = BlockStreamController::new();
        let mut block_stream = BlockStream::new(self.network.clone(), manifest.id.clone());
        block_stream.start(checkpoint, start_block);
        (block_stream, stream_controller)
    }
}

/// Carries every message that waits in the controller's channel over to the
/// stream, oldest first, and returns the checkpoint to persist when the
/// checkpoint moved.
pub fn forward(controller: &mut BlockStreamController, stream: &mut BlockStream) -> (saved: Option<
    BlockPointer,
>)
    requires
        old(controller)@.wf(),
        old(stream).wf(),
    ensures
        final(controller)@ == (ChannelState { pending: Seq::empty(), ..old(controller)@ }),
        final(stream).wf(),
        final(stream).policy() == old(stream).policy(),
        final(stream)@ == acknowledge_all(
            old(stream)@,
            acknowledged_hashes(old(controller)@.pending),
        ),
        final(stream)@.checkpoint.number >= old(stream)@.checkpoint.number,
        saved == if final(stream)@.checkpoint != old(stream)@.checkpoint {
            Some(final(stream)@.checkpoint)
        } else {
            None
        },
{
    let ghost all = controller@.pending;
    let ghost done: Seq<ControlMessage> = Seq::empty();
    let first = stream.checkpoint();
    proof {
        assert(acknowledged_hashes(done) =~= Seq::<H256>::empty());
    }
    loop
        invariant
            controller@.wf(),
            controller@.closed == old(controller)@.closed,
            stream.wf(),
            stream.policy() == old(stream).policy(),
            all == old(controller)@.pending,
            first == old(stream)@.checkpoint,
            done + controller@.pending == all,
            stream@ == acknowledge_all(old(stream)@, acknowledged_hashes(done)),
            stream@.checkpoint.number >= first.number,
        decreases controller@.pending.len(),
    {
        let ghost waiting = controller@.pending;
        match controller.receive() {
            Some(message) => {
                let ghost before = stream@;
                stream.handle_control(message);
                proof {
                    let next = done.push(message);
                    assert(next + controller@.pending =~= done + waiting);
                    assert(acknowledged_hashes(next).drop_last() =~= acknowledged_hashes(done));
                    assert(acknowledged_hashes(next).last() == message->block_hash);
                    done = next;
                }
            },
            None => {
                proof {
                    assert(done =~= all);
                    assert(controller@.pending =~= Seq::<ControlMessage>::empty());
                }
                let last = stream.checkpoint();
                return if last != first {
                    Some(last)
                } else {
                    None
                };
            },
        }
    }
}

} // verus!
