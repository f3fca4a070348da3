//! The block stream: the executable state machine that turns head
//! notifications and the answers of the chain client into an ordered sequence
//! of blocks and reverts.

use crate::controller::ControlMessage;
use crate::history::{lemma_newest_with_hash, History};
use crate::model::{
    lemma_linked_numbers, lemma_step_preserves_wf, Action, FatalKind, Phase, StreamEvent,
    StreamItem, StreamState,
};
use crate::retry::{backoff_delay, RetryPolicy};
use crate::types::{BlockPointer, H256};
use vstd::prelude::*;

verus! {

/// The number of block pointers a stream retains unless told otherwise.
pub const DEFAULT_REORG_WINDOW: usize = 256;

/// The block stream of one subgraph on one network.
pub struct BlockStream {
    network: String,
    subgraph: String,
    phase: Phase,
    confirmed: BlockPointer,
    history: History,
    head: Option<BlockPointer>,
    cursor: usize,
    checkpoint: BlockPointer,
    attempts: u32,
    policy: RetryPolicy,
}

impl View for BlockStream {
    type V = StreamState;

    closed spec fn view(&self) -> StreamState {
        StreamState {
            network: self.network@,
            subgraph: self.subgraph@,
            phase: self.phase,
            confirmed: self.confirmed,
            history: self.history@,
            window: self.history.spec_capacity(),
            head: self.head,
            cursor: self.cursor as nat,
            checkpoint: self.checkpoint,
            attempts: self.attempts as nat,
            max_attempts: self.policy.max_attempts as nat,
        }
    }
}

impl BlockStream {
    /// The retry policy the stream was made with.
    pub closed spec fn policy(&self) -> RetryPolicy {
        self.policy
    }

    /// The representation holds its own invariant.
    pub closed spec fn repr_wf(&self) -> bool {
        self.history.wf()
    }

    /// The stream is well formed: its representation and its state are.
    pub open spec fn wf(&self) -> bool {
        self.repr_wf() && self@.wf() && self@.max_attempts == self.policy().max_attempts
    }

    /// A stream for `subgraph` on `network` that retains
    /// `DEFAULT_REORG_WINDOW` block pointers and retries by the standard
    /// policy. It is not started yet.
    pub fn new(network: String, subgraph: String) -> (stream: BlockStream)
        ensures
            stream.wf(),
            stream@.phase is Uninitialized,
            stream@.network == network@,
            stream@.subgraph == subgraph@,
            stream@.window == DEFAULT_REORG_WINDOW,
            stream@.attempts == 0,
            stream.policy() == RetryPolicy::standard(),
    {
        BlockStream {
            network,
            subgraph,
            phase: Phase::Uninitialized,
            confirmed: BlockPointer { number: 0, hash: H256::zero(), parent_hash: H256::zero() },
            history: History::new(DEFAULT_REORG_WINDOW),
            head: None,
            cursor: 0,
            checkpoint: BlockPointer { number: 0, hash: H256::zero(), parent_hash: H256::zero() },
            attempts: 0,
            policy: RetryPolicy::standard(),
        }
    }

    /// A stream that retains `window` block pointers and retries by `policy`;
    /// `None` when the window is zero, since the stream must retain at least
    /// the block it is anchored at.
    pub fn with_config(network: String, subgraph: String, window: usize, policy: RetryPolicy) -> (made:
        Option<BlockStream>)
        ensures
            made is Some <==> window >= 1,
            made matches Some(stream) ==> {
                &&& stream.wf()
                &&& stream@.phase is Uninitialized
                &&& stream@.network == network@
                &&& stream@.subgraph == subgraph@
                &&& stream@.window == window
                &&& stream@.attempts == 0
                &&& stream.policy() == policy
            },
    {
        if window == 0 {
            return None;
        }
        Some(
            BlockStream {
                network,
                subgraph,
                phase: Phase::Uninitialized,
                confirmed: BlockPointer {
                    number: 0,
                    hash: H256::zero(),
                    parent_hash: H256::zero(),
                },
                history: History::new(window),
                head: None,
                cursor: 0,
                checkpoint: BlockPointer {
                    number: 0,
                    hash: H256::zero(),
                    parent_hash: H256::zero(),
                },
                attempts: 0,
                policy,
            },
        )
    }

    /// Starts an unstarted stream from the persisted checkpoint, or from
    /// `start_block` where nothing was persisted, and says whether it did;
    /// a stream that was started before is left as it is.
    pub fn start(&mut self, checkpoint: Option<BlockPointer>, start_block: BlockPointer) -> (started:
        bool)
        requires
            old(self).wf(),
        ensures
            final(self).wf(),
            final(self).policy() == old(self).policy(),
            started == (old(self)@.phase is Uninitialized),
            final(self)@ == if started {
                old(self)@.started(
                    match checkpoint {
                        Some(confirmed) => confirmed,
                        None => start_block,
                    },
                )
            } else {
                old(self)@
            },
    {
        if self.phase != Phase::Uninitialized {
            return false;
        }
        let origin = match checkpoint {
            Some(confirmed) => confirmed,
            None => start_block,
        };
        self.history.push(origin);
        self.phase = Phase::AwaitingHead;
        self.confirmed = origin;
        self.head = None;
        self.cursor = 0;
        self.checkpoint = origin;
        self.attempts = 0;
        proof {
            assert(self.history@ =~= seq![origin]);
        }
        true
    }

    fn fail(&mut self, kind: FatalKind) -> (item: Option<StreamItem>)
        requires
            old(self).wf(),
        ensures
            final(self).repr_wf(),
            final(self).policy() == old(self).policy(),
            final(self)@ == old(self)@.fail(kind).0,
            item == old(self)@.fail(kind).1,
    {
        self.phase = Phase::Closed;
        Some(StreamItem::FatalError(kind))
    }

    fn on_head(&mut self, head: BlockPointer) -> (item: Option<StreamItem>)
        requires
            old(self).wf(),
            old(self)@.phase is AwaitingHead,
        ensures
            final(self).repr_wf(),
            final(self).policy() == old(self).policy(),
            final(self)@ == old(self)@.on_head(head).0,
            item == old(self)@.on_head(head).1,
    {
        if head.number > self.confirmed.number {
            self.head = Some(head);
            self.cursor = self.history.len() - 1;
            self.attempts = 0;
            return None;
        }
        proof {
            self.history.lemma_bounded();
        }
        let oldest = self.history.get(0).unwrap();
        if head.number < oldest.number {
            return self.fail(FatalKind::UnboundedReorg);
        }
        proof {
            lemma_linked_numbers(self@.history, 0, self@.history.len() - 1);
        }
        let k: usize = (head.number - oldest.number) as usize;
        let entry = self.history.get(k).unwrap();
        if entry.hash == head.hash {
            self.attempts = 0;
            None
        } else if k == 0 {
            self.fail(FatalKind::UnboundedReorg)
        } else {
            self.phase = Phase::Reconciling;
            self.head = Some(head);
            self.cursor = k - 1;
            self.attempts = 0;
            None
        }
    }

    fn on_ancestor(&mut self, ancestor: BlockPointer) -> (item: Option<StreamItem>)
        requires
            old(self).wf(),
            old(self)@.phase is AwaitingHead || old(self)@.phase is Reconciling,
            old(self)@.head is Some,
        ensures
            final(self).repr_wf(),
            final(self).policy() == old(self).policy(),
            final(self)@ == old(self)@.on_ancestor(ancestor).0,
            item == old(self)@.on_ancestor(ancestor).1,
    {
        proof {
            self.history.lemma_bounded();
        }
        let candidate = self.history.get(self.cursor).unwrap();
        if ancestor.number != candidate.number {
            self.fail(FatalKind::ChainStore)
        } else if ancestor.hash == candidate.hash {
            if self.phase == Phase::AwaitingHead {
                self.phase = Phase::Advancing;
                self.attempts = 0;
                None
            } else {
                self.history.truncate(self.cursor + 1);
                self.phase = Phase::Advancing;
                self.confirmed = candidate;
                if self.checkpoint.number > candidate.number {
                    self.checkpoint = candidate;
                }
                self.attempts = 0;
                Some(StreamItem::Revert(candidate))
            }
        } else if self.cursor == 0 {
            self.fail(FatalKind::UnboundedReorg)
        } else {
            self.phase = Phase::Reconciling;
            self.cursor = self.cursor - 1;
            self.attempts = 0;
            None
        }
    }

    fn on_block(&mut self, block: BlockPointer) -> (item: Option<StreamItem>)
        requires
            old(self).wf(),
            old(self)@.phase is Advancing,
        ensures
            final(self).repr_wf(),
            final(self).policy() == old(self).policy(),
            final(self)@ == old(self)@.on_block(block).0,
            item == old(self)@.on_block(block).1,
    {
        if block.is_child_of(&self.confirmed) {
            let caught_up = match self.head {
                Some(head) => block.number >= head.number,
                None => true,
            };
            self.history.push(block);
            self.confirmed = block;
            self.attempts = 0;
            if caught_up {
                self.phase = Phase::AwaitingHead;
                self.head = None;
            }
            Some(StreamItem::Block(block))
        } else {
            self.phase = Phase::AwaitingHead;
            self.cursor = self.history.len() - 1;
            self.attempts = 0;
            None
        }
    }

    fn on_transient_failure(&mut self) -> (item: Option<StreamItem>)
        requires
            old(self).wf(),
        ensures
            final(self).repr_wf(),
            final(self).policy() == old(self).policy(),
            final(self)@ == old(self)@.on_transient_failure().0,
            item == old(self)@.on_transient_failure().1,
    {
        if self.policy.max_attempts == 0 || self.attempts >= self.policy.max_attempts - 1 {
            self.fail(FatalKind::RetriesExhausted)
        } else {
            self.attempts = self.attempts + 1;
            None
        }
    }

    fn is_running(&self) -> (r: bool)
        ensures
            r == self@.running(),
    {
        self.phase == Phase::AwaitingHead || self.phase == Phase::Advancing || self.phase
            == Phase::Reconciling
    }

    /// Takes one event and returns the item that the transition emits, if
    /// any. An event that the stream does not wait for changes nothing.
    pub fn handle(&mut self, event: StreamEvent) -> (item: Option<StreamItem>)
        requires
            old(self).wf(),
        ensures
            final(self).wf(),
            final(self).policy() == old(self).policy(),
            final(self)@ == old(self)@.step(event).0,
            item == old(self)@.step(event).1,
    {
        proof {
            lemma_step_preserves_wf(self@, event);
        }
        match event {
            StreamEvent::Stop => {
                self.phase = Phase::Closed;
                None
            },
            StreamEvent::ChannelClosed => {
                if self.phase == Phase::Closed {
                    None
                } else {
                    self.fail(FatalKind::ChannelClosed)
                }
            },
            StreamEvent::TransientFailure => {
                if self.is_running() {
                    self.on_transient_failure()
                } else {
                    None
                }
            },
            StreamEvent::StoreInconsistent => {
                if self.is_running() {
                    self.fail(FatalKind::ChainStore)
                } else {
                    None
                }
            },
            StreamEvent::Head(head) => {
                if self.phase == Phase::AwaitingHead && self.head.is_none() && head.network
                    == self.network {
                    self.on_head(head.pointer)
                } else {
                    None
                }
            },
            StreamEvent::Ancestor(ancestor) => {
                if (self.phase == Phase::AwaitingHead || self.phase == Phase::Reconciling)
                    && self.head.is_some() {
                    self.on_ancestor(ancestor)
                } else {
                    None
                }
            },
            StreamEvent::Block(block) => {
                if self.phase == Phase::Advancing {
                    self.on_block(block)
                } else {
                    None
                }
            },
        }
    }

    /// Stops the stream: it closes without emitting anything. Stopping a
    /// closed stream changes nothing.
    pub fn stop(&mut self)
        requires
            old(self).wf(),
        ensures
            final(self).wf(),
            final(self).policy() == old(self).policy(),
            final(self)@ == (StreamState { phase: Phase::Closed, ..old(self)@ }),
    {
        self.phase = Phase::Closed;
    }

    /// The outside work the stream waits for.
    pub fn next_action(&self) -> (action: Action)
        requires
            self.wf(),
        ensures
            action == self@.next_action(),
    {
        match self.phase {
            Phase::Uninitialized => Action::Start,
            Phase::AwaitingHead => match self.head {
                Some(of) => Action::FetchAncestor { of, at_number: self.confirmed.number },
                None => Action::AwaitHead,
            },
            Phase::Reconciling => {
                let candidate = self.history.get(self.cursor).unwrap();
                Action::FetchAncestor { of: self.head.unwrap(), at_number: candidate.number }
            },
            Phase::Advancing => Action::FetchBlock { number: self.confirmed.number + 1 },
            Phase::Closed => Action::Done,
        }
    }

    /// The pause in milliseconds to keep before the outstanding request is
    /// made again: zero unless it has just failed.
    pub fn retry_delay_ms(&self) -> (delay: u64)
        ensures
            delay == backoff_delay(
                self.policy().base_delay_ms as nat,
                self.policy().max_delay_ms as nat,
                self@.attempts,
            ),
    {
        self.policy.delay_ms(self.attempts)
    }

    /// Applies the consumer's acknowledgement of the block with the hash
    /// `block_hash`, and returns the new checkpoint to persist when the
    /// checkpoint moved.
    pub fn acknowledge(&mut self, block_hash: &H256) -> (saved: Option<BlockPointer>)
        requires
            old(self).wf(),
        ensures
            final(self).wf(),
            final(self).policy() == old(self).policy(),
            final(self)@ == old(self)@.acknowledge(*block_hash),
            final(self)@.checkpoint.number >= old(self)@.checkpoint.number,
            saved == if final(self)@.checkpoint != old(self)@.checkpoint {
                Some(final(self)@.checkpoint)
            } else {
                None
            },
    {
        if !self.is_running() {
            return None;
        }
        proof {
            lemma_newest_with_hash(self@.history, *block_hash);
            lemma_linked_numbers(self@.history, 0, self@.history.len() - 1);
        }
        match self.history.position_of_hash(block_hash) {
            Some(i) => {
                let entry = self.history.get(i).unwrap();
                proof {
                    lemma_linked_numbers(
                        self@.history,
                        i as int,
                        self@.history.len() - 1,
                    );
                }
                if entry.number >= self.checkpoint.number {
                    let moved = entry != self.checkpoint;
                    self.checkpoint = entry;
                    if moved {
                        Some(entry)
                    } else {
                        None
                    }
                } else {
                    None
                }
            },
            None => None,
        }
    }

    /// Applies a message of the control channel: an `Advance` acknowledges
    /// the block it names. Returns the new checkpoint to persist when the
    /// checkpoint moved.
    pub fn handle_control(&mut self, message: ControlMessage) -> (saved: Option<BlockPointer>)
        requires
            old(self).wf(),
        ensures
            final(self).wf(),
            final(self).policy() == old(self).policy(),
            final(self)@ == old(self)@.acknowledge(message->block_hash),
            final(self)@.checkpoint.number >= old(self)@.checkpoint.number,
            saved == if final(self)@.checkpoint != old(self)@.checkpoint {
                Some(final(self)@.checkpoint)
            } else {
                None
            },
    {
        match message {
            ControlMessage::Advance { block_hash } => self.acknowledge(&block_hash),
        }
    }

    /// The phase of the state machine.
    pub fn phase(&self) -> (phase: Phase)
        ensures
            phase == self@.phase,
    {
        self.phase
    }

    /// The anchor of the emitted sequence.
    pub fn confirmed_pointer(&self) -> (pointer: BlockPointer)
        ensures
            pointer == self@.confirmed,
    {
        self.confirmed
    }

    /// The last acknowledged block.
    pub fn checkpoint(&self) -> (pointer: BlockPointer)
        ensures
            pointer == self@.checkpoint,
    {
        self.checkpoint
    }

    /// The number of block pointers retained.
    pub fn history_len(&self) -> (n: usize)
        requires
            self.wf(),
        ensures
            n == self@.history.len(),
    {
        self.history.len()
    }

    /// The retained block pointer at `index`, counting from the oldest.
    pub fn history_entry(&self, index: usize) -> (entry: Option<BlockPointer>)
        requires
            self.wf(),
        ensures
            entry == if index < self@.history.len() {
                Some(self@.history[index as int])
            } else {
                None
            },
    {
        self.history.get(index)
    }

    /// The network the stream follows.
    pub fn network(&self) -> (name: &String)
        ensures
            name@ == self@.network,
    {
        &self.network
    }

    /// The subgraph the stream feeds.
    pub fn subgraph(&self) -> (name: &String)
        ensures
            name@ == self@.subgraph,
    {
        &self.subgraph
    }
}

} // verus!
