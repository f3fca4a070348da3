//! The block stream as a mathematical state machine: its state, the events it
//! consumes, the items it emits, and the transition function.

use crate::history::{newest_with_hash, pushed};
use crate::types::{BlockPointer, ChainHead, H256};
use vstd::prelude::*;
use vstd::std_specs::cmp::PartialEqSpecImpl;

verus! {

/// The discriminant of the block stream's state machine.
#[derive(Clone, Copy, Debug, PartialEq, Eq, Structural)]
pub enum Phase {
    /// Created, not yet started.
    Uninitialized,
    /// Waiting for a head notification, or for the lookup that tells whether
    /// a notified head descends from the confirmed block.
    AwaitingHead,
    /// Fetching and emitting the blocks up to the last known head.
    Advancing,
    /// Walking back through the history in search of the common ancestor.
    Reconciling,
    /// Terminal.
    Closed,
}

/// Why a stream ended by itself.
#[derive(Clone, Copy, Debug, PartialEq, Eq, Structural)]
pub enum FatalKind {
    /// A request kept failing until the retry limit was reached.
    RetriesExhausted,
    /// The chain store reported an inconsistency.
    ChainStore,
    /// The common ancestor lies before the oldest retained history entry.
    UnboundedReorg,
    /// The consumer or the controller disappeared.
    ChannelClosed,
}

/// One element of the emitted sequence.
#[derive(Clone, Copy, Debug, Eq)]
pub enum StreamItem {
    /// The next block of the canonical chain.
    Block(BlockPointer),
    /// Everything after this block is to be rolled back.
    Revert(BlockPointer),
    /// The stream has ended; nothing follows.
    FatalError(FatalKind),
}

/// What the outside world reports to the stream.
#[derive(Clone, Debug)]
pub enum StreamEvent {
    /// The tracker announced a chain head.
    Head(ChainHead),
    /// The answer to an ancestor lookup.
    Ancestor(BlockPointer),
    /// The answer to a block fetch.
    Block(BlockPointer),
    /// The outstanding request failed for a passing reason.
    TransientFailure,
    /// The chain store reported an inconsistency.
    StoreInconsistent,
    /// The consumer or the controller disappeared.
    ChannelClosed,
    /// The owner asked the stream to stop.
    Stop,
}

impl PartialEq for StreamItem {
    fn eq(&self, other: &StreamItem) -> (r: bool) {
        match (*self, *other) {
            (StreamItem::Block(a), StreamItem::Block(b)) => a == b,
            (StreamItem::Revert(a), StreamItem::Revert(b)) => a == b,
            (StreamItem::FatalError(a), StreamItem::FatalError(b)) => a == b,
            _ => false,
        }
    }
}

impl PartialEqSpecImpl for StreamItem {
    open spec fn obeys_eq_spec() -> bool {
        true
    }

    open spec fn eq_spec(&self, other: &StreamItem) -> bool {
        *self == *other
    }
}

/// The outside work the stream waits for.
#[derive(Clone, Copy, Debug, Eq)]
pub enum Action {
    /// Start the stream with the persisted checkpoint.
    Start,
    /// Wait for the next head notification.
    AwaitHead,
    /// Look up the ancestor of `of` at the height `at_number`.
    FetchAncestor { of: BlockPointer, at_number: u64 },
    /// Fetch the block at the height `number`.
    FetchBlock { number: u64 },
    /// Nothing: the stream is closed.
    Done,
}

impl PartialEq for Action {
    fn eq(&self, other: &Action) -> (r: bool) {
        match (*self, *other) {
            (Action::Start, Action::Start) => true,
            (Action::AwaitHead, Action::AwaitHead) => true,
            (
                Action::FetchAncestor { of: a, at_number: m },
                Action::FetchAncestor { of: b, at_number: n },
            ) => a == b && m == n,
            (Action::FetchBlock { number: m }, Action::FetchBlock { number: n }) => m == n,
            (Action::Done, Action::Done) => true,
            _ => false,
        }
    }
}

impl PartialEqSpecImpl for Action {
    open spec fn obeys_eq_spec() -> bool {
        true
    }

    open spec fn eq_spec(&self, other: &Action) -> bool {
        *self == *other
    }
}

/// The state of a block stream.
#[verifier::ext_equal]
pub ghost struct StreamState {
    pub network: Seq<char>,
    pub subgraph: Seq<char>,
    pub phase: Phase,
    /// The anchor of the emitted sequence: the last block emitted, or the
    /// block the stream was started from or last reverted to.
    pub confirmed: BlockPointer,
    /// The retained block pointers, oldest first.
    pub history: Seq<BlockPointer>,
    /// The most entries the history retains.
    pub window: nat,
    /// The head the stream works toward.
    pub head: Option<BlockPointer>,
    /// The history position that the next ancestor answer is compared with.
    pub cursor: nat,
    /// The last block the consumer acknowledged.
    pub checkpoint: BlockPointer,
    /// Failures of the outstanding request so far.
    pub attempts: nat,
    /// The number of attempts after which a failing request is given up.
    pub max_attempts: nat,
}

/// The entry at position `i` directly follows the one before it.
pub open spec fn link_at(entries: Seq<BlockPointer>, i: int) -> bool {
    entries[i].extends(entries[i - 1])
}

/// Every entry directly follows the one before it.
pub open spec fn linked(entries: Seq<BlockPointer>) -> bool {
    forall|i: int| 0 < i < entries.len() ==> #[trigger] link_at(entries, i)
}

impl StreamState {
    /// The stream is neither unstarted nor closed.
    pub open spec fn running(self) -> bool {
        self.phase is AwaitingHead || self.phase is Advancing || self.phase is Reconciling
    }

    /// The invariant of the state machine.
    pub open spec fn wf(self) -> bool {
        &&& self.window >= 1
        &&& linked(self.history)
        &&& self.history.len() <= self.window
        &&& self.phase is Uninitialized ==> self.history.len() == 0 && self.head is None
        &&& self.running() ==> {
            &&& self.history.len() >= 1
            &&& self.history.last() == self.confirmed
            &&& self.checkpoint.number <= self.confirmed.number
        }
        &&& self.phase is AwaitingHead ==> (self.head matches Some(h) ==> {
            &&& self.cursor == self.history.len() - 1
            &&& h.number > self.confirmed.number
        })
        &&& self.phase is Advancing ==> (self.head matches Some(h) && h.number
            > self.confirmed.number)
        &&& self.phase is Reconciling ==> (self.head matches Some(h) && self.cursor + 1
            < self.history.len() && self.history[self.cursor as int].number < h.number)
    }

    /// The state a stream is in right after it was started from `origin`.
    pub open spec fn started(self, origin: BlockPointer) -> StreamState {
        StreamState {
            phase: Phase::AwaitingHead,
            confirmed: origin,
            history: seq![origin],
            head: None,
            cursor: 0,
            checkpoint: origin,
            attempts: 0,
            ..self
        }
    }

    /// The stream closes and reports why.
    pub open spec fn fail(self, kind: FatalKind) -> (StreamState, Option<StreamItem>) {
        (StreamState { phase: Phase::Closed, ..self }, Some(StreamItem::FatalError(kind)))
    }

    /// The stream stays as it is and emits nothing.
    pub open spec fn ignore(self) -> (StreamState, Option<StreamItem>) {
        (self, None)
    }

    /// A head was announced while the stream waited for one.
    pub open spec fn on_head(self, head: BlockPointer) -> (StreamState, Option<StreamItem>) {
        if head.number > self.confirmed.number {
            (
                StreamState {
                    head: Some(head),
                    cursor: (self.history.len() - 1) as nat,
                    attempts: 0,
                    ..self
                },
                None,
            )
        } else if head.number < self.history[0].number {
            self.fail(FatalKind::UnboundedReorg)
        } else {
            let k = head.number - self.history[0].number;
            if self.history[k].hash == head.hash {
                (StreamState { attempts: 0, ..self }, None)
            } else if k == 0 {
                self.fail(FatalKind::UnboundedReorg)
            } else {
                (
                    StreamState {
                        phase: Phase::Reconciling,
                        head: Some(head),
                        cursor: (k - 1) as nat,
                        attempts: 0,
                        ..self
                    },
                    None,
                )
            }
        }
    }

    /// The checkpoint after a revert to `to`: it never lies past the block
    /// reverted to.
    pub open spec fn clamped_checkpoint(self, to: BlockPointer) -> BlockPointer {
        if self.checkpoint.number > to.number {
            to
        } else {
            self.checkpoint
        }
    }

    /// An ancestor lookup was answered.
    pub open spec fn on_ancestor(self, ancestor: BlockPointer) -> (StreamState, Option<StreamItem>) {
        let candidate = self.history[self.cursor as int];
        if ancestor.number != candidate.number {
            self.fail(FatalKind::ChainStore)
        } else if ancestor.hash == candidate.hash {
            if self.phase is AwaitingHead {
                (StreamState { phase: Phase::Advancing, attempts: 0, ..self }, None)
            } else {
                (
                    StreamState {
                        phase: Phase::Advancing,
                        history: self.history.take(self.cursor + 1 as int),
                        confirmed: candidate,
                        checkpoint: self.clamped_checkpoint(candidate),
                        attempts: 0,
                        ..self
                    },
                    Some(StreamItem::Revert(candidate)),
                )
            }
        } else if self.cursor == 0 {
            self.fail(FatalKind::UnboundedReorg)
        } else {
            (
                StreamState {
                    phase: Phase::Reconciling,
                    cursor: (self.cursor - 1) as nat,
                    attempts: 0,
                    ..self
                },
                None,
            )
        }
    }

    /// A block fetch was answered.
    pub open spec fn on_block(self, block: BlockPointer) -> (StreamState, Option<StreamItem>) {
        if block.extends(self.confirmed) {
            let caught_up = block.number >= self.head->0.number;
            (
                StreamState {
                    phase: if caught_up {
                        Phase::AwaitingHead
                    } else {
                        Phase::Advancing
                    },
                    head: if caught_up {
                        None
                    } else {
                        self.head
                    },
                    history: pushed(self.history, self.window, block),
                    confirmed: block,
                    attempts: 0,
                    ..self
                },
                Some(StreamItem::Block(block)),
            )
        } else {
            (
                StreamState {
                    phase: Phase::AwaitingHead,
                    cursor: (self.history.len() - 1) as nat,
                    attempts: 0,
                    ..self
                },
                None,
            )
        }
    }

    /// The outstanding request failed for a passing reason.
    pub open spec fn on_transient_failure(self) -> (StreamState, Option<StreamItem>) {
        if self.attempts + 1 >= self.max_attempts {
            self.fail(FatalKind::RetriesExhausted)
        } else {
            (StreamState { attempts: self.attempts + 1, ..self }, None)
        }
    }

    /// The transition function: the state after `event` and the item that
    /// the transition emits, if any.
    pub open spec fn step(self, event: StreamEvent) -> (StreamState, Option<StreamItem>) {
        match event {
            StreamEvent::Stop => (StreamState { phase: Phase::Closed, ..self }, None),
            StreamEvent::ChannelClosed => if self.phase is Closed {
                self.ignore()
            } else {
                self.fail(FatalKind::ChannelClosed)
            },
            StreamEvent::TransientFailure => if self.running() {
                self.on_transient_failure()
            } else {
                self.ignore()
            },
            StreamEvent::StoreInconsistent => if self.running() {
                self.fail(FatalKind::ChainStore)
            } else {
                self.ignore()
            },
            StreamEvent::Head(head) => if self.phase is AwaitingHead && self.head is None
                && head.network@ == self.network {
                self.on_head(head.pointer)
            } else {
                self.ignore()
            },
            StreamEvent::Ancestor(ancestor) => if (self.phase is AwaitingHead
                || self.phase is Reconciling) && self.head is Some {
                self.on_ancestor(ancestor)
            } else {
                self.ignore()
            },
            StreamEvent::Block(block) => if self.phase is Advancing {
                self.on_block(block)
            } else {
                self.ignore()
            },
        }
    }

    /// The outside work the stream waits for in this state.
    pub open spec fn next_action(self) -> Action {
        match self.phase {
            Phase::Uninitialized => Action::Start,
            Phase::AwaitingHead => match self.head {
                Some(of) => Action::FetchAncestor { of, at_number: self.confirmed.number },
                None => Action::AwaitHead,
            },
            Phase::Reconciling => Action::FetchAncestor {
                of: self.head->0,
                at_number: self.history[self.cursor as int].number,
            },
            Phase::Advancing => Action::FetchBlock { number: (self.confirmed.number + 1) as u64 },
            Phase::Closed => Action::Done,
        }
    }

    /// The state after an acknowledgement of the block with the hash at
    /// position `found` of the history: the checkpoint moves there unless it
    /// would move backward, and stays where it is when nothing was found.
    pub open spec fn acknowledged(self, found: Option<int>) -> StreamState {
        match found {
            Some(i) => if self.running() && self.history[i].number >= self.checkpoint.number {
                StreamState { checkpoint: self.history[i], ..self }
            } else {
                self
            },
            None => self,
        }
    }

    /// The state after the consumer acknowledged the block with the hash
    /// `hash`: the newest retained block with that hash becomes the
    /// checkpoint, unless the checkpoint would move backward.
    pub open spec fn acknowledge(self, hash: H256) -> StreamState {
        self.acknowledged(newest_with_hash(self.history, hash))
    }
}

/// The numbers of a linked sequence count up one by one.
pub proof fn lemma_linked_numbers(entries: Seq<BlockPointer>, i: int, j: int)
    requires
        linked(entries),
        0 <= i <= j < entries.len(),
    ensures
        entries[j].number == entries[i].number + (j - i),
    decreases j - i,
{
    if i < j {
        lemma_linked_numbers(entries, i, j - 1);
        assert(link_at(entries, j));
    }
}

/// Every transition keeps the invariant.
pub proof fn lemma_step_preserves_wf(state: StreamState, event: StreamEvent)
    requires
        state.wf(),
    ensures
        state.step(event).0.wf(),
{
    let next = state.step(event).0;
    match event {
        StreamEvent::Head(head) => {
            if state.phase is AwaitingHead && state.head is None && head.network@
                == state.network {
                let p = head.pointer;
                if p.number <= state.confirmed.number && p.number >= state.history[0].number {
                    lemma_linked_numbers(state.history, 0, state.history.len() - 1);
                    let k = p.number - state.history[0].number;
                    lemma_linked_numbers(state.history, 0, k);
                    if k > 0 {
                        lemma_linked_numbers(state.history, k - 1, k);
                    }
                }
            }
        },
        StreamEvent::Ancestor(ancestor) => {
            if (state.phase is AwaitingHead || state.phase is Reconciling) && state.head is Some {
                let c = state.cursor as int;
                if c > 0 {
                    lemma_linked_numbers(state.history, c - 1, c);
                }
                lemma_linked_numbers(state.history, c, state.history.len() - 1);
                lemma_take_linked(state.history, c + 1);
            }
        },
        StreamEvent::Block(block) => {
            if state.phase is Advancing && block.extends(state.confirmed) {
                lemma_pushed_linked(state.history, state.window, block);
            }
        },
        _ => {},
    }
}

/// Appending the successor of the newest entry keeps a history linked, and
/// the appended block is its newest entry.
pub proof fn lemma_pushed_linked(entries: Seq<BlockPointer>, capacity: nat, block: BlockPointer)
    requires
        linked(entries),
        capacity >= 1,
        entries.len() <= capacity,
        entries.len() > 0 ==> block.extends(entries.last()),
    ensures
        linked(pushed(entries, capacity, block)),
        pushed(entries, capacity, block).len() >= 1,
        pushed(entries, capacity, block).len() <= capacity,
        pushed(entries, capacity, block).last() == block,
{
    let all = entries.push(block);
    assert forall|i: int| 0 < i < all.len() implies #[trigger] link_at(all, i) by {
        if i < entries.len() {
            assert(link_at(entries, i));
        }
    }
    let out = pushed(entries, capacity, block);
    if all.len() > capacity {
        let d = all.len() - capacity;
        assert forall|i: int| 0 < i < out.len() implies #[trigger] link_at(out, i) by {
            assert(link_at(all, i + d));
        }
    }
}

/// The oldest entries of a linked sequence are linked.
pub proof fn lemma_take_linked(entries: Seq<BlockPointer>, n: int)
    requires
        linked(entries),
        0 <= n <= entries.len(),
    ensures
        linked(entries.take(n)),
{
    assert forall|i: int| 0 < i < n implies #[trigger] link_at(entries.take(n), i) by {
        assert(link_at(entries, i));
    }
}

} // verus!
