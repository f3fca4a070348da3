//! The control channel between a consumer and its block stream: a bounded
//! mailbox of acknowledgements, first in, first out.

use crate::types::H256;
use vstd::prelude::*;
use vstd::std_specs::cmp::PartialEqSpecImpl;
use std::collections::VecDeque;

verus! {

/// The most messages the control channel holds.
pub const CONTROL_CHANNEL_CAPACITY: usize = 100;

/// A message from the controller to the block stream.
#[derive(Clone, Copy, Debug, Eq)]
pub enum ControlMessage {
    /// The consumer has durably processed the block with this hash.
    Advance { block_hash: H256 },
}

impl PartialEq for ControlMessage {
    fn eq(&self, other: &ControlMessage) -> (r: bool) {
        match (*self, *other) {
            (ControlMessage::Advance { block_hash: a }, ControlMessage::Advance { block_hash: b }) => {
                a == b
            },
        }
    }
}

impl PartialEqSpecImpl for ControlMessage {
    open spec fn obeys_eq_spec() -> bool {
        true
    }

    open spec fn eq_spec(&self, other: &ControlMessage) -> bool {
        *self == *other
    }
}

/// What became of a message handed to the channel.
#[derive(Clone, Copy, Debug, PartialEq, Eq, Structural)]
pub enum SendOutcome {
    /// The message is in the channel.
    Sent,
    /// The channel is at capacity: the message was not taken, and the sender
    /// has to wait for room and hand it over again.
    Full,
    /// The channel is closed: the message was not taken.
    Closed,
}

/// The state of the control channel.
#[verifier::ext_equal]
pub ghost struct ChannelState {
    /// The messages sent and not yet received, oldest first.
    pub pending: Seq<ControlMessage>,
    /// Whether the channel takes no more messages.
    pub closed: bool,
}

impl ChannelState {
    /// The channel never holds more than its capacity.
    pub open spec fn wf(self) -> bool {
        self.pending.len() <= CONTROL_CHANNEL_CAPACITY
    }

    /// What becomes of `message` when it is handed to the channel.
    pub open spec fn outcome(self, message: ControlMessage) -> SendOutcome {
        if self.closed {
            SendOutcome::Closed
        } else if self.pending.len() >= CONTROL_CHANNEL_CAPACITY {
            SendOutcome::Full
        } else {
            SendOutcome::Sent
        }
    }

    /// The channel after `message` was handed to it.
    pub open spec fn send(self, message: ControlMessage) -> ChannelState {
        if self.outcome(message) is Sent {
            ChannelState { pending: self.pending.push(message), ..self }
        } else {
            self
        }
    }

    /// The message that the next receive returns.
    pub open spec fn front(self) -> Option<ControlMessage> {
        if self.pending.len() > 0 {
            Some(self.pending[0])
        } else {
            None
        }
    }

    /// The channel after a receive.
    pub open spec fn receive(self) -> ChannelState {
        if self.pending.len() > 0 {
            ChannelState { pending: self.pending.skip(1), ..self }
        } else {
            self
        }
    }
}

/// The consumer's end of the control channel, together with the mailbox
/// that the block stream's side drains.
pub struct BlockStreamController {
    pending: VecDeque<ControlMessage>,
    closed: bool,
}

impl View for BlockStreamController {
    type V = ChannelState;

    closed spec fn view(&self) -> ChannelState {
        ChannelState { pending: self.pending@, closed: self.closed }
    }
}

impl BlockStreamController {
    /// An open channel without messages.
    pub fn new() -> (controller: BlockStreamController)
        ensures
            controller@ == (ChannelState { pending: Seq::empty(), closed: false }),
            controller@.wf(),
    {
        BlockStreamController { pending: VecDeque::new(), closed: false }
    }

    /// Hands the acknowledgement of the block with the hash `block_hash` to
    /// the channel. At capacity nothing is taken and nothing is dropped: the
    /// answer is `Full`, and the caller waits and hands it over again.
    pub fn advance(&mut self, block_hash: H256) -> (outcome: SendOutcome)
        requires
            old(self)@.wf(),
        ensures
            final(self)@.wf(),
            outcome == old(self)@.outcome(ControlMessage::Advance { block_hash }),
            final(self)@ == old(self)@.send(ControlMessage::Advance { block_hash }),
    {
        if self.closed {
            SendOutcome::Closed
        } else if self.pending.len() >= CONTROL_CHANNEL_CAPACITY {
            SendOutcome::Full
        } else {
            self.pending.push_back(ControlMessage::Advance { block_hash });
            SendOutcome::Sent
        }
    }

    /// Takes the oldest message out of the channel, if there is one.
    pub fn receive(&mut self) -> (message: Option<ControlMessage>)
        requires
            old(self)@.wf(),
        ensures
            final(self)@.wf(),
            message == old(self)@.front(),
            final(self)@ == old(self)@.receive(),
    {
        let message = self.pending.pop_front();
        proof {
            if message is Some {
                assert(self.pending@ =~= old(self).pending@.skip(1));
            }
        }
        message
    }

    /// Closes the channel: it takes no more messages; those in it can still
    /// be received.
    pub fn close(&mut self)
        ensures
            final(self)@ == (ChannelState { closed: true, ..old(self)@ }),
    {
        self.closed = true;
    }

    /// The number of messages in the channel.
    pub fn pending_len(&self) -> (n: usize)
        ensures
            n == self@.pending.len(),
    {
        self.pending.len()
    }

    /// Whether the channel is at capacity.
    pub fn is_full(&self) -> (full: bool)
        ensures
            full == (self@.pending.len() >= CONTROL_CHANNEL_CAPACITY),
    {
        self.pending.len() >= CONTROL_CHANNEL_CAPACITY
    }

    /// Whether the channel is closed.
    pub fn is_closed(&self) -> (closed: bool)
        ensures
            closed == self@.closed,
    {
        self.closed
    }
}

/// One use of the channel.
pub ghost enum ChannelOp {
    /// The controller hands a message over.
    Send(ControlMessage),
    /// The stream's side takes a message out.
    Receive,
}

/// The channel after `ops` in order.
pub open spec fn channel_after(state: ChannelState, ops: Seq<ChannelOp>) -> ChannelState
    decreases ops.len(),
{
    if ops.len() == 0 {
        state
    } else {
        let before = channel_after(state, ops.drop_last());
        match ops.last() {
            ChannelOp::Send(message) => before.send(message),
            ChannelOp::Receive => before.receive(),
        }
    }
}

/// The messages that the channel took during `ops`, in order.
pub open spec fn taken(state: ChannelState, ops: Seq<ChannelOp>) -> Seq<ControlMessage>
    decreases ops.len(),
{
    if ops.len() == 0 {
        Seq::empty()
    } else {
        let before = channel_after(state, ops.drop_last());
        match ops.last() {
            ChannelOp::Send(message) => if before.outcome(message) is Sent {
                taken(state, ops.drop_last()).push(message)
            } else {
                taken(state, ops.drop_last())
            },
            ChannelOp::Receive => taken(state, ops.drop_last()),
        }
    }
}

/// The messages that were received during `ops`, in order.
pub open spec fn received(state: ChannelState, ops: Seq<ChannelOp>) -> Seq<ControlMessage>
    decreases ops.len(),
{
    if ops.len() == 0 {
        Seq::empty()
    } else {
        let before = channel_after(state, ops.drop_last());
        match ops.last() {
            ChannelOp::Send(_) => received(state, ops.drop_last()),
            ChannelOp::Receive => match before.front() {
                Some(message) => received(state, ops.drop_last()).push(message),
                None => received(state, ops.drop_last()),
            },
        }
    }
}

/// No acknowledgement is lost: whatever the order of sends and receives, the
/// channel never holds more than its capacity, and the messages it held at
/// first followed by those it took are those received followed by those it
/// still holds. Nothing is dropped, doubled or reordered; a message that was
/// refused is not among those taken and left the channel as it was.
pub proof fn lemma_no_acknowledgement_lost(state: ChannelState, ops: Seq<ChannelOp>)
    requires
        state.wf(),
    ensures
        channel_after(state, ops).wf(),
        state.pending + taken(state, ops) == received(state, ops) + channel_after(
            state,
            ops,
        ).pending,
    decreases ops.len(),
{
    if ops.len() == 0 {
        assert(state.pending + Seq::<ControlMessage>::empty() =~= Seq::<ControlMessage>::empty()
            + state.pending);
    } else {
        lemma_no_acknowledgement_lost(state, ops.drop_last());
        let before = channel_after(state, ops.drop_last());
        let t = taken(state, ops.drop_last());
        let r = received(state, ops.drop_last());
        assert(state.pending + t == r + before.pending);
        match ops.last() {
            ChannelOp::Send(message) => {
                if before.outcome(message) is Sent {
                    assert(state.pending + t.push(message) =~= (state.pending + t).push(message));
                    assert(r + before.pending.push(message) =~= (r + before.pending).push(
                        message,
                    ));
                }
            },
            ChannelOp::Receive => {
                if before.pending.len() > 0 {
                    assert(r.push(before.pending[0]) + before.pending.skip(1) =~= r
                        + before.pending);
                }
            },
        }
    }
}

/// A message that found the channel full is taken once a receive has made
/// room.
pub proof fn lemma_room_after_receive(state: ChannelState, message: ControlMessage)
    requires
        state.wf(),
        state.outcome(message) is Full,
    ensures
        state.send(message) == state,
        state.receive().outcome(message) is Sent,
        state.receive().send(message).pending.last() == message,
{
}

} // verus!
