//! What holds of every run of the block stream: the emitted sequence is
//! contiguous, a closed stream is silent, a stream that only hears of one
//! chain never reverts, a restarted stream resumes right after its
//! checkpoint, and acknowledgements never move the checkpoint backward.

use crate::history::{lemma_newest_with_hash, newest_with_hash};
use crate::model::{
    lemma_linked_numbers, lemma_step_preserves_wf, link_at, linked, StreamEvent, StreamItem,
    StreamState,
};
use crate::types::{BlockPointer, H256};
use vstd::prelude::*;

verus! {

/// The state after the stream took `events` in order.
pub open spec fn run(state: StreamState, events: Seq<StreamEvent>) -> StreamState
    decreases events.len(),
{
    if events.len() == 0 {
        state
    } else {
        run(state, events.drop_last()).step(events.last()).0
    }
}

/// The items the stream emitted while it took `events` in order.
pub open spec fn emitted(state: StreamState, events: Seq<StreamEvent>) -> Seq<StreamItem>
    decreases events.len(),
{
    if events.len() == 0 {
        Seq::empty()
    } else {
        let before = emitted(state, events.drop_last());
        match run(state, events.drop_last()).step(events.last()).1 {
            Some(item) => before.push(item),
            None => before,
        }
    }
}

/// The block that the next emitted block has to follow, after `items` were
/// emitted by a stream anchored at `anchor`.
pub open spec fn anchor_after(anchor: BlockPointer, items: Seq<StreamItem>) -> BlockPointer
    decreases items.len(),
{
    if items.len() == 0 {
        anchor
    } else {
        match items.last() {
            StreamItem::Block(block) => block,
            StreamItem::Revert(to) => to,
            StreamItem::FatalError(_) => anchor_after(anchor, items.drop_last()),
        }
    }
}

/// Every block in `items` directly follows the block or the revert target
/// emitted before it, the first of them `anchor`, and nothing comes after a
/// fatal error.
pub open spec fn contiguous(anchor: BlockPointer, items: Seq<StreamItem>) -> bool
    decreases items.len(),
{
    if items.len() == 0 {
        true
    } else {
        let before = items.drop_last();
        &&& contiguous(anchor, before)
        &&& before.len() > 0 ==> !(before.last() is FatalError)
        &&& items.last() matches StreamItem::Block(block) ==> block.extends(
            anchor_after(anchor, before),
        )
    }
}

/// The blocks among `items`, in order.
pub open spec fn blocks_of(items: Seq<StreamItem>) -> Seq<BlockPointer>
    decreases items.len(),
{
    if items.len() == 0 {
        Seq::empty()
    } else {
        match items.last() {
            StreamItem::Block(block) => blocks_of(items.drop_last()).push(block),
            _ => blocks_of(items.drop_last()),
        }
    }
}

/// No item of `items` is a revert.
pub open spec fn revert_free(items: Seq<StreamItem>) -> bool {
    forall|i: int| 0 <= i < items.len() ==> !(#[trigger] items[i] is Revert)
}

/// Running keeps the invariant of the state machine.
pub proof fn lemma_run_wf(state: StreamState, events: Seq<StreamEvent>)
    requires
        state.wf(),
    ensures
        run(state, events).wf(),
    decreases events.len(),
{
    if events.len() > 0 {
        lemma_run_wf(state, events.drop_last());
        lemma_step_preserves_wf(run(state, events.drop_last()), events.last());
    }
}

/// One transition: a block that is emitted directly follows the anchor and
/// becomes the anchor, a revert names the new anchor, and anything else
/// leaves the anchor alone. A closed stream emits nothing, and a fatal error
/// closes the stream.
pub proof fn lemma_step_anchor(state: StreamState, event: StreamEvent)
    requires
        state.wf(),
    ensures
        match state.step(event).1 {
            Some(StreamItem::Block(block)) => block.extends(state.confirmed) && state.step(
                event,
            ).0.confirmed == block,
            Some(StreamItem::Revert(to)) => state.step(event).0.confirmed == to,
            Some(StreamItem::FatalError(_)) => state.step(event).0.confirmed == state.confirmed
                && state.step(event).0.phase is Closed,
            None => state.step(event).0.confirmed == state.confirmed,
        },
        state.phase is Closed ==> state.step(event).1 is None && state.step(event).0.phase is Closed,
{
}

/// Contiguity: whatever the outside world reports, every emitted block
/// directly follows the block emitted before it, or the target of the revert
/// emitted before it, or, for the first item, the block the stream is
/// anchored at; and a fatal error is the last item.
pub proof fn lemma_emission_contiguous(state: StreamState, events: Seq<StreamEvent>)
    requires
        state.wf(),
    ensures
        contiguous(state.confirmed, emitted(state, events)),
        run(state, events).confirmed == anchor_after(state.confirmed, emitted(state, events)),
        emitted(state, events).len() > 0 && emitted(state, events).last() is FatalError ==> run(
            state,
            events,
        ).phase is Closed,
    decreases events.len(),
{
    if events.len() > 0 {
        let before = events.drop_last();
        lemma_emission_contiguous(state, before);
        lemma_run_wf(state, before);
        lemma_step_anchor(run(state, before), events.last());
        let items = emitted(state, before);
        match run(state, before).step(events.last()).1 {
            Some(item) => {
                assert(items.push(item).drop_last() =~= items);
            },
            None => {},
        }
    }
}

/// In a sequence without reverts, the anchor is the last block, or the first
/// anchor where there is no block.
pub proof fn lemma_anchor_without_reverts(anchor: BlockPointer, items: Seq<StreamItem>)
    requires
        revert_free(items),
    ensures
        anchor_after(anchor, items) == if blocks_of(items).len() > 0 {
            blocks_of(items).last()
        } else {
            anchor
        },
    decreases items.len(),
{
    if items.len() > 0 {
        assert(!(items[items.len() - 1] is Revert));
        assert forall|i: int| 0 <= i < items.drop_last().len() implies !(
        #[trigger] items.drop_last()[i] is Revert) by {
            assert(!(items[i] is Revert));
        }
        lemma_anchor_without_reverts(anchor, items.drop_last());
    }
}

/// The blocks of a contiguous sequence without reverts are linked: each has
/// the number after its predecessor's and names it as its parent. The first
/// of them follows the anchor.
pub proof fn lemma_blocks_linked(anchor: BlockPointer, items: Seq<StreamItem>)
    requires
        contiguous(anchor, items),
        revert_free(items),
    ensures
        linked(blocks_of(items)),
        blocks_of(items).len() > 0 ==> blocks_of(items)[0].extends(anchor),
    decreases items.len(),
{
    if items.len() > 0 {
        let before = items.drop_last();
        assert forall|i: int| 0 <= i < before.len() implies !(#[trigger] before[i] is Revert) by {
            assert(!(items[i] is Revert));
        }
        lemma_blocks_linked(anchor, before);
        lemma_anchor_without_reverts(anchor, before);
        match items.last() {
            StreamItem::Block(block) => {
                let blocks = blocks_of(items);
                assert forall|i: int| 0 < i < blocks.len() implies #[trigger] link_at(
                    blocks,
                    i,
                ) by {
                    if i < blocks.len() - 1 {
                        assert(link_at(blocks_of(before), i));
                    }
                }
            },
            _ => {},
        }
    }
}

/// The numbers of linked blocks increase strictly.
pub proof fn lemma_linked_increasing(blocks: Seq<BlockPointer>, i: int, j: int)
    requires
        linked(blocks),
        0 <= i < j < blocks.len(),
    ensures
        blocks[i].number < blocks[j].number,
{
    lemma_linked_numbers(blocks, i, j);
}

/// A closed stream is silent: it stays closed and emits nothing, whatever
/// it is told.
pub proof fn lemma_closed_is_silent(state: StreamState, events: Seq<StreamEvent>)
    requires
        state.phase is Closed,
    ensures
        run(state, events).phase is Closed,
        emitted(state, events) == Seq::<StreamItem>::empty(),
    decreases events.len(),
{
    if events.len() > 0 {
        lemma_closed_is_silent(state, events.drop_last());
    }
}

/// Stopping is idempotent and emits nothing.
pub proof fn lemma_stop_idempotent(state: StreamState)
    ensures
        state.step(StreamEvent::Stop).1 is None,
        state.step(StreamEvent::Stop).0.phase is Closed,
        state.step(StreamEvent::Stop).0.step(StreamEvent::Stop).0 == state.step(
            StreamEvent::Stop,
        ).0,
{
}

/// The pointer lies on the chain `chain`, which gives the block at each
/// height.
pub open spec fn on_chain(chain: spec_fn(int) -> BlockPointer, pointer: BlockPointer) -> bool {
    chain(pointer.number as int) == pointer
}

/// Every pointer that the event reports lies on `chain`.
pub open spec fn reports_chain(chain: spec_fn(int) -> BlockPointer, event: StreamEvent) -> bool {
    match event {
        StreamEvent::Head(head) => on_chain(chain, head.pointer),
        StreamEvent::Ancestor(ancestor) => on_chain(chain, ancestor),
        StreamEvent::Block(block) => on_chain(chain, block),
        _ => true,
    }
}

/// Every retained pointer lies on `chain`.
pub open spec fn follows_chain(chain: spec_fn(int) -> BlockPointer, state: StreamState) -> bool {
    forall|i: int| 0 <= i < state.history.len() ==> on_chain(chain, #[trigger] state.history[i])
}

/// One transition of a stream that follows a chain, on an event that reports
/// that chain: the stream still follows the chain, does not start to
/// reconcile, and emits no revert.
pub proof fn lemma_step_on_one_chain(
    chain: spec_fn(int) -> BlockPointer,
    state: StreamState,
    event: StreamEvent,
)
    requires
        state.wf(),
        follows_chain(chain, state),
        !(state.phase is Reconciling),
        reports_chain(chain, event),
    ensures
        follows_chain(chain, state.step(event).0),
        !(state.step(event).0.phase is Reconciling),
        !(state.step(event).1 matches Some(StreamItem::Revert(_))),
{
    let next = state.step(event).0;
    match event {
        StreamEvent::Head(head) => {
            if state.phase is AwaitingHead && state.head is None && head.network@
                == state.network {
                let p = head.pointer;
                if p.number <= state.confirmed.number && p.number >= state.history[0].number {
                    lemma_linked_numbers(state.history, 0, state.history.len() - 1);
                    let k = p.number - state.history[0].number;
                    lemma_linked_numbers(state.history, 0, k);
                    assert(on_chain(chain, state.history[k]));
                }
            }
        },
        StreamEvent::Ancestor(ancestor) => {
            if (state.phase is AwaitingHead || state.phase is Reconciling) && state.head is Some {
                assert(on_chain(chain, state.history[state.cursor as int]));
            }
        },
        StreamEvent::Block(block) => {
            if state.phase is Advancing && block.extends(state.confirmed) {
                let all = state.history.push(block);
                assert forall|i: int| 0 <= i < next.history.len() implies on_chain(
                    chain,
                    #[trigger] next.history[i],
                ) by {
                    let d = all.len() - next.history.len();
                    if i + d < state.history.len() {
                        assert(on_chain(chain, state.history[i + d]));
                    }
                }
            }
        },
        _ => {},
    }
}

/// Every event of `events` reports the chain `chain`.
pub open spec fn all_report_chain(chain: spec_fn(int) -> BlockPointer, events: Seq<StreamEvent>) -> bool {
    forall|i: int| 0 <= i < events.len() ==> reports_chain(chain, #[trigger] events[i])
}

/// Without forks the stream never reverts: while every head, ancestor and
/// block that it hears of lies on one chain, and so does what it retains,
/// the stream emits no revert, the blocks it emits have strictly increasing
/// numbers, one after the other, and each names the block emitted before it
/// as its parent. Repeated and outdated notifications change nothing of that.
pub proof fn lemma_no_fork_no_revert(
    chain: spec_fn(int) -> BlockPointer,
    state: StreamState,
    events: Seq<StreamEvent>,
)
    requires
        state.wf(),
        follows_chain(chain, state),
        !(state.phase is Reconciling),
        all_report_chain(chain, events),
    ensures
        follows_chain(chain, run(state, events)),
        !(run(state, events).phase is Reconciling),
        revert_free(emitted(state, events)),
        linked(blocks_of(emitted(state, events))),
        blocks_of(emitted(state, events)).len() > 0 ==> blocks_of(emitted(state, events))[0].extends(
            state.confirmed,
        ),
        forall|i: int, j: int|
            0 <= i < j < blocks_of(emitted(state, events)).len() ==> blocks_of(
                emitted(state, events),
            )[i].number < blocks_of(emitted(state, events))[j].number,
    decreases events.len(),
{
    let items = emitted(state, events);
    if events.len() > 0 {
        let before = events.drop_last();
        assert forall|i: int| 0 <= i < before.len() implies reports_chain(
            chain,
            #[trigger] before[i],
        ) by {
            assert(reports_chain(chain, events[i]));
        }
        lemma_no_fork_no_revert(chain, state, before);
        lemma_run_wf(state, before);
        assert(reports_chain(chain, events[events.len() - 1]));
        lemma_step_on_one_chain(chain, run(state, before), events.last());
        let earlier = emitted(state, before);
        assert forall|i: int| 0 <= i < items.len() implies !(#[trigger] items[i] is Revert) by {
            if i < earlier.len() {
                assert(!(earlier[i] is Revert));
            }
        }
    }
    lemma_emission_contiguous(state, events);
    lemma_blocks_linked(state.confirmed, items);
    assert forall|i: int, j: int| 0 <= i < j < blocks_of(items).len() implies blocks_of(
        items,
    )[i].number < blocks_of(items)[j].number by {
        lemma_linked_increasing(blocks_of(items), i, j);
    }
}

/// What holds of a stream that was started from `origin`, after it emitted
/// `items`: every block lies past `origin`, the first block directly follows
/// `origin`, and until a block is emitted the stream retains `origin` alone.
pub open spec fn resumed_from(origin: BlockPointer, state: StreamState, items: Seq<StreamItem>) -> bool {
    &&& state.running() || state.phase is Closed
    &&& state.running() ==> state.history[0].number >= origin.number
    &&& state.running() && blocks_of(items).len() == 0 ==> state.history.len() == 1
        && state.confirmed == origin
    &&& forall|i: int| 0 <= i < blocks_of(items).len() ==> (#[trigger] blocks_of(items)[i]).number
        > origin.number
    &&& blocks_of(items).len() > 0 ==> blocks_of(items)[0].extends(origin)
}

/// One transition keeps what holds of a stream started from `origin`.
pub proof fn lemma_step_resumed(
    origin: BlockPointer,
    state: StreamState,
    items: Seq<StreamItem>,
    event: StreamEvent,
)
    requires
        state.wf(),
        resumed_from(origin, state, items),
    ensures
        resumed_from(
            origin,
            state.step(event).0,
            match state.step(event).1 {
                Some(item) => items.push(item),
                None => items,
            },
        ),
{
    let next = state.step(event).0;
    let after = match state.step(event).1 {
        Some(item) => items.push(item),
        None => items,
    };
    lemma_step_preserves_wf(state, event);
    if state.running() {
        lemma_linked_numbers(state.history, 0, state.history.len() - 1);
    }
    match state.step(event).1 {
        Some(item) => {
            assert(after.drop_last() =~= items);
            match item {
                StreamItem::Block(block) => {
                    let all = state.history.push(block);
                    let d = all.len() - next.history.len();
                    assert(next.history[0] == all[d]);
                    if 0 < d < state.history.len() {
                        lemma_linked_numbers(state.history, 0, d);
                    }
                    assert forall|i: int| 0 <= i < blocks_of(after).len() implies (
                    #[trigger] blocks_of(after)[i]).number > origin.number by {
                        if i < blocks_of(items).len() {
                            assert(blocks_of(items)[i].number > origin.number);
                        }
                    }
                },
                StreamItem::Revert(to) => {
                    assert(next.history[0] == state.history[0]);
                },
                StreamItem::FatalError(_) => {},
            }
        },
        None => {},
    }
}

/// Restart recovery: a stream started from the checkpoint `origin` never
/// emits a block at or before `origin`, and the first block it emits has
/// the number after `origin`'s and names `origin` as its parent.
pub proof fn lemma_restart_resumes_after_checkpoint(
    fresh: StreamState,
    origin: BlockPointer,
    events: Seq<StreamEvent>,
)
    requires
        fresh.wf(),
        fresh.phase is Uninitialized,
    ensures
        forall|i: int|
            0 <= i < blocks_of(emitted(fresh.started(origin), events)).len() ==> (
            #[trigger] blocks_of(emitted(fresh.started(origin), events))[i]).number
                > origin.number,
        blocks_of(emitted(fresh.started(origin), events)).len() > 0 ==> blocks_of(
            emitted(fresh.started(origin), events),
        )[0].number == origin.number + 1 && blocks_of(
            emitted(fresh.started(origin), events),
        )[0].parent_hash == origin.hash,
{
    lemma_started_wf(fresh, origin);
    lemma_run_resumed(fresh.started(origin), origin, events);
}

/// Starting an unstarted stream gives a well-formed running stream.
pub proof fn lemma_started_wf(fresh: StreamState, origin: BlockPointer)
    requires
        fresh.wf(),
        fresh.phase is Uninitialized,
    ensures
        fresh.started(origin).wf(),
        resumed_from(origin, fresh.started(origin), Seq::empty()),
{
}

/// Running keeps what holds of a stream started from `origin`.
pub proof fn lemma_run_resumed(state: StreamState, origin: BlockPointer, events: Seq<StreamEvent>)
    requires
        state.wf(),
        resumed_from(origin, state, Seq::empty()),
    ensures
        resumed_from(origin, run(state, events), emitted(state, events)),
    decreases events.len(),
{
    if events.len() > 0 {
        lemma_run_resumed(state, origin, events.drop_last());
        lemma_run_wf(state, events.drop_last());
        lemma_step_resumed(
            origin,
            run(state, events.drop_last()),
            emitted(state, events.drop_last()),
            events.last(),
        );
    }
}

/// The state after the consumer acknowledged the blocks with the hashes
/// `hashes`, in that order.
pub open spec fn acknowledge_all(state: StreamState, hashes: Seq<H256>) -> StreamState
    decreases hashes.len(),
{
    if hashes.len() == 0 {
        state
    } else {
        acknowledge_all(state, hashes.drop_last()).acknowledge(hashes.last())
    }
}

/// An acknowledgement changes nothing but the checkpoint, never moves it
/// backward, and keeps it at or before the anchor.
pub proof fn lemma_acknowledge_monotonic(state: StreamState, hash: H256)
    requires
        state.wf(),
    ensures
        state.acknowledge(hash).wf(),
        state.acknowledge(hash) == (StreamState {
            checkpoint: state.acknowledge(hash).checkpoint,
            ..state
        }),
        state.acknowledge(hash).checkpoint.number >= state.checkpoint.number,
        state.running() ==> state.acknowledge(hash).checkpoint.number <= state.confirmed.number,
{
    lemma_newest_with_hash(state.history, hash);
    match newest_with_hash(state.history, hash) {
        Some(i) => {
            if state.running() {
                lemma_linked_numbers(state.history, i, state.history.len() - 1);
            }
        },
        None => {},
    }
}

/// Acknowledging the same block again changes nothing.
pub proof fn lemma_acknowledge_idempotent(state: StreamState, hash: H256)
    ensures
        state.acknowledge(hash).acknowledge(hash) == state.acknowledge(hash),
{
}

/// Checkpoint monotonicity: however acknowledgements are repeated or
/// reordered, the checkpoint's number never decreases.
pub proof fn lemma_acknowledgements_monotonic(state: StreamState, hashes: Seq<H256>)
    requires
        state.wf(),
    ensures
        acknowledge_all(state, hashes).wf(),
        acknowledge_all(state, hashes).checkpoint.number >= state.checkpoint.number,
    decreases hashes.len(),
{
    if hashes.len() > 0 {
        lemma_acknowledgements_monotonic(state, hashes.drop_last());
        lemma_acknowledge_monotonic(acknowledge_all(state, hashes.drop_last()), hashes.last());
    }
}

/// An acknowledgement changes nothing of what the stream emits: after it,
/// every transition emits the same item and leads to the same state but for
/// the checkpoint.
pub proof fn lemma_acknowledgement_leaves_emission(
    state: StreamState,
    hash: H256,
    event: StreamEvent,
)
    requires
        state.wf(),
    ensures
        state.acknowledge(hash).step(event).1 == state.step(event).1,
        state.acknowledge(hash).step(event).0 == (StreamState {
            checkpoint: state.acknowledge(hash).step(event).0.checkpoint,
            ..state.step(event).0
        }),
{
    lemma_acknowledge_monotonic(state, hash);
}

} // verus!
