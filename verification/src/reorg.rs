//! The block stream run against a chain: what it emits when the chain it is
//! told of has forked away from what it emitted.

use crate::laws::lemma_closed_is_silent;
use crate::model::{
    lemma_linked_numbers, lemma_step_preserves_wf, Action, FatalKind, StreamEvent, StreamItem,
    StreamState,
};
use crate::types::{BlockPointer, ChainHead};
use vstd::prelude::*;

verus! {

/// The block after the one at height `n` names it as its parent.
pub open spec fn parent_at(chain: spec_fn(int) -> BlockPointer, n: int) -> bool {
    chain(n + 1).parent_hash == chain(n).hash
}

/// From `low` to `high`, `chain` gives a block of each height, each the
/// parent of the next.
pub open spec fn canonical(chain: spec_fn(int) -> BlockPointer, low: int, high: int) -> bool {
    &&& forall|n: int| low <= n <= high ==> (#[trigger] chain(n)).number == n
    &&& forall|n: int| low <= n < high ==> #[trigger] parent_at(chain, n)
}

/// The chain has, at the pointer's height, the block with the pointer's hash.
pub open spec fn hash_on_chain(chain: spec_fn(int) -> BlockPointer, pointer: BlockPointer) -> bool {
    chain(pointer.number as int).hash == pointer.hash
}

/// What the chain client and the chain store answer to `action` when the
/// canonical chain is `chain`; nothing where the stream waits for a head or
/// for nothing.
pub open spec fn answer(chain: spec_fn(int) -> BlockPointer, action: Action) -> Option<StreamEvent> {
    match action {
        Action::FetchAncestor { of, at_number } => Some(
            StreamEvent::Ancestor(chain(at_number as int)),
        ),
        Action::FetchBlock { number } => Some(StreamEvent::Block(chain(number as int))),
        _ => None,
    }
}

/// The stream driven by the answers of `chain` for at most `fuel`
/// transitions, until it waits for a head or is closed: the state it ends in
/// and the items it emits.
pub open spec fn drive(state: StreamState, chain: spec_fn(int) -> BlockPointer, fuel: nat) -> (
    StreamState,
    Seq<StreamItem>,
)
    decreases fuel,
{
    if fuel == 0 {
        (state, Seq::empty())
    } else {
        match answer(chain, state.next_action()) {
            None => (state, Seq::empty()),
            Some(event) => {
                let (next, item) = state.step(event);
                let (last, rest) = drive(next, chain, (fuel - 1) as nat);
                (
                    last,
                    match item {
                        Some(item) => seq![item] + rest,
                        None => rest,
                    },
                )
            },
        }
    }
}

/// The blocks of `chain` after the height `from` up to the height `to`, as
/// emitted items.
pub open spec fn chain_blocks(chain: spec_fn(int) -> BlockPointer, from: int, to: int) -> Seq<
    StreamItem,
> {
    Seq::new((to - from) as nat, |i: int| StreamItem::Block(chain(from + 1 + i)))
}

/// An advancing stream whose anchor is on the chain emits the blocks of the
/// chain from the one after its anchor up to the head's height, and then
/// waits for the next head.
pub proof fn lemma_drive_advancing(
    state: StreamState,
    chain: spec_fn(int) -> BlockPointer,
    fuel: nat,
)
    requires
        state.wf(),
        state.phase is Advancing,
        canonical(chain, state.confirmed.number as int, state.head->0.number as int),
        hash_on_chain(chain, state.confirmed),
        fuel >= state.head->0.number - state.confirmed.number,
    ensures
        drive(state, chain, fuel).1 == chain_blocks(
            chain,
            state.confirmed.number as int,
            state.head->0.number as int,
        ),
        drive(state, chain, fuel).0.wf(),
        drive(state, chain, fuel).0.phase is AwaitingHead,
        drive(state, chain, fuel).0.head is None,
        drive(state, chain, fuel).0.confirmed == chain(state.head->0.number as int),
        drive(state, chain, fuel).0.checkpoint == state.checkpoint,
    decreases state.head->0.number - state.confirmed.number,
{
    let from = state.confirmed.number as int;
    let to = state.head->0.number as int;
    let block = chain(from + 1);
    let event = StreamEvent::Block(block);
    assert(answer(chain, state.next_action()) == Some(event));
    assert(parent_at(chain, from));
    assert(block.extends(state.confirmed));
    lemma_step_preserves_wf(state, event);
    let next = state.step(event).0;
    assert(state.step(event).1 == Some(StreamItem::Block(block)));
    let rest = drive(next, chain, (fuel - 1) as nat).1;
    assert(drive(state, chain, fuel).1 == seq![StreamItem::Block(block)] + rest);
    if from + 1 == to {
        assert(next.phase is AwaitingHead);
        assert(rest =~= Seq::<StreamItem>::empty());
        assert(seq![StreamItem::Block(block)] + rest =~= chain_blocks(chain, from, to));
    } else {
        assert(next.phase is Advancing);
        lemma_drive_advancing(next, chain, (fuel - 1) as nat);
        assert(seq![StreamItem::Block(block)] + chain_blocks(chain, from + 1, to) =~= chain_blocks(
            chain,
            from,
            to,
        ));
    }
}

/// The stream is looking for the common ancestor: it waits for the answer to
/// an ancestor lookup.
pub open spec fn walking(state: StreamState) -> bool {
    (state.phase is AwaitingHead && state.head is Some) || state.phase is Reconciling
}

/// The retained entries from position `from` up to the cursor are not on
/// the chain.
pub open spec fn off_chain_down_to(
    state: StreamState,
    chain: spec_fn(int) -> BlockPointer,
    from: int,
) -> bool {
    forall|i: int| from <= i <= state.cursor ==> !hash_on_chain(chain, #[trigger] state.history[i])
}

/// A stream that looks for the common ancestor finds the newest retained
/// entry at or before its cursor that is on the chain. Unless that is the
/// block it is anchored at, it emits one revert to it. Then it emits the
/// blocks of the chain after it, up to the head's height.
pub proof fn lemma_drive_walk_found(
    state: StreamState,
    chain: spec_fn(int) -> BlockPointer,
    found: int,
    fuel: nat,
)
    requires
        state.wf(),
        walking(state),
        0 <= found <= state.cursor,
        hash_on_chain(chain, state.history[found]),
        off_chain_down_to(state, chain, found + 1),
        canonical(chain, state.history[0].number as int, state.head->0.number as int),
        fuel >= (state.cursor - found + 1) + (state.head->0.number - state.history[found].number),
    ensures
        drive(state, chain, fuel).1 == (if state.phase is AwaitingHead && found == state.cursor {
            Seq::<StreamItem>::empty()
        } else {
            seq![StreamItem::Revert(state.history[found])]
        }) + chain_blocks(
            chain,
            state.history[found].number as int,
            state.head->0.number as int,
        ),
        drive(state, chain, fuel).0.wf(),
        drive(state, chain, fuel).0.phase is AwaitingHead,
        drive(state, chain, fuel).0.head is None,
        drive(state, chain, fuel).0.confirmed == chain(state.head->0.number as int),
    decreases state.cursor - found,
{
    let cursor = state.cursor as int;
    let candidate = state.history[cursor];
    lemma_linked_numbers(state.history, 0, cursor);
    lemma_linked_numbers(state.history, 0, found);
    lemma_linked_numbers(state.history, cursor, state.history.len() - 1);
    let event = StreamEvent::Ancestor(chain(candidate.number as int));
    assert(answer(chain, state.next_action()) == Some(event));
    lemma_step_preserves_wf(state, event);
    let next = state.step(event).0;
    if found == cursor {
        assert(next.phase is Advancing);
        assert(next.confirmed == candidate);
        lemma_drive_advancing(next, chain, (fuel - 1) as nat);
        if state.phase is AwaitingHead {
            assert(state.step(event).1 is None);
        } else {
            assert(state.step(event).1 == Some(StreamItem::Revert(candidate)));
        }
    } else {
        assert(!hash_on_chain(chain, state.history[cursor]));
        assert(state.step(event).1 is None);
        assert(next.phase is Reconciling);
        assert(next.cursor == cursor - 1);
        assert forall|i: int| found + 1 <= i <= next.cursor implies !hash_on_chain(
            chain,
            #[trigger] next.history[i],
        ) by {
            assert(!hash_on_chain(chain, state.history[i]));
        }
        lemma_drive_walk_found(next, chain, found, (fuel - 1) as nat);
    }
}

/// A stream that looks for the common ancestor and retains no entry on the
/// chain at or before its cursor ends with the fatal error of an unbounded
/// reorganisation, and emits nothing else.
pub proof fn lemma_drive_walk_exhausted(
    state: StreamState,
    chain: spec_fn(int) -> BlockPointer,
    fuel: nat,
)
    requires
        state.wf(),
        walking(state),
        off_chain_down_to(state, chain, 0),
        canonical(chain, state.history[0].number as int, state.head->0.number as int),
        fuel >= state.cursor + 1,
    ensures
        drive(state, chain, fuel).1 == seq![StreamItem::FatalError(FatalKind::UnboundedReorg)],
        drive(state, chain, fuel).0.phase is Closed,
    decreases state.cursor,
{
    let cursor = state.cursor as int;
    let candidate = state.history[cursor];
    lemma_linked_numbers(state.history, 0, cursor);
    lemma_linked_numbers(state.history, cursor, state.history.len() - 1);
    let event = StreamEvent::Ancestor(chain(candidate.number as int));
    assert(answer(chain, state.next_action()) == Some(event));
    assert(!hash_on_chain(chain, state.history[cursor]));
    lemma_step_preserves_wf(state, event);
    let next = state.step(event).0;
    let rest = drive(next, chain, (fuel - 1) as nat).1;
    if cursor == 0 {
        assert(next.phase is Closed);
        assert(rest =~= Seq::<StreamItem>::empty());
        assert(drive(state, chain, fuel).1 =~= seq![
            StreamItem::FatalError(FatalKind::UnboundedReorg),
        ]);
    } else {
        assert(next.phase is Reconciling);
        assert forall|i: int| 0 <= i <= next.cursor implies !hash_on_chain(
            chain,
            #[trigger] next.history[i],
        ) by {
            assert(!hash_on_chain(chain, state.history[i]));
        }
        lemma_drive_walk_exhausted(next, chain, (fuel - 1) as nat);
    }
}

/// `found` is the position of the common ancestor of what the stream
/// retains and the chain that ends in `head`: the newest retained block
/// below the head's height that the chain has too.
pub open spec fn is_common_ancestor(
    chain: spec_fn(int) -> BlockPointer,
    history: Seq<BlockPointer>,
    head: BlockPointer,
    found: int,
) -> bool {
    &&& 0 <= found < history.len()
    &&& history[found].number < head.number
    &&& hash_on_chain(chain, history[found])
    &&& forall|i: int|
        found < i < history.len() && history[i].number <= head.number ==> !hash_on_chain(
            chain,
            #[trigger] history[i],
        )
}

/// No retained block at or below the head's height is on the chain: the
/// common ancestor lies before the oldest retained block.
pub open spec fn no_common_ancestor(
    chain: spec_fn(int) -> BlockPointer,
    history: Seq<BlockPointer>,
    head: BlockPointer,
) -> bool {
    forall|i: int|
        0 <= i < history.len() && history[i].number <= head.number ==> !hash_on_chain(
            chain,
            #[trigger] history[i],
        )
}

/// Single revert per reorganisation: a waiting stream is told of a head of
/// a chain that forked away below the block it is anchored at, and the
/// common ancestor is still retained. It then emits exactly one revert, which
/// names the common ancestor, followed by the blocks of the new chain from
/// the one after the common ancestor up to the head's height, each height
/// once; and it waits for the next head, anchored at the last of them.
pub proof fn lemma_reorg_single_revert(
    state: StreamState,
    chain: spec_fn(int) -> BlockPointer,
    head: ChainHead,
    found: int,
    fuel: nat,
)
    requires
        state.wf(),
        state.phase is AwaitingHead,
        state.head is None,
        head.network@ == state.network,
        hash_on_chain(chain, head.pointer),
        canonical(chain, state.history[0].number as int, head.pointer.number as int),
        is_common_ancestor(chain, state.history, head.pointer, found),
        found < state.history.len() - 1,
        fuel >= state.history.len() + (head.pointer.number - state.history[found].number),
    ensures
        state.step(StreamEvent::Head(head)).1 is None,
        drive(state.step(StreamEvent::Head(head)).0, chain, fuel).1 == seq![
            StreamItem::Revert(state.history[found]),
        ] + chain_blocks(chain, state.history[found].number as int, head.pointer.number as int),
        drive(state.step(StreamEvent::Head(head)).0, chain, fuel).0.wf(),
        drive(state.step(StreamEvent::Head(head)).0, chain, fuel).0.phase is AwaitingHead,
        drive(state.step(StreamEvent::Head(head)).0, chain, fuel).0.head is None,
        drive(state.step(StreamEvent::Head(head)).0, chain, fuel).0.confirmed == chain(
            head.pointer.number as int,
        ),
{
    let event = StreamEvent::Head(head);
    let pointer = head.pointer;
    let last = state.history.len() - 1;
    lemma_step_preserves_wf(state, event);
    lemma_linked_numbers(state.history, 0, last);
    lemma_linked_numbers(state.history, 0, found);
    lemma_linked_numbers(state.history, found, last);
    let next = state.step(event).0;
    if pointer.number > state.confirmed.number {
        assert(next.cursor == last);
        assert forall|i: int| found + 1 <= i <= next.cursor implies !hash_on_chain(
            chain,
            #[trigger] next.history[i],
        ) by {
            lemma_linked_numbers(state.history, i, last);
        }
    } else {
        let k = pointer.number - state.history[0].number;
        lemma_linked_numbers(state.history, 0, k);
        assert(!hash_on_chain(chain, state.history[k]));
        assert(next.phase is Reconciling);
        assert(next.cursor == k - 1);
        assert forall|i: int| found + 1 <= i <= next.cursor implies !hash_on_chain(
            chain,
            #[trigger] next.history[i],
        ) by {
            lemma_linked_numbers(state.history, i, k);
        }
    }
    lemma_drive_walk_found(next, chain, found, fuel);
}

/// Unbounded reorganisation: a waiting stream is told of a head of a chain
/// that has none of the retained blocks at or below the head's height. It
/// then emits exactly one item, the fatal error of an unbounded
/// reorganisation, closes, and emits nothing ever after.
pub proof fn lemma_unbounded_reorg_is_fatal(
    state: StreamState,
    chain: spec_fn(int) -> BlockPointer,
    head: ChainHead,
    fuel: nat,
    later: Seq<StreamEvent>,
)
    requires
        state.wf(),
        state.phase is AwaitingHead,
        state.head is None,
        head.network@ == state.network,
        hash_on_chain(chain, head.pointer),
        canonical(chain, state.history[0].number as int, head.pointer.number as int),
        no_common_ancestor(chain, state.history, head.pointer),
        fuel >= state.history.len(),
    ensures
        ({
            let (next, first) = state.step(StreamEvent::Head(head));
            let (last, rest) = drive(next, chain, fuel);
            &&& (match first {
                Some(item) => seq![item] + rest,
                None => rest,
            }) == seq![StreamItem::FatalError(FatalKind::UnboundedReorg)]
            &&& last.phase is Closed
            &&& crate::laws::emitted(last, later) == Seq::<StreamItem>::empty()
        }),
{
    let event = StreamEvent::Head(head);
    let pointer = head.pointer;
    let last = state.history.len() - 1;
    lemma_step_preserves_wf(state, event);
    lemma_linked_numbers(state.history, 0, last);
    let (next, first) = state.step(event);
    let (end, rest) = drive(next, chain, fuel);
    if pointer.number > state.confirmed.number {
        assert forall|i: int| 0 <= i <= next.cursor implies !hash_on_chain(
            chain,
            #[trigger] next.history[i],
        ) by {
            lemma_linked_numbers(state.history, i, last);
        }
        lemma_drive_walk_exhausted(next, chain, fuel);
    } else if pointer.number < state.history[0].number {
        assert(next.phase is Closed);
        assert(rest =~= Seq::<StreamItem>::empty());
        assert(seq![first->0] + rest =~= seq![StreamItem::FatalError(FatalKind::UnboundedReorg)]);
    } else {
        let k = pointer.number - state.history[0].number;
        lemma_linked_numbers(state.history, 0, k);
        assert(!hash_on_chain(chain, state.history[k]));
        if k == 0 {
            assert(next.phase is Closed);
            assert(rest =~= Seq::<StreamItem>::empty());
            assert(seq![first->0] + rest =~= seq![
                StreamItem::FatalError(FatalKind::UnboundedReorg),
            ]);
        } else {
            assert forall|i: int| 0 <= i <= next.cursor implies !hash_on_chain(
                chain,
                #[trigger] next.history[i],
            ) by {
                lemma_linked_numbers(state.history, i, k);
            }
            lemma_drive_walk_exhausted(next, chain, fuel);
        }
    }
    lemma_closed_is_silent(end, later);
}

} // verus!
