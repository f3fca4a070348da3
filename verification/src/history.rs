//! The bounded history of recently emitted block pointers: a ring buffer
//! addressed by index, oldest entry first, that evicts its oldest entry when
//! a new one arrives at capacity.

use crate::types::{BlockPointer, H256};
use vstd::prelude::*;

verus! {

/// The slot that holds the entry `offset` places after the slot `start`, in a
/// ring of `size` slots.
pub open spec fn ring_slot(start: int, offset: int, size: int) -> int {
    if start + offset >= size {
        start + offset - size
    } else {
        start + offset
    }
}

/// What a history holds after `entry` arrives: the entry is appended, and the
/// oldest entries leave until at most `capacity` remain.
pub open spec fn pushed(entries: Seq<BlockPointer>, capacity: nat, entry: BlockPointer) -> Seq<
    BlockPointer,
> {
    let all = entries.push(entry);
    if all.len() <= capacity {
        all
    } else {
        all.skip(all.len() - capacity)
    }
}

/// The position of the newest entry with the hash `hash`, if there is one.
pub open spec fn newest_with_hash(entries: Seq<BlockPointer>, hash: H256) -> Option<int>
    decreases entries.len(),
{
    if entries.len() == 0 {
        None
    } else if entries.last().hash == hash {
        Some(entries.len() - 1)
    } else {
        newest_with_hash(entries.drop_last(), hash)
    }
}

/// `newest_with_hash` finds an entry exactly when one has the hash, and then
/// the one at the greatest position.
pub proof fn lemma_newest_with_hash(entries: Seq<BlockPointer>, hash: H256)
    ensures
        match newest_with_hash(entries, hash) {
            Some(i) => {
                &&& 0 <= i < entries.len()
                &&& entries[i].hash == hash
                &&& forall|j: int| i < j < entries.len() ==> entries[j].hash != hash
            },
            None => forall|j: int| 0 <= j < entries.len() ==> entries[j].hash != hash,
        },
    decreases entries.len(),
{
    if entries.len() > 0 && entries.last().hash != hash {
        lemma_newest_with_hash(entries.drop_last(), hash);
        match newest_with_hash(entries.drop_last(), hash) {
            Some(i) => {
                assert forall|j: int| i < j < entries.len() implies entries[j].hash != hash by {
                    if j < entries.len() - 1 {
                        assert(entries.drop_last()[j].hash != hash);
                    }
                }
            },
            None => {
                assert forall|j: int| 0 <= j < entries.len() implies entries[j].hash != hash by {
                    if j < entries.len() - 1 {
                        assert(entries.drop_last()[j].hash != hash);
                    }
                }
            },
        }
    }
}

/// A bounded ring buffer of block pointers, oldest first.
pub struct History {
    slots: Vec<BlockPointer>,
    start: usize,
    len: usize,
    capacity: usize,
}

impl View for History {
    type V = Seq<BlockPointer>;

    closed spec fn view(&self) -> Seq<BlockPointer> {
        Seq::new(
            self.len as nat,
            |i: int| self.slots@[ring_slot(self.start as int, i, self.slots@.len() as int)],
        )
    }
}

impl History {
    /// The most entries the history retains.
    pub closed spec fn spec_capacity(&self) -> nat {
        self.capacity as nat
    }

    /// The representation invariant of the ring.
    pub closed spec fn wf(&self) -> bool {
        &&& self.slots@.len() <= self.capacity
        &&& self.len <= self.slots@.len()
        &&& self.start <= self.slots@.len()
        &&& self.slots@.len() > 0 ==> self.start < self.slots@.len()
        &&& self.slots@.len() < self.capacity ==> self.start + self.len <= self.slots@.len()
    }

    /// A well-formed history never holds more than its capacity, which fits
    /// the machine's index type.
    pub proof fn lemma_bounded(&self)
        requires
            self.wf(),
        ensures
            self@.len() <= self.spec_capacity() <= usize::MAX,
    {
    }

    /// An empty history that retains at most `capacity` entries.
    pub fn new(capacity: usize) -> (h: History)
        ensures
            h.wf(),
            h@ == Seq::<BlockPointer>::empty(),
            h.spec_capacity() == capacity,
    {
        let h = History { slots: Vec::new(), start: 0, len: 0, capacity };
        assert(h@ =~= Seq::<BlockPointer>::empty());
        h
    }

    /// The number of entries held.
    pub fn len(&self) -> (n: usize)
        requires
            self.wf(),
        ensures
            n == self@.len(),
    {
        self.len
    }

    /// The most entries the history retains.
    pub fn capacity(&self) -> (n: usize)
        ensures
            n == self.spec_capacity(),
    {
        self.capacity
    }

    /// Whether the history holds no entry.
    pub fn is_empty(&self) -> (r: bool)
        requires
            self.wf(),
        ensures
            r == (self@.len() == 0),
    {
        self.len == 0
    }

    fn slot_of(&self, index: usize) -> (slot: usize)
        requires
            self.wf(),
            index < self.len,
        ensures
            slot == ring_slot(self.start as int, index as int, self.slots@.len() as int),
            slot < self.slots@.len(),
    {
        let size = self.slots.len();
        if index >= size - self.start {
            index - (size - self.start)
        } else {
            self.start + index
        }
    }

    /// The entry at `index`, counting from the oldest; `None` past the end.
    pub fn get(&self, index: usize) -> (entry: Option<BlockPointer>)
        requires
            self.wf(),
        ensures
            entry == if index < self@.len() {
                Some(self@[index as int])
            } else {
                None
            },
    {
        if index < self.len {
            let slot = self.slot_of(index);
            Some(self.slots[slot])
        } else {
            None
        }
    }

    /// The newest entry, if any.
    pub fn newest(&self) -> (entry: Option<BlockPointer>)
        requires
            self.wf(),
        ensures
            entry == if self@.len() > 0 {
                Some(self@.last())
            } else {
                None
            },
    {
        if self.len == 0 {
            None
        } else {
            self.get(self.len - 1)
        }
    }

    /// The oldest entry, if any.
    pub fn oldest(&self) -> (entry: Option<BlockPointer>)
        requires
            self.wf(),
        ensures
            entry == if self@.len() > 0 {
                Some(self@[0])
            } else {
                None
            },
    {
        self.get(0)
    }

    /// Appends `entry` as the newest; at capacity the oldest entry is evicted
    /// first. With capacity zero nothing is retained.
    pub fn push(&mut self, entry: BlockPointer)
        requires
            old(self).wf(),
        ensures
            final(self).wf(),
            final(self).spec_capacity() == old(self).spec_capacity(),
            final(self)@ == pushed(old(self)@, old(self).spec_capacity(), entry),
    {
        let ghost before = self@;
        let ghost old_slots = self.slots@;
        let ghost old_start = self.start as int;
        if self.capacity == 0 {
            assert(self@ =~= pushed(before, 0, entry));
            return ;
        }
        let size = self.slots.len();
        if self.len == self.capacity {
            // Full: the newest entry takes the slot of the oldest.
            self.slots.set(self.start, entry);
            self.start = if self.start + 1 == size {
                0
            } else {
                self.start + 1
            };
            assert(self@ =~= pushed(before, self.capacity as nat, entry)) by {
                let all = before.push(entry);
                assert forall|i: int| 0 <= i < self.len implies self@[i] == all.skip(1)[i] by {
                    if i < self.len - 1 {
                        assert(all.skip(1)[i] == before[i + 1]);
                    }
                }
            }
        } else if size < self.capacity && self.start + self.len == size {
            self.slots.push(entry);
            self.len = self.len + 1;
            assert(self@ =~= pushed(before, self.capacity as nat, entry));
        } else {
            let slot = if self.len >= size - self.start {
                self.len - (size - self.start)
            } else {
                self.start + self.len
            };
            self.slots.set(slot, entry);
            self.len = self.len + 1;
            assert(self@ =~= pushed(before, self.capacity as nat, entry));
        }
    }

    /// Keeps the `keep` oldest entries and drops the newer ones; a `keep` at
    /// or past the length changes nothing.
    pub fn truncate(&mut self, keep: usize)
        requires
            old(self).wf(),
        ensures
            final(self).wf(),
            final(self).spec_capacity() == old(self).spec_capacity(),
            final(self)@ == if keep < old(self)@.len() {
                old(self)@.take(keep as int)
            } else {
                old(self)@
            },
    {
        let ghost before = self@;
        if keep < self.len {
            self.len = keep;
            assert(self@ =~= before.take(keep as int));
        }
    }

    /// The position of the newest entry with the hash `hash`, if any.
    pub fn position_of_hash(&self, hash: &H256) -> (found: Option<usize>)
        requires
            self.wf(),
        ensures
            match found {
                Some(i) => newest_with_hash(self@, *hash) == Some(i as int),
                None => newest_with_hash(self@, *hash) is None,
            },
    {
        let mut i: usize = self.len;
        while i > 0
            invariant
                self.wf(),
                i <= self.len,
                forall|j: int| i <= j < self@.len() ==> self@[j].hash != *hash,
            decreases i,
        {
            i = i - 1;
            let slot = self.slot_of(i);
            if self.slots[slot].hash == *hash {
                proof {
                    lemma_newest_with_hash(self@, *hash);
                    assert(self@[i as int].hash == *hash);
                }
                return Some(i);
            }
        }
        proof {
            lemma_newest_with_hash(self@, *hash);
        }
        None
    }
}

} // verus!
