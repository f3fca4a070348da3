//! Plain chain data: hashes, block pointers, chain heads and checkpoints.

use vstd::prelude::*;
use vstd::std_specs::cmp::PartialEqSpecImpl;

verus! {

/// A 32-byte hash.
#[derive(Clone, Copy, Debug, Eq)]
pub struct H256(pub [u8; 32]);

impl H256 {
    /// The hash whose bytes are all zero.
    pub fn zero() -> (h: H256)
        ensures
            h.0@ == Seq::new(32, |i: int| 0u8),
    {
        H256([0u8; 32])
    }
}

impl View for H256 {
    type V = Seq<u8>;

    open spec fn view(&self) -> Seq<u8> {
        self.0@
    }
}

/// Two hashes with the same bytes are the same hash.
pub proof fn lemma_hash_view_injective(a: H256, b: H256)
    ensures
        (a@ == b@) <==> (a == b),
{
    if a@ == b@ {
        assert(a.0@ =~= b.0@);
        assert(a.0 == b.0);
    }
}

impl PartialEq for H256 {
    fn eq(&self, other: &H256) -> (r: bool) {
        let mut i: usize = 0;
        while i < 32
            invariant
                i <= 32,
                forall|j: int| 0 <= j < i ==> self.0@[j] == other.0@[j],
            decreases 32 - i,
        {
            if self.0[i] != other.0[i] {
                return false;
            }
            i = i + 1;
        }
        proof {
            assert(self.0@ =~= other.0@);
            assert(self.0 == other.0);
        }
        true
    }
}

impl PartialEqSpecImpl for H256 {
    open spec fn obeys_eq_spec() -> bool {
        true
    }

    open spec fn eq_spec(&self, other: &H256) -> bool {
        *self == *other
    }
}

/// Identifies one block and links it to its parent.
#[derive(Clone, Copy, Debug, Eq)]
pub struct BlockPointer {
    pub number: u64,
    pub hash: H256,
    pub parent_hash: H256,
}

impl PartialEq for BlockPointer {
    fn eq(&self, other: &BlockPointer) -> (r: bool) {
        self.number == other.number && self.hash == other.hash && self.parent_hash
            == other.parent_hash
    }
}

impl PartialEqSpecImpl for BlockPointer {
    open spec fn obeys_eq_spec() -> bool {
        true
    }

    open spec fn eq_spec(&self, other: &BlockPointer) -> bool {
        *self == *other
    }
}

impl BlockPointer {
    /// `self` is the block that directly follows `parent`.
    pub open spec fn extends(self, parent: BlockPointer) -> bool {
        self.number == parent.number + 1 && self.parent_hash == parent.hash
    }

    /// Whether `self` is the block that directly follows `parent`.
    pub fn is_child_of(&self, parent: &BlockPointer) -> (r: bool)
        ensures
            r == self.extends(*parent),
    {
        parent.number < u64::MAX && self.number == parent.number + 1 && self.parent_hash
            == parent.hash
    }
}

/// The latest tip that the chain store knows for a network.
#[derive(Clone, Debug)]
pub struct ChainHead {
    pub network: String,
    pub pointer: BlockPointer,
}

/// The last block a consumer has durably committed for a subgraph.
#[derive(Clone, Debug)]
pub struct Checkpoint {
    pub subgraph_id: String,
    pub confirmed: BlockPointer,
}

} // verus!
