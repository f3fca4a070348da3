//! Hashing of event signatures and lookup of contract events by signature.

use crate::types::H256;
use vstd::prelude::*;
use vstd::string::*;

verus! {

/// The Keccak-256 digest of a byte string.
pub uninterp spec fn keccak256_of(data: Seq<u8>) -> Seq<u8>;

/// Calls `tiny_keccak::keccak256`, which absorbs `data` into a fresh
/// Keccak-256 sponge and squeezes 32 bytes out of it. The digest depends on
/// the bytes alone; the contract gives it the name `keccak256_of`.
#[verifier::external_body]
fn keccak256_digest(data: &Vec<u8>) -> (digest: H256)
    ensures
        digest@ == keccak256_of(data@),
{
    H256(tiny_keccak::keccak256(data.as_slice()))
}

/// The bytes of `bytes` that are not an ASCII space, in their order.
pub open spec fn without_spaces(bytes: Seq<u8>) -> Seq<u8> {
    bytes.filter(|b: u8| b != 0x20u8)
}

/// The hash that `string_to_h256` gives to a string with these UTF-8 bytes.
pub open spec fn signature_hash(bytes: Seq<u8>) -> Seq<u8> {
    keccak256_of(without_spaces(bytes))
}

/// Copies `bytes` without its ASCII spaces.
pub fn strip_spaces(bytes: &Vec<u8>) -> (out: Vec<u8>)
    ensures
        out@ == without_spaces(bytes@),
{
    let ghost keep = |b: u8| b != 0x20u8;
    let mut out: Vec<u8> = Vec::new();
    let mut i: usize = 0;
    while i < bytes.len()
        invariant
            i <= bytes.len(),
            keep == (|b: u8| b != 0x20u8),
            out@ == bytes@.take(i as int).filter(keep),
        decreases bytes.len() - i,
    {
        let b = bytes[i];
        proof {
            let head = bytes@.take(i as int);
            assert(bytes@.take(i + 1) =~= head + seq![b]);
            Seq::filter_distributes_over_add(head, seq![b], keep);
            reveal_with_fuel(Seq::filter, 2);
            assert(seq![b].drop_last() =~= Seq::<u8>::empty());
            assert(seq![b].filter(keep) =~= if keep(b) {
                seq![b]
            } else {
                Seq::<u8>::empty()
            });
        }
        if b != 0x20u8 {
            out.push(b);
        }
        i = i + 1;
    }
    proof {
        assert(bytes@.take(bytes.len() as int) =~= bytes@);
    }
    out
}

/// Hashes a string to a 32-byte hash: the Keccak-256 digest of its UTF-8
/// bytes with every space removed.
pub fn string_to_h256(s: &str) -> (h: H256)
    ensures
        h@ == signature_hash(s.spec_bytes()),
{
    let bytes = s.as_bytes_vec();
    let data = strip_spaces(&bytes);
    keccak256_digest(&data)
}

/// One event of a contract's interface: its name and the hash of its
/// canonical signature.
#[derive(Clone, Debug)]
pub struct ContractEvent {
    pub name: String,
    pub signature: H256,
}

/// `i` is the first position in `events` whose signature hash is `wanted`.
pub open spec fn is_first_match(events: Seq<ContractEvent>, wanted: Seq<u8>, i: int) -> bool {
    &&& 0 <= i < events.len()
    &&& events[i].signature@ == wanted
    &&& forall|j: int| 0 <= j < i ==> events[j].signature@ != wanted
}

/// The position of the first event in `events` whose signature hash is
/// `wanted`, if there is one.
pub fn position_of_signature(events: &Vec<ContractEvent>, wanted: H256) -> (found: Option<usize>)
    ensures
        match found {
            Some(i) => is_first_match(events@, wanted@, i as int),
            None => forall|j: int| 0 <= j < events.len() ==> events[j].signature@ != wanted@,
        },
{
    let mut i: usize = 0;
    while i < events.len()
        invariant
            i <= events.len(),
            forall|j: int| 0 <= j < i ==> events[j].signature@ != wanted@,
        decreases events.len() - i,
    {
        if events[i].signature == wanted {
            return Some(i);
        }
        proof {
            crate::types::lemma_hash_view_injective(events[i as int].signature, wanted);
        }
        i = i + 1;
    }
    None
}

/// Returns the contract event with the given signature, if it exists: the
/// first event whose signature hash equals `string_to_h256(signature)`.
pub fn contract_event_with_signature<'a>(events: &'a Vec<ContractEvent>, signature: &str) -> (found:
    Option<&'a ContractEvent>)
    ensures
        match found {
            Some(event) => exists|i: int|
                #![trigger events[i]]
                is_first_match(events@, signature_hash(signature.spec_bytes()), i) && *event
                    == events[i],
            None => forall|j: int|
                0 <= j < events.len() ==> events[j].signature@ != signature_hash(
                    signature.spec_bytes(),
                ),
        },
{
    let wanted = string_to_h256(signature);
    match position_of_signature(events, wanted) {
        Some(i) => Some(&events[i]),
        None => None,
    }
}

} // verus!
