//! The external commitment primitive.
//!
//! Three operations of the `miden-crypto` crate are consumed here, each behind
//! one trusted wrapper: a collision-resistant hash over field elements, a
//! fixed-depth sparse Merkle tree over the 256 storage slots, and a deep
//! sparse Merkle tree over digest-keyed maps. Each result is a pure function
//! of the wrapper's arguments, so it is given a name that the callers'
//! contracts speak of; nothing else is assumed of the digests.

use vstd::prelude::*;

use crate::word::Word;

verus! {

/// The digest that the hash primitive assigns to a sequence of elements.
pub uninterp spec fn rpo_hash_of(input: Seq<u64>) -> Seq<u64>;

/// The root that the slot tree assigns to a full sequence of 256 leaves.
pub uninterp spec fn storage_root_of(leaves: Seq<Seq<u64>>) -> Seq<u64>;

/// The root that the deep sparse tree assigns to a key-to-value map.
pub uninterp spec fn smt_root_of(entries: Map<Seq<u64>, Seq<u64>>) -> Seq<u64>;

/// The key-to-value map that a sequence of entries describes, later pairs
/// overriding earlier ones.
pub open spec fn entries_map_of(entries: Seq<(Word, Word)>) -> Map<Seq<u64>, Seq<u64>>
    decreases entries.len(),
{
    if entries.len() == 0 {
        Map::empty()
    } else {
        entries_map_of(entries.drop_last()).insert(entries.last().0@, entries.last().1@)
    }
}

/// Relies on `Rpo256::hash_elements` of `miden-crypto`: the digest is four
/// field elements and depends on the input elements alone.
#[verifier::external_body]
pub(crate) fn rpo_hash(input: &Vec<u64>) -> (r: Word)
    ensures
        r@ == rpo_hash_of(input@),
        r.wf(),
{
    let elements: std::vec::Vec<miden_crypto::Felt> =
        input.iter().map(|x: &u64| miden_crypto::Felt::new(*x)).collect();
    let e: [u64; 4] = miden_crypto::hash::rpo::Rpo256::hash_elements(&elements).into();
    Word { e0: e[0], e1: e[1], e2: e[2], e3: e[3] }
}

/// Relies on `SimpleSmt::<8>::with_leaves` of `miden-crypto`: with exactly the
/// 256 leaves `0..256` supplied, construction cannot fail, and the root is
/// four field elements depending on the leaf words alone.
#[verifier::external_body]
pub(crate) fn storage_tree_root(leaves: &Vec<Word>) -> (r: Word)
    requires
        leaves@.len() == 256,
    ensures
        r@ == storage_root_of(leaves@.map_values(|w: Word| w@)),
        r.wf(),
{
    let entries = leaves.iter().enumerate().map(|(i, w): (usize, &Word)| {
        (i as u64, miden_crypto::Word::new([w.e0, w.e1, w.e2, w.e3].map(miden_crypto::Felt::new)))
    });
    let tree = miden_crypto::merkle::smt::SimpleSmt::<8>::with_leaves(entries).unwrap();
    let e: [u64; 4] = tree.root().into();
    Word { e0: e[0], e1: e[1], e2: e[2], e3: e[3] }
}

/// Relies on `Smt::with_entries` of `miden-crypto`: with fewer than 1024
/// entries, all canonical and with pairwise distinct keys, construction
/// cannot fail, and the root is four field elements depending on the
/// key-to-value map alone, not on entry order.
#[verifier::external_body]
pub(crate) fn smt_tree_root(entries: &Vec<(Word, Word)>) -> (r: Word)
    requires
        entries@.len() < 1024,
        forall|i: int, j: int|
            0 <= i < j < entries@.len() ==> entries@[i].0 != entries@[j].0,
        forall|i: int|
            0 <= i < entries@.len() ==> entries@[i].0.wf() && entries@[i].1.wf(),
    ensures
        r@ == smt_root_of(entries_map_of(entries@)),
        r.wf(),
{
    let pairs = entries.iter().map(|(k, v): &(Word, Word)| {
        (miden_crypto::Word::new([k.e0, k.e1, k.e2, k.e3].map(miden_crypto::Felt::new)),
            miden_crypto::Word::new([v.e0, v.e1, v.e2, v.e3].map(miden_crypto::Felt::new)))
    });
    let tree = miden_crypto::merkle::smt::Smt::with_entries(pairs).unwrap();
    let e: [u64; 4] = tree.root().into();
    Word { e0: e[0], e1: e[1], e2: e[2], e3: e[3] }
}

} // verus!
