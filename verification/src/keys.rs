//! Packing of a pair of 64-bit ids into one 128-bit storage key.

use vstd::prelude::*;

verus! {

/// The packed key: `high * 2^64 + low`.
pub open spec fn pair_key(high: u64, low: u64) -> u128 {
    ((high as u128) * 0x1_0000_0000_0000_0000 + (low as u128)) as u128
}

/// The packing is injective: distinct pairs get distinct keys.
pub broadcast proof fn lemma_pair_key_injective(h1: u64, l1: u64, h2: u64, l2: u64)
    ensures
        #![trigger pair_key(h1, l1), pair_key(h2, l2)]
        pair_key(h1, l1) == pair_key(h2, l2) ==> h1 == h2 && l1 == l2,
{
}

/// Packs a pair of ids into the key the storage maps use.
pub fn make_key(high: u64, low: u64) -> (r: u128)
    ensures
        r == pair_key(high, low),
{
    (high as u128) * 0x1_0000_0000_0000_0000u128 + (low as u128)
}

} // verus!
