//! The filter as mathematics: a fixed-length sequence of booleans, one per
//! slot, and the functions on it that the executable code is held to.

use vstd::prelude::*;

verus! {

/// Slots that one storage word offers.
pub const SLOTS_PER_WORD: u64 = 8;

/// Bytes that one storage word takes.
pub const BYTES_PER_WORD: usize = 8;

/// A word count that a filter can be built with: positive, and small enough
/// for a vector of that many words to exist, which takes no more than
/// `isize::MAX` bytes.
pub open spec fn valid_word_count(words: nat) -> bool {
    0 < words && words * BYTES_PER_WORD <= isize::MAX
}

/// The bit array of a filter over `words` words that nothing was inserted in.
pub open spec fn blank(words: nat) -> Seq<bool> {
    Seq::new(SLOTS_PER_WORD as nat * words, |slot: int| false)
}

/// The slot that `digest` falls on in `bits`: its remainder by the number
/// of slots.
pub open spec fn slot_of(bits: Seq<bool>, digest: u64) -> int {
    digest as int % bits.len() as int
}

/// `bits` after one insertion of `digest`.
pub open spec fn with_digest(bits: Seq<bool>, digest: u64) -> Seq<bool> {
    bits.update(slot_of(bits, digest), true)
}

/// Whether a lookup of `digest` in `bits` answers "maybe".
pub open spec fn has_digest(bits: Seq<bool>, digest: u64) -> bool {
    bits[slot_of(bits, digest)]
}

/// `bits` after the insertion of each of `digests`, first to last.
pub open spec fn with_digests(bits: Seq<bool>, digests: Seq<u64>) -> Seq<bool>
    decreases digests.len(),
{
    if digests.len() == 0 {
        bits
    } else {
        with_digest(with_digests(bits, digests.drop_last()), digests.last())
    }
}

} // verus!
