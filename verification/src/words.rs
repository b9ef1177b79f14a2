//! How the bit array lies in storage: eight slots to a 64-bit word, in the
//! word's low byte, slot `8 * i + k` being bit `k` of word `i`.

use crate::model::SLOTS_PER_WORD;
use vstd::prelude::*;

verus! {

/// Whether bit `k` of `word` is set, for `k` below 64.
pub open spec fn bit_at(word: u64, k: int) -> bool {
    word & (1u64 << (k as u64)) != 0
}

/// Whether `slot` is set in `words`.
pub open spec fn slot_bit(words: Seq<u64>, slot: int) -> bool {
    bit_at(words[slot / SLOTS_PER_WORD as int], slot % SLOTS_PER_WORD as int)
}

/// The bit array that `words` stores.
pub open spec fn unpack(words: Seq<u64>) -> Seq<bool> {
    Seq::new(SLOTS_PER_WORD as nat * words.len(), |slot: int| slot_bit(words, slot))
}

/// Storage of `words` words with every bit clear.
pub open spec fn zeroed(words: nat) -> Seq<u64> {
    Seq::new(words, |i: int| 0u64)
}

/// Storage in which nothing is set above the low byte of any word.
pub open spec fn low_bytes_only(words: Seq<u64>) -> bool {
    forall|i: int| 0 <= i < words.len() ==> #[trigger] words[i] < 256
}

/// Setting bit `k` of a word sets that bit and changes no other, and keeps
/// a word within its low byte.
pub proof fn lemma_set_bit(word: u64, k: u64, j: u64)
    requires
        k < 8,
        j < 8,
    ensures
        bit_at(word | (1u64 << k), j as int) == (j == k || bit_at(word, j as int)),
        word < 256 ==> (word | (1u64 << k)) < 256,
{
    assert(((word | (1u64 << k)) & (1u64 << j) != 0) == (j == k || (word & (1u64 << j) != 0)))
        by (bit_vector)
        requires
            k < 8,
            j < 8,
    ;
    assert(word < 256 ==> (word | (1u64 << k)) < 256) by (bit_vector)
        requires
            k < 8,
    ;
}

/// No bit of the zero word is set.
pub proof fn lemma_zero_word(k: u64)
    ensures
        !bit_at(0, k as int),
{
    assert(0u64 & (1u64 << k) == 0) by (bit_vector);
}

/// Shifts and masks by three bits are division, remainder and
/// multiplication by eight.
pub proof fn lemma_eights(x: u64)
    ensures
        x >> 3 == x / 8,
        x & 7 == x % 8,
        x <= 0x1fff_ffff_ffff_ffff ==> x << 3 == x * 8,
{
    assert(x >> 3 == x / 8) by (bit_vector);
    assert(x & 7 == x % 8) by (bit_vector);
    assert(x <= 0x1fff_ffff_ffff_ffff ==> x << 3 == x * 8) by (bit_vector);
}

/// Two words with nothing above the low byte are equal when they agree on
/// each of its eight bits.
pub proof fn lemma_low_byte_decides(a: u64, b: u64)
    requires
        a < 256,
        b < 256,
        forall|k: int| 0 <= k < 8 ==> bit_at(a, k) == bit_at(b, k),
    ensures
        a == b,
{
    assert(bit_at(a, 0) == bit_at(b, 0));
    assert(bit_at(a, 1) == bit_at(b, 1));
    assert(bit_at(a, 2) == bit_at(b, 2));
    assert(bit_at(a, 3) == bit_at(b, 3));
    assert(bit_at(a, 4) == bit_at(b, 4));
    assert(bit_at(a, 5) == bit_at(b, 5));
    assert(bit_at(a, 6) == bit_at(b, 6));
    assert(bit_at(a, 7) == bit_at(b, 7));
    assert(a == b) by (bit_vector)
        requires
            a < 256,
            b < 256,
            (a & (1u64 << 0u64) != 0) == (b & (1u64 << 0u64) != 0),
            (a & (1u64 << 1u64) != 0) == (b & (1u64 << 1u64) != 0),
            (a & (1u64 << 2u64) != 0) == (b & (1u64 << 2u64) != 0),
            (a & (1u64 << 3u64) != 0) == (b & (1u64 << 3u64) != 0),
            (a & (1u64 << 4u64) != 0) == (b & (1u64 << 4u64) != 0),
            (a & (1u64 << 5u64) != 0) == (b & (1u64 << 5u64) != 0),
            (a & (1u64 << 6u64) != 0) == (b & (1u64 << 6u64) != 0),
            (a & (1u64 << 7u64) != 0) == (b & (1u64 << 7u64) != 0),
    ;
}

/// Storage with nothing above the low bytes is decided by the bit array
/// that it stores.
pub proof fn lemma_unpack_injective(a: Seq<u64>, b: Seq<u64>)
    requires
        low_bytes_only(a),
        low_bytes_only(b),
        unpack(a) == unpack(b),
    ensures
        a == b,
{
    assert(unpack(a).len() == 8 * a.len());
    assert(unpack(b).len() == 8 * b.len());
    assert forall|i: int| 0 <= i < a.len() implies a[i] == b[i] by {
        assert forall|k: int| 0 <= k < 8 implies bit_at(a[i], k) == bit_at(b[i], k) by {
            let slot = 8 * i + k;
            assert(unpack(a)[slot] == slot_bit(a, slot));
            assert(unpack(b)[slot] == slot_bit(b, slot));
        }
        lemma_low_byte_decides(a[i], b[i]);
    }
    assert(a =~= b);
}

} // verus!
