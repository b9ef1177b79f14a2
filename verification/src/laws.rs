//! What holds of every filter, whatever is inserted in it and in whatever
//! order. An element reaches the bit array only through its digest, so the
//! laws speak of digests.

use crate::filter::Bloom;
use crate::model::{blank, has_digest, slot_of, valid_word_count, with_digest, with_digests};
use crate::words::lemma_unpack_injective;
use vstd::prelude::*;

verus! {

/// Whether one of `digests` falls on `slot` of `bits`.
pub open spec fn taken(bits: Seq<bool>, digests: Seq<u64>, slot: int) -> bool {
    exists|i: int| 0 <= i < digests.len() && slot_of(bits, #[trigger] digests[i]) == slot
}

/// `digest` inserted `times` times over.
pub open spec fn repeated(digest: u64, times: nat) -> Seq<u64> {
    Seq::new(times, |i: int| digest)
}

/// Insertions never change the number of slots, and after them a slot is
/// set exactly if it was set before or one of the inserted digests falls on
/// it. So no insertion clears a bit.
pub proof fn law_slots_after_insertions(filter: Bloom, digests: Seq<u64>, slot: int)
    requires
        filter.wf(),
        0 <= slot < filter@.len(),
    ensures
        with_digests(filter@, digests).len() == filter@.len(),
        with_digests(filter@, digests)[slot] == (filter@[slot] || taken(filter@, digests, slot)),
{
    lemma_slots_after(filter@, digests, slot);
}

/// No false negatives: once a sequence of digests is inserted, in any
/// filter, a lookup of each of them answers "maybe".
pub proof fn law_no_false_negatives(filter: Bloom, digests: Seq<u64>, i: int)
    requires
        filter.wf(),
        0 <= i < digests.len(),
    ensures
        has_digest(with_digests(filter@, digests), digests[i]),
{
    let bits = filter@;
    let slot = slot_of(bits, digests[i]);
    lemma_slots_after(bits, digests, slot);
}

/// A filter that was built and then given `digests` answers "maybe" for
/// `probe` exactly if `probe` shares its slot with one of them. A digest
/// that was never inserted is thus found if, and only if, it collides.
pub proof fn law_maybe_means_shared_slot(words: nat, digests: Seq<u64>, probe: u64)
    requires
        valid_word_count(words),
    ensures
        has_digest(with_digests(blank(words), digests), probe) == taken(
            blank(words),
            digests,
            slot_of(blank(words), probe),
        ),
{
    let bits = blank(words);
    lemma_slots_after(bits, digests, slot_of(bits, probe));
}

/// Inserting a digest that is found already changes nothing.
pub proof fn law_found_digest_adds_nothing(filter: Bloom, digest: u64)
    requires
        filter.wf(),
        has_digest(filter@, digest),
    ensures
        with_digest(filter@, digest) == filter@,
{
    assert(with_digest(filter@, digest) =~= filter@);
}

/// Idempotence: inserting a digest any number of times, at least once,
/// leaves the bit array that one insertion leaves.
pub proof fn law_insert_idempotent(filter: Bloom, digest: u64, times: nat)
    requires
        filter.wf(),
        times >= 1,
    ensures
        with_digests(filter@, repeated(digest, times)) == with_digest(filter@, digest),
    decreases times,
{
    let bits = filter@;
    let all = repeated(digest, times);
    assert(all.drop_last() =~= repeated(digest, (times - 1) as nat));
    if times == 1 {
        assert(with_digests(bits, all.drop_last()) == bits);
    } else {
        law_insert_idempotent(filter, digest, (times - 1) as nat);
        let once = with_digest(bits, digest);
        assert(with_digest(once, digest) =~= once);
    }
}

/// Inserting a digest again, at any later point, is inserting it once: two
/// runs of insertions that hold the same digests, each however often and in
/// whatever order, leave the same bit array.
pub proof fn law_same_digests_same_bits(filter: Bloom, first: Seq<u64>, second: Seq<u64>)
    requires
        filter.wf(),
        forall|digest: u64| first.contains(digest) <==> second.contains(digest),
    ensures
        with_digests(filter@, first) == with_digests(filter@, second),
{
    let bits = filter@;
    let left = with_digests(bits, first);
    let right = with_digests(bits, second);
    assert forall|slot: int| 0 <= slot < bits.len() implies left[slot] == right[slot] by {
        lemma_slots_after(bits, first, slot);
        lemma_slots_after(bits, second, slot);
        if taken(bits, first, slot) {
            let i = choose|i: int|
                0 <= i < first.len() && slot_of(bits, #[trigger] first[i]) == slot;
            assert(first.contains(first[i]));
            let j = choose|j: int| 0 <= j < second.len() && second[j] == first[i];
            assert(slot_of(bits, second[j]) == slot);
        }
        if taken(bits, second, slot) {
            let j = choose|j: int|
                0 <= j < second.len() && slot_of(bits, #[trigger] second[j]) == slot;
            assert(second.contains(second[j]));
            let i = choose|i: int| 0 <= i < first.len() && first[i] == second[j];
            assert(slot_of(bits, first[i]) == slot);
        }
    }
    lemma_slots_after(bits, first, 0);
    lemma_slots_after(bits, second, 0);
    assert(left =~= right);
}

/// Determinism: two filters built over the same number of words and given
/// the same digests in the same order hold the same storage, bit for bit.
pub proof fn law_deterministic(a: Bloom, b: Bloom, words: nat, digests: Seq<u64>)
    requires
        a.wf(),
        b.wf(),
        a@ == with_digests(blank(words), digests),
        b@ == with_digests(blank(words), digests),
    ensures
        a.words() == b.words(),
{
    lemma_unpack_injective(a.words(), b.words());
}

/// The induction behind the laws, on the bit array alone.
proof fn lemma_slots_after(bits: Seq<bool>, digests: Seq<u64>, slot: int)
    requires
        bits.len() > 0,
        0 <= slot < bits.len(),
    ensures
        with_digests(bits, digests).len() == bits.len(),
        with_digests(bits, digests)[slot] == (bits[slot] || taken(bits, digests, slot)),
    decreases digests.len(),
{
    if digests.len() == 0 {
    } else {
        let head = digests.drop_last();
        let last = digests.last();
        let before = with_digests(bits, head);
        lemma_slots_after(bits, head, slot);
        if taken(bits, head, slot) {
            let i = choose|i: int| 0 <= i < head.len() && slot_of(bits, #[trigger] head[i]) == slot;
            assert(digests[i] == head[i]);
        }
        if taken(bits, digests, slot) {
            let i = choose|i: int|
                0 <= i < digests.len() && slot_of(bits, #[trigger] digests[i]) == slot;
            if i < head.len() {
                assert(head[i] == digests[i]);
            }
        }
    }
}

} // verus!
