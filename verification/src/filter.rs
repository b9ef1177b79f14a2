//! The filter itself: construction, insertion and lookup.

use crate::model::{
    blank, has_digest, slot_of, valid_word_count, with_digest, BYTES_PER_WORD, SLOTS_PER_WORD,
};
use crate::words::{
    lemma_eights, lemma_set_bit, lemma_zero_word, low_bytes_only, slot_bit, unpack, zeroed,
};
use fnv::FnvHasher;
use std::hash::{Hash, Hasher};
use vstd::prelude::*;

verus! {

/// Why a filter could not be built.
#[derive(Debug, Clone, Copy, PartialEq, Eq, Structural)]
pub enum BloomError {
    /// The word count was zero, or more words than a vector can hold.
    InvalidCapacity,
}

/// A membership filter with one hash function over a fixed bit array.
#[derive(Debug)]
pub struct Bloom {
    filter: Vec<u64>,
}

impl View for Bloom {
    type V = Seq<bool>;

    /// The bit array, one boolean per slot.
    open spec fn view(&self) -> Seq<bool> {
        unpack(self.words())
    }
}

impl Bloom {
    /// The storage words, first to last.
    pub closed spec fn words(&self) -> Seq<u64> {
        self.filter@
    }

    /// What holds of every filter: a valid number of words, and nothing set
    /// outside the slots.
    pub open spec fn wf(&self) -> bool {
        &&& valid_word_count(self.words().len())
        &&& low_bytes_only(self.words())
    }

    /// Builds a filter over `size` words with every bit clear.
    ///
    /// Fails, with `InvalidCapacity`, on a `size` of zero and on one that no
    /// vector of words can have.
    pub fn new(size: usize) -> (r: Result<Bloom, BloomError>)
        ensures
            r is Ok <==> valid_word_count(size as nat),
            r matches Ok(bloom) ==> bloom.wf(),
            r matches Ok(bloom) ==> bloom.words() == zeroed(size as nat),
            r matches Ok(bloom) ==> bloom@ == blank(size as nat),
            r matches Ok(bloom) ==> bloom@.len() == SLOTS_PER_WORD * size,
            r matches Err(e) ==> e == BloomError::InvalidCapacity,
    {
        if size == 0 || size > (isize::MAX as usize) / BYTES_PER_WORD {
            return Err(BloomError::InvalidCapacity);
        }
        let filter: Vec<u64> = vec![0; size];
        proof {
            assert(filter@ =~= zeroed(size as nat));
            assert forall|slot: int| 0 <= slot < 8 * filter@.len() implies !#[trigger] slot_bit(
                filter@,
                slot,
            ) by {
                lemma_zero_word((slot % 8) as u64);
            }
            assert(unpack(filter@) =~= blank(size as nat));
        }
        Ok(Bloom { filter })
    }

    /// The digest of `elem`: what `fnv::FnvHasher`, started by its `Default`,
    /// gives from `finish` once `elem` has fed itself to it by `Hash::hash`.
    ///
    /// Nothing is claimed of the digest: which bytes an element feeds to the
    /// hasher is decided by the `Hash` impl of its type, which is not
    /// verified.
    #[verifier::external_body]
    fn compute_hash<T: Hash>(elem: T) -> (hash: u64) {
        let mut fnv = FnvHasher::default();
        elem.hash(&mut fnv);
        fnv.finish()
    }

    /// Inserts `elem`: sets the slot of its digest.
    ///
    /// Whatever the digest is, the bit array changes as by the insertion of
    /// one 64-bit digest, so every digest that was found before is found
    /// after.
    pub fn insert<T: Hash>(&mut self, elem: T)
        requires
            old(self).wf(),
        ensures
            final(self).wf(),
            final(self)@.len() == old(self)@.len(),
            exists|hash: u64| final(self)@ == #[trigger] with_digest(old(self)@, hash),
            forall|digest: u64| #[trigger]
                has_digest(old(self)@, digest) ==> has_digest(final(self)@, digest),
    {
        let hash: u64 = Self::compute_hash(elem);
        self.insert_into(hash);
    }

    /// Whether `item` may have been inserted: whether the slot of its digest
    /// is set.
    pub fn contains_maybe<T: Hash>(&self, item: T) -> (r: bool)
        requires
            self.wf(),
        ensures
            exists|hash: u64| r == #[trigger] has_digest(self@, hash),
    {
        let hash: u64 = Self::compute_hash(item);
        self.contains_hash(hash)
    }

    /// The word and the bit within it that `hash` falls on: with `n` words,
    /// word `(hash % 8n) / 8` and bit `(hash % 8n) % 8`.
    pub fn bit_index(&self, hash: u64) -> (at: (usize, u64))
        requires
            self.wf(),
        ensures
            slot_of(self@, hash) == hash as int % (SLOTS_PER_WORD * self.words().len()),
            at.0 == slot_of(self@, hash) / SLOTS_PER_WORD as int,
            at.1 == slot_of(self@, hash) % SLOTS_PER_WORD as int,
            at.0 < self.words().len(),
            at.1 < SLOTS_PER_WORD,
    {
        let n: u64 = self.filter.len() as u64;
        proof {
            lemma_eights(n);
        }
        let index: u64 = hash % (n << 3);
        proof {
            lemma_eights(index);
        }
        let word: usize = (index >> 3) as usize;
        let bit: u64 = index & 7;
        (word, bit)
    }

    /// Sets the slot of `hash`, and nothing else.
    pub fn insert_into(&mut self, hash: u64)
        requires
            old(self).wf(),
        ensures
            final(self).wf(),
            final(self)@.len() == old(self)@.len(),
            final(self)@ == with_digest(old(self)@, hash),
    {
        let at: (usize, u64) = self.bit_index(hash);
        let word: usize = at.0;
        let bit: u64 = at.1;
        self.filter[word] |= 1 << bit;
        proof {
            let before = old(self).words();
            let after = self.words();
            lemma_set_bit(before[word as int], bit, bit);
            assert forall|slot: int| 0 <= slot < 8 * after.len() implies #[trigger] slot_bit(
                after,
                slot,
            ) == (slot == slot_of(old(self)@, hash) || slot_bit(before, slot)) by {
                if slot / 8 == word {
                    lemma_set_bit(before[word as int], bit, (slot % 8) as u64);
                }
            }
            assert(self@ =~= with_digest(old(self)@, hash));
        }
    }

    /// Whether the slot of `hash` is set.
    pub fn contains_hash(&self, hash: u64) -> (r: bool)
        requires
            self.wf(),
        ensures
            r == has_digest(self@, hash),
    {
        let at: (usize, u64) = self.bit_index(hash);
        let word: usize = at.0;
        let bit: u64 = at.1;
        (self.filter[word] & (1 << bit)) != 0
    }
}

} // verus!
