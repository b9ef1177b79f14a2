//! A one-hash membership filter over a fixed array of 64-bit words.
//!
//! A filter answers "might this element have been inserted?". It never
//! answers "no" for an element that was inserted, and it may answer "yes"
//! for one that was not. Every element is reduced to one 64-bit digest, and
//! the digest to one slot of the bit array. Nothing is ever removed, and the
//! array never grows.
//!
//! Layout: the slot of a digest is `digest % (8 * words)`. Each word thus
//! offers eight slots, its low byte, and the other 56 bits of a word stay
//! zero for the life of the filter: seven eighths of the storage are never
//! addressed. A filter that indexed all 64 bits of a word would put the
//! same digests on other slots.
//!
//! Construction checks the word count: a filter of no words has no slot to
//! divide by, so [`Bloom::new`] refuses it, as it does a count that no
//! vector of words can have.
//!
//! - [`model`]: the bit array as a sequence of booleans, and what insertion
//!   and lookup mean on it.
//! - [`words`]: how that sequence lies in the stored words.
//! - [`filter`]: the filter and its operations.
//! - [`laws`]: what holds of every filter.

pub mod filter;
pub mod laws;
pub mod model;
pub mod words;

pub use filter::{Bloom, BloomError};
