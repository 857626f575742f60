//! A hasher for keys that are already hash digests or otherwise well distributed.
//!
//! `HashHasher` folds at most the last eight bytes of each write into a 64-bit
//! accumulator, last byte lowest, with no further mixing. Maps and sets built
//! with it hash such keys cheaply, and two of them fed the same inserts and
//! removals in the same order iterate in the same order.
//!
//! Keys whose bytes an adversary can choose should not be hashed with it: it
//! makes no attempt to resist collisions.

mod fold;
mod hasher;

pub use fold::{
    be_value, lemma_fresh_short_write, lemma_full_window_flips_every_bit,
    lemma_prefix_is_ignored, lemma_repeated_write_cancels, lemma_write_keeps_states_apart,
    window, word_of,
};
pub use hasher::{HashBuildHasher, HashHasher, HashedMap, HashedSet};
