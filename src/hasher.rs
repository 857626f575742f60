use crate::fold::{be_value, lemma_be_value_bound, lemma_window_fits, window, word_of};
use vstd::arithmetic::power2::{lemma2_to64, lemma2_to64_rest, lemma_pow2_strictly_increases, pow2};
use vstd::prelude::*;

verus! {

/// A hasher which does minimal work to create its `u64` output, under the
/// assumption that the input is already a hash digest or otherwise already
/// suitable as a key of a `HashSet` or `HashMap`.
#[derive(Clone, Copy)]
pub struct HashHasher(u64);

impl View for HashHasher {
    type V = u64;

    /// The accumulator.
    closed spec fn view(&self) -> u64 {
        self.0
    }
}

impl HashHasher {
    /// A hasher whose accumulator is zero.
    pub fn new() -> (r: HashHasher)
        ensures
            r@ == 0,
    {
        HashHasher(0)
    }

    /// Folds the last eight bytes of `bytes` (all of them when there are fewer)
    /// into the accumulator by exclusive or, the last byte in the lowest eight
    /// bits. Earlier bytes are not read. The state carries over from earlier
    /// writes, so a record can be hashed one field at a time.
    ///
    /// Digests of related inputs often share their leading bytes, hence the
    /// bytes at the end are the ones kept, in the low bits.
    pub fn write(&mut self, bytes: &[u8])
        ensures
            final(self)@ == old(self)@ ^ word_of(bytes@),
    {
        let n = bytes.len();
        let start: usize = if n > 8 {
            n - 8
        } else {
            0
        };
        // The window read front to back, each byte pushing the earlier ones up
        // by eight bits: the same number as placing the last byte lowest.
        let mut word: u64 = 0;
        let mut j: usize = start;
        while j < n
            invariant
                n == bytes@.len(),
                start <= j <= n,
                n - start <= 8,
                window(bytes@) == bytes@.subrange(start as int, n as int),
                word as nat == be_value(bytes@.subrange(start as int, j as int)),
            decreases n - j,
        {
            proof {
                let done = bytes@.subrange(start as int, j as int);
                assert(bytes@.subrange(start as int, j + 1).drop_last() == done);
                lemma_be_value_bound(done);
                lemma2_to64();
                lemma2_to64_rest();
                if done.len() < 7 {
                    lemma_pow2_strictly_increases(8 * done.len(), 56);
                }
                assert(word * 256 + 255 <= u64::MAX) by (nonlinear_arith)
                    requires
                        word < pow2(8 * done.len()),
                        pow2(8 * done.len()) <= 0x100000000000000,
                ;
            }
            word = word * 256 + bytes[j] as u64;
            j += 1;
        }
        proof {
            lemma_window_fits(bytes@);
        }
        self.0 = self.0 ^ word;
    }

    /// The accumulator, unchanged.
    pub fn finish(&self) -> (r: u64)
        ensures
            r == self@,
    {
        self.0
    }
}

impl Default for HashHasher {
    /// A hasher whose accumulator is zero: the only way to start one.
    fn default() -> (r: HashHasher)
        ensures
            r@ == 0,
    {
        HashHasher::new()
    }
}

impl std::hash::Hasher for HashHasher {
    fn write(&mut self, bytes: &[u8])
        ensures
            final(self)@ == old(self)@ ^ word_of(bytes@),
    {
        HashHasher::write(self, bytes)
    }

    fn finish(&self) -> (r: u64)
        ensures
            r == self@,
    {
        HashHasher::finish(self)
    }
}

/// The strategy that hands a map or a set a fresh `HashHasher` for each key.
pub type HashBuildHasher = std::hash::BuildHasherDefault<HashHasher>;

/// A `HashMap` keyed through `HashHasher`.
pub type HashedMap<K, V> = std::collections::HashMap<K, V, HashBuildHasher>;

/// A `HashSet` keyed through `HashHasher`.
pub type HashedSet<K> = std::collections::HashSet<K, HashBuildHasher>;

} // verus!
