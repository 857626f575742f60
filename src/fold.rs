use vstd::arithmetic::power2::{lemma2_to64, lemma2_to64_rest, lemma_pow2_adds, pow2};
use vstd::prelude::*;

verus! {

/// The bytes read as a big-endian number: the last byte is the least
/// significant one.
pub open spec fn be_value(s: Seq<u8>) -> nat
    decreases s.len(),
{
    if s.len() == 0 {
        0
    } else {
        be_value(s.drop_last()) * 256 + s.last() as nat
    }
}

/// The bytes that a write observes: the last eight, or all of them when there
/// are fewer.
pub open spec fn window(s: Seq<u8>) -> Seq<u8> {
    if s.len() <= 8 {
        s
    } else {
        s.subrange(s.len() - 8, s.len() as int)
    }
}

/// What one write folds into the accumulator: the window read with its last
/// byte as the lowest.
pub open spec fn word_of(s: Seq<u8>) -> u64 {
    be_value(window(s)) as u64
}

/// A number of `n` bytes is below `2^(8n)`.
pub proof fn lemma_be_value_bound(s: Seq<u8>)
    ensures
        be_value(s) < pow2(8 * s.len()),
    decreases s.len(),
{
    lemma2_to64();
    if s.len() > 0 {
        let d = s.drop_last();
        lemma_be_value_bound(d);
        lemma_pow2_adds(8 * d.len(), 8);
        assert(8 * s.len() == 8 * d.len() + 8);
        let p = pow2(8 * d.len());
        assert(be_value(d) * 256 + (s.last() as nat) < p * 256) by (nonlinear_arith)
            requires
                be_value(d) < p,
                s.last() < 256,
        ;
    }
}

/// At most eight bytes fit a `u64`.
pub proof fn lemma_window_fits(s: Seq<u8>)
    ensures
        be_value(window(s)) <= u64::MAX,
{
    lemma_be_value_bound(window(s));
    lemma2_to64();
    lemma2_to64_rest();
    let k = window(s).len();
    if k < 8 {
        lemma_pow2_adds(8 * k, (64 - 8 * k) as nat);
        assert(pow2(8 * k) <= pow2(64)) by (nonlinear_arith)
            requires
                pow2(8 * k) * pow2((64 - 8 * k) as nat) == pow2(64),
                pow2((64 - 8 * k) as nat) > 0,
        ;
    }
}

/// Bytes that are all `0xff` read as the largest number of their length.
proof fn lemma_be_value_all_ones(s: Seq<u8>)
    requires
        forall|i: int| 0 <= i < s.len() ==> s[i] == 0xff,
    ensures
        be_value(s) + 1 == pow2(8 * s.len()),
    decreases s.len(),
{
    lemma2_to64();
    if s.len() > 0 {
        let d = s.drop_last();
        lemma_be_value_all_ones(d);
        lemma_pow2_adds(8 * d.len(), 8);
        assert(8 * s.len() == 8 * d.len() + 8);
    }
}

/// A single write of at most eight bytes into a fresh hasher leaves the bytes
/// read last-byte-lowest as a number, the unwritten high bytes zero.
pub proof fn lemma_fresh_short_write(s: Seq<u8>)
    requires
        s.len() <= 8,
    ensures
        (0u64 ^ word_of(s)) as nat == be_value(s),
{
    lemma_window_fits(s);
    let w = word_of(s);
    assert(0u64 ^ w == w) by (bit_vector);
}

/// Only the last eight bytes of a write count: bytes put before them change
/// nothing.
pub proof fn lemma_prefix_is_ignored(prefix: Seq<u8>, s: Seq<u8>)
    requires
        s.len() >= 8,
    ensures
        word_of(prefix + s) == word_of(s),
{
    let t = prefix + s;
    assert(window(t) == window(s)) by {
        assert(window(t) =~= s.subrange(s.len() - 8, s.len() as int));
        assert(window(s) =~= s.subrange(s.len() - 8, s.len() as int));
    }
}

/// A write whose last eight bytes are all `0xff` flips every bit of the
/// accumulator instead of saturating it: the result is all ones only where the
/// accumulator was zero.
pub proof fn lemma_full_window_flips_every_bit(h: u64, s: Seq<u8>)
    requires
        s.len() >= 8,
        forall|i: int| s.len() - 8 <= i < s.len() ==> s[i] == 0xff,
    ensures
        h ^ word_of(s) == !h,
        (h ^ word_of(s) == u64::MAX) <==> h == 0,
{
    let w = window(s);
    assert(w.len() == 8);
    assert(forall|i: int| 0 <= i < 8 ==> w[i] == s[s.len() - 8 + i]);
    lemma_be_value_all_ones(w);
    lemma2_to64_rest();
    assert(word_of(s) == u64::MAX);
    assert(h ^ u64::MAX == !h) by (bit_vector);
    assert(!h == u64::MAX <==> h == 0) by (bit_vector);
}

/// The same write made twice cancels out.
pub proof fn lemma_repeated_write_cancels(h: u64, s: Seq<u8>)
    ensures
        (h ^ word_of(s)) ^ word_of(s) == h,
{
    let w = word_of(s);
    assert((h ^ w) ^ w == h) by (bit_vector);
}

/// Two different states stay different after the same write.
pub proof fn lemma_write_keeps_states_apart(h1: u64, h2: u64, s: Seq<u8>)
    requires
        h1 != h2,
    ensures
        h1 ^ word_of(s) != h2 ^ word_of(s),
{
    let w = word_of(s);
    assert(h1 != h2 ==> h1 ^ w != h2 ^ w) by (bit_vector);
}

} // verus!
