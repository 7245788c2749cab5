//! Facts about single bits of 64-bit words, proved with the bit-vector solver.
use vstd::prelude::*;

verus! {

/// Bit `j` of `w` is set.
pub open spec fn word_bit(w: u64, j: int) -> bool {
    (w >> (j as u64)) & 1u64 == 1u64
}

/// Bit `i` of a little-endian sequence of words is set.
pub open spec fn seq_bit(words: Seq<u64>, i: int) -> bool {
    word_bit(words[i / 64], i % 64)
}

/// Number of set bits of a word.
pub open spec fn popcount(w: u64) -> nat
    decreases w,
{
    if w == 0 {
        0
    } else {
        (w % 2) as nat + popcount(w / 2)
    }
}

/// Number of set bits of all the words of a sequence.
pub open spec fn popcount_seq(words: Seq<u64>) -> nat
    decreases words.len(),
{
    if words.len() == 0 {
        0
    } else {
        popcount_seq(words.drop_last()) + popcount(words.last())
    }
}

pub proof fn lemma_zero_word(j: int)
    requires
        0 <= j < 64,
    ensures
        !word_bit(0u64, j),
{
    let k = j as u64;
    assert((0u64 >> k) & 1u64 == 0u64) by (bit_vector);
}

pub proof fn lemma_full_word(j: int)
    requires
        0 <= j < 64,
    ensures
        word_bit(u64::MAX, j),
{
    let k = j as u64;
    assert(k < 64 ==> (0xffff_ffff_ffff_ffffu64 >> k) & 1u64 == 1u64) by (bit_vector);
}

pub proof fn lemma_set_bit(w: u64, b: int, j: int)
    requires
        0 <= b < 64,
        0 <= j < 64,
    ensures
        word_bit(w | (1u64 << (b as u64)), j) == (j == b || word_bit(w, j)),
{
    let bb = b as u64;
    let k = j as u64;
    assert(bb < 64 && k < 64 ==> (((w | (1u64 << bb)) >> k) & 1u64 == 1u64) == (k == bb
        || (w >> k) & 1u64 == 1u64)) by (bit_vector);
}

pub proof fn lemma_clear_bit(w: u64, b: int, j: int)
    requires
        0 <= b < 64,
        0 <= j < 64,
    ensures
        word_bit(w & !(1u64 << (b as u64)), j) == (j != b && word_bit(w, j)),
{
    let bb = b as u64;
    let k = j as u64;
    assert(bb < 64 && k < 64 ==> (((w & !(1u64 << bb)) >> k) & 1u64 == 1u64) == (k != bb
        && (w >> k) & 1u64 == 1u64)) by (bit_vector);
}

pub proof fn lemma_test_bit(w: u64, b: int)
    requires
        0 <= b < 64,
    ensures
        (w & (1u64 << (b as u64)) != 0) == word_bit(w, b),
{
    let bb = b as u64;
    assert(bb < 64 ==> ((w & (1u64 << bb) != 0) == ((w >> bb) & 1u64 == 1u64))) by (bit_vector);
}

pub proof fn lemma_or_bit(a: u64, b: u64, j: int)
    requires
        0 <= j < 64,
    ensures
        word_bit(a | b, j) == (word_bit(a, j) || word_bit(b, j)),
{
    let k = j as u64;
    assert(k < 64 ==> ((((a | b) >> k) & 1u64 == 1u64) == ((a >> k) & 1u64 == 1u64 || (b >> k)
        & 1u64 == 1u64))) by (bit_vector);
}

pub proof fn lemma_and_bit(a: u64, b: u64, j: int)
    requires
        0 <= j < 64,
    ensures
        word_bit(a & b, j) == (word_bit(a, j) && word_bit(b, j)),
{
    let k = j as u64;
    assert(k < 64 ==> ((((a & b) >> k) & 1u64 == 1u64) == ((a >> k) & 1u64 == 1u64 && (b >> k)
        & 1u64 == 1u64))) by (bit_vector);
}

/// Masking with the `keep` lowest bits keeps exactly the bits below `keep`.
pub proof fn lemma_low_mask(w: u64, keep: int, j: int)
    requires
        0 < keep < 64,
        0 <= j < 64,
    ensures
        word_bit(w & (((1u64 << (keep as u64)) - 1u64) as u64), j) == (j < keep && word_bit(w, j)),
{
    let kk = keep as u64;
    let k = j as u64;
    assert(0 < kk < 64 && k < 64 ==> ((((w & (((1u64 << kk) - 1u64) as u64)) >> k) & 1u64 == 1u64) == (k
        < kk && (w >> k) & 1u64 == 1u64))) by (bit_vector);
}

/// A word with no set bit is zero.
pub proof fn lemma_nonzero_has_bit(w: u64)
    requires
        w != 0,
    ensures
        word_bit(w, w.trailing_zeros() as int),
        0 <= w.trailing_zeros() < 64,
{
    vstd::std_specs::bits::axiom_u64_trailing_zeros(w);
}

/// Clearing the lowest set bit with `w & (w - 1)`: the bit at the trailing
/// zero count goes, every other bit stays, and no bit below it is set.
pub proof fn lemma_clear_lowest(w: u64, j: int)
    requires
        w != 0,
        0 <= j < 64,
    ensures
        0 <= w.trailing_zeros() < 64,
        word_bit(w, w.trailing_zeros() as int),
        word_bit(w & ((w - 1u64) as u64), j) == (j != w.trailing_zeros() && word_bit(w, j)),
        j < w.trailing_zeros() ==> !word_bit(w, j),
{
    vstd::std_specs::bits::axiom_u64_trailing_zeros(w);
    let t = w.trailing_zeros() as u64;
    let k = j as u64;
    assert(w != 0 && t < 64 && k < 64 && (w >> t) & 1u64 == 1u64 && w << ((64u64 - t) as u64) == 0
        ==> ((((w & ((w - 1u64) as u64)) >> k) & 1u64 == 1u64) == (k != t && (w >> k) & 1u64 == 1u64)))
        by (bit_vector);
    if j < w.trailing_zeros() {
        assert((w >> k) & 1u64 == 0u64);
    }
}


/// `2` to the power `k`.
pub open spec fn two_pow(k: nat) -> nat
    decreases k,
{
    if k == 0 {
        1
    } else {
        2 * two_pow((k - 1) as nat)
    }
}

proof fn lemma_two_pow_64()
    ensures
        two_pow(64) == 0x1_0000_0000_0000_0000,
{
    reveal_with_fuel(two_pow, 65);
}

proof fn lemma_popcount_below(w: u64, k: nat)
    requires
        (w as int) < two_pow(k),
    ensures
        popcount(w) <= k,
    decreases k,
{
    if k > 0 && w != 0 {
        lemma_popcount_below(w / 2, (k - 1) as nat);
    }
}

/// Number of set bits among the lowest `n` bits of `w`.
pub open spec fn count_low_bits(w: u64, n: nat) -> nat
    decreases n,
{
    if n == 0 {
        0
    } else {
        count_low_bits(w, (n - 1) as nat) + if word_bit(w, n - 1) { 1nat } else { 0nat }
    }
}

proof fn lemma_count_low_bits_zero(n: nat)
    requires
        n <= 64,
    ensures
        count_low_bits(0, n) == 0,
    decreases n,
{
    if n > 0 {
        lemma_count_low_bits_zero((n - 1) as nat);
        lemma_zero_word(n - 1);
    }
}

proof fn lemma_count_low_bits_shift(w: u64, n: nat)
    requires
        n < 64,
    ensures
        count_low_bits(w, n + 1) == (if word_bit(w, 0) { 1nat } else { 0nat }) + count_low_bits(w >> 1, n),
    decreases n,
{
    if n == 0 {
        assert(count_low_bits(w, 0) == 0);
        assert(count_low_bits(w >> 1, 0) == 0);
    } else {
        lemma_count_low_bits_shift(w, (n - 1) as nat);
        let k = n as u64;
        assert(((w >> k) & 1u64 == 1u64) == (((w >> 1u64) >> ((k - 1) as u64)) & 1u64 == 1u64)) by (bit_vector)
            requires
                1 <= k < 64,
        ;
        assert(word_bit(w, n as int) == word_bit(w >> 1, n - 1));
    }
}

/// `popcount` counts the set bits of a word.
pub proof fn lemma_popcount_counts_bits(w: u64)
    ensures
        popcount(w) == count_low_bits(w, 64),
    decreases w,
{
    if w == 0 {
        lemma_count_low_bits_zero(64);
    } else {
        assert(w / 2 == w >> 1u64 && (w % 2 == 1) == ((w >> 0u64) & 1u64 == 1u64)) by (bit_vector);
        assert(((w >> 1u64) >> 63u64) & 1u64 == 0u64) by (bit_vector);
        lemma_popcount_counts_bits(w / 2);
        lemma_count_low_bits_shift(w, 63);
    }
}

/// A word has at most 64 set bits.
pub proof fn lemma_popcount_le_64(w: u64)
    ensures
        popcount(w) <= 64,
{
    lemma_two_pow_64();
    lemma_popcount_below(w, 64);
}

/// The number of ones in the binary representation of `w`, as
/// `u64::count_ones` gives it, counted one bit at a time.
pub fn u64_count_ones(w: u64) -> (r: u32)
    ensures
        r as nat == popcount(w),
{
    proof {
        lemma_popcount_le_64(w);
    }
    let mut x = w;
    let mut n: u32 = 0;
    while x != 0
        invariant
            n + popcount(x) == popcount(w),
            popcount(w) <= 64,
        decreases x,
    {
        n = n + (x % 2) as u32;
        x = x / 2;
    }
    n
}

} // verus!
