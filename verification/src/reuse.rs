//! Retained buffers that keep their allocation between frames, and a
//! growable bit set over dense indices.
use vstd::prelude::*;
use vstd::string::StringExecFns;
use crate::bits::{
    lemma_and_bit, lemma_clear_bit, lemma_clear_lowest, lemma_full_word, lemma_low_mask,
    lemma_nonzero_has_bit, lemma_or_bit, lemma_popcount_le_64, popcount_seq, count_low_bits, lemma_popcount_counts_bits, u64_count_ones, lemma_set_bit, lemma_test_bit, lemma_zero_word, seq_bit,
    word_bit,
};
use crate::alloc_ops::{
    string_capacity, string_clear, string_with_capacity, vec_capacity,
    vec_reserve_exact,
};

verus! {

/// What a push or a reservation did to the capacity of a retained buffer.
#[derive(Debug, Clone, Copy, PartialEq, Eq, Structural)]
pub enum CapacityEvent {
    Reused,
    Grew { old: usize, new: usize },
}

/// Counters kept by a retained buffer.
#[derive(Debug, Clone, Copy, PartialEq, Eq, Structural)]
pub struct ReuseStats {
    pub clears: u64,
    pub grows: u64,
    pub peak_len: usize,
    pub peak_capacity: usize,
}

impl Default for ReuseStats {
    fn default() -> (r: Self)
        ensures
            r == ReuseStats::zero(),
    {
        ReuseStats { clears: 0, grows: 0, peak_len: 0, peak_capacity: 0 }
    }
}

pub open spec fn max_usize(a: usize, b: usize) -> usize {
    if a >= b { a } else { b }
}

impl ReuseStats {
    pub open spec fn zero() -> ReuseStats {
        ReuseStats { clears: 0, grows: 0, peak_len: 0, peak_capacity: 0 }
    }

    /// Counts one clear.
    pub fn record_clear(&mut self)
        requires
            old(self).clears < u64::MAX,
        ensures
            *final(self) == (ReuseStats { clears: (old(self).clears + 1) as u64, ..*old(self) }),
    {
        self.clears += 1;
    }

    /// Raises the peaks to cover `len` and `capacity`.
    pub fn record_len(&mut self, len: usize, capacity: usize)
        ensures
            *final(self) == (ReuseStats {
                peak_len: max_usize(old(self).peak_len, len),
                peak_capacity: max_usize(old(self).peak_capacity, capacity),
                ..*old(self)
            }),
    {
        if len > self.peak_len {
            self.peak_len = len;
        }
        if capacity > self.peak_capacity {
            self.peak_capacity = capacity;
        }
    }

    /// Counts one capacity growth.
    pub fn record_grow(&mut self)
        requires
            old(self).grows < u64::MAX,
        ensures
            *final(self) == (ReuseStats { grows: (old(self).grows + 1) as u64, ..*old(self) }),
    {
        self.grows += 1;
    }
}

/// The stats after an operation that left `len` items and a capacity the
/// allocator chose: the peaks cover the new length and some capacity `c` at
/// least that length, and a growth is counted exactly when `event` says so.
pub open spec fn stats_after_change(
    before: ReuseStats,
    after: ReuseStats,
    len: usize,
    event: CapacityEvent,
) -> bool {
    exists|c: usize|
        {
            &&& c >= len
            &&& after.peak_len == max_usize(before.peak_len, len)
            &&& after.peak_capacity == max_usize(before.peak_capacity, c)
            &&& after.clears == before.clears
            &&& match event {
                CapacityEvent::Reused => after.grows == before.grows,
                CapacityEvent::Grew { old: o, new: n } => {
                    &&& after.grows == before.grows + 1
                    &&& n == c
                    &&& n > o
                },
            }
        }
}

/// A vector that is cleared rather than dropped, and counts how often its
/// allocation had to grow.
#[derive(Debug, Clone)]
pub struct ReusableVec<T> {
    items: Vec<T>,
    stats: ReuseStats,
}

impl<T> View for ReusableVec<T> {
    type V = Seq<T>;

    closed spec fn view(&self) -> Seq<T> {
        self.items@
    }
}

impl<T> ReusableVec<T> {
    pub closed spec fn spec_stats(&self) -> ReuseStats {
        self.stats
    }

    pub fn new() -> (r: Self)
        ensures
            r@ == Seq::<T>::empty(),
            r.spec_stats() == ReuseStats::zero(),
    {
        ReusableVec { items: Vec::new(), stats: ReuseStats::default() }
    }

    /// An empty vector whose recorded peak capacity is `capacity`.
    pub fn with_capacity(capacity: usize) -> (r: Self)
        requires
            capacity * vstd::layout::size_of::<T>() <= isize::MAX,
        ensures
            r@ == Seq::<T>::empty(),
            r.spec_stats() == (ReuseStats { peak_capacity: capacity, ..ReuseStats::zero() }),
    {
        ReusableVec {
            items: Vec::with_capacity(capacity),
            stats: ReuseStats { clears: 0, grows: 0, peak_len: 0, peak_capacity: capacity },
        }
    }

    /// Removes every item and counts the clear.
    pub fn clear(&mut self)
        requires
            old(self).spec_stats().clears < u64::MAX,
        ensures
            final(self)@ == Seq::<T>::empty(),
            final(self).spec_stats() == (ReuseStats {
                clears: (old(self).spec_stats().clears + 1) as u64,
                ..old(self).spec_stats()
            }),
    {
        self.items.clear();
        self.stats.record_clear();
    }

    /// Appends `value` and reports whether the allocation grew.
    pub fn push(&mut self, value: T) -> (event: CapacityEvent)
        requires
            old(self).spec_stats().grows < u64::MAX,
        ensures
            final(self)@ == old(self)@.push(value),
            stats_after_change(old(self).spec_stats(), final(self).spec_stats(), final(self)@.len() as usize, event),
    {
        let before = vec_capacity(&self.items);
        self.items.push(value);
        let after = vec_capacity(&self.items);
        self.stats.record_len(self.items.len(), after);
        if after > before {
            self.stats.record_grow();
            CapacityEvent::Grew { old: before, new: after }
        } else {
            CapacityEvent::Reused
        }
    }

    /// Appends clones of `values`.
    pub fn extend_from_slice(&mut self, values: &[T])
        where
            T: Clone,
        requires
            old(self).spec_stats().grows < u64::MAX,
        ensures
            final(self)@.len() == old(self)@.len() + values@.len(),
            forall|i: int| 0 <= i < old(self)@.len() ==> #[trigger] final(self)@[i] == old(self)@[i],
            forall|i: int|
                old(self)@.len() <= i < final(self)@.len() ==> cloned::<T>(
                    values@[i - old(self)@.len()],
                    #[trigger] final(self)@[i],
                ),
            exists|e: CapacityEvent|
                #[trigger] stats_after_change(old(self).spec_stats(), final(self).spec_stats(), final(self)@.len() as usize, e),
    {
        let before = vec_capacity(&self.items);
        self.items.extend_from_slice(values);
        let after = vec_capacity(&self.items);
        self.stats.record_len(self.items.len(), after);
        if after > before {
            self.stats.record_grow();
            assert(stats_after_change(old(self).spec_stats(), self.spec_stats(), self@.len() as usize, CapacityEvent::Grew { old: before, new: after }));
        } else {
            assert(stats_after_change(old(self).spec_stats(), self.spec_stats(), self@.len() as usize, CapacityEvent::Reused));
        }
    }

    /// Makes room for `additional` more items and reports whether the
    /// allocation grew.
    pub fn reserve_exact_for(&mut self, additional: usize) -> (event: CapacityEvent)
        requires
            old(self).spec_stats().grows < u64::MAX,
            old(self)@.len() + additional <= usize::MAX,
            (old(self)@.len() + additional) * vstd::layout::size_of::<T>() <= isize::MAX,
        ensures
            final(self)@ == old(self)@,
            stats_after_change(old(self).spec_stats(), final(self).spec_stats(), final(self)@.len() as usize, event),
    {
        let before = vec_capacity(&self.items);
        vec_reserve_exact(&mut self.items, additional);
        let after = vec_capacity(&self.items);
        self.stats.record_len(self.items.len(), after);
        if after > before {
            self.stats.record_grow();
            CapacityEvent::Grew { old: before, new: after }
        } else {
            CapacityEvent::Reused
        }
    }

    pub fn as_slice(&self) -> (r: &[T])
        ensures
            r@ == self@,
    {
        self.items.as_slice()
    }

    pub fn as_mut_slice(&mut self) -> (r: &mut [T])
        ensures
            r@ == old(self)@,
            final(self)@ == final(r)@,
            final(self).spec_stats() == old(self).spec_stats(),
    {
        self.items.as_mut_slice()
    }

    pub fn len(&self) -> (r: usize)
        ensures
            r == self@.len(),
    {
        self.items.len()
    }

    pub fn is_empty(&self) -> (r: bool)
        ensures
            r == (self@.len() == 0),
    {
        self.items.len() == 0
    }

    /// The allocation's capacity, never below the length.
    pub fn capacity(&self) -> (r: usize)
        ensures
            r >= self@.len(),
    {
        vec_capacity(&self.items)
    }

    pub fn stats(&self) -> (r: &ReuseStats)
        ensures
            *r == self.spec_stats(),
    {
        &self.stats
    }

    pub fn into_vec(self) -> (r: Vec<T>)
        ensures
            r@ == self@,
    {
        self.items
    }
}

impl<T> Default for ReusableVec<T> {
    fn default() -> (r: Self)
        ensures
            r@ == Seq::<T>::empty(),
            r.spec_stats() == ReuseStats::zero(),
    {
        Self::new()
    }
}


/// Length in UTF-8 bytes of a character sequence.
pub open spec fn utf8_len(s: Seq<char>) -> nat {
    vstd::utf8::encode_utf8(s).len()
}

/// A string that is cleared rather than dropped, and counts how often its
/// allocation had to grow.
#[derive(Debug, Clone)]
pub struct ReusableString {
    text: String,
    stats: ReuseStats,
}

impl View for ReusableString {
    type V = Seq<char>;

    closed spec fn view(&self) -> Seq<char> {
        self.text@
    }
}

impl ReusableString {
    pub closed spec fn spec_stats(&self) -> ReuseStats {
        self.stats
    }

    pub fn new() -> (r: Self)
        ensures
            r@ == Seq::<char>::empty(),
            r.spec_stats() == ReuseStats::zero(),
    {
        ReusableString { text: String::new(), stats: ReuseStats::default() }
    }

    /// An empty string whose recorded peak capacity is `capacity`.
    pub fn with_capacity(capacity: usize) -> (r: Self)
        requires
            capacity <= isize::MAX,
        ensures
            r@ == Seq::<char>::empty(),
            r.spec_stats() == (ReuseStats { peak_capacity: capacity, ..ReuseStats::zero() }),
    {
        ReusableString {
            text: string_with_capacity(capacity),
            stats: ReuseStats { clears: 0, grows: 0, peak_len: 0, peak_capacity: capacity },
        }
    }

    /// Empties the text and counts the clear.
    pub fn clear(&mut self)
        requires
            old(self).spec_stats().clears < u64::MAX,
        ensures
            final(self)@ == Seq::<char>::empty(),
            final(self).spec_stats() == (ReuseStats {
                clears: (old(self).spec_stats().clears + 1) as u64,
                ..old(self).spec_stats()
            }),
    {
        string_clear(&mut self.text);
        self.stats.record_clear();
    }

    /// Appends `value`; the peak length is counted in bytes.
    pub fn push_str(&mut self, value: &str) -> (event: CapacityEvent)
        requires
            old(self).spec_stats().grows < u64::MAX,
        ensures
            final(self)@ == old(self)@ + value@,
            stats_after_change(old(self).spec_stats(), final(self).spec_stats(), utf8_len(final(self)@) as usize, event),
    {
        let before = string_capacity(&self.text);
        self.text.append(value);
        let after = string_capacity(&self.text);
        let len = self.text.as_str().len();
        self.stats.record_len(len, after);
        if after > before {
            self.stats.record_grow();
            CapacityEvent::Grew { old: before, new: after }
        } else {
            CapacityEvent::Reused
        }
    }

    /// Replaces the text with `value`: a clear followed by a push.
    pub fn set(&mut self, value: &str) -> (event: CapacityEvent)
        requires
            old(self).spec_stats().clears < u64::MAX,
            old(self).spec_stats().grows < u64::MAX,
        ensures
            final(self)@ == value@,
            stats_after_change(
                ReuseStats { clears: (old(self).spec_stats().clears + 1) as u64, ..old(self).spec_stats() },
                final(self).spec_stats(),
                utf8_len(value@) as usize,
                event,
            ),
    {
        self.clear();
        let e = self.push_str(value);
        assert(self@ =~= value@);
        e
    }

    pub fn as_str(&self) -> (r: &str)
        ensures
            r@ == self@,
    {
        self.text.as_str()
    }

    /// Length in bytes.
    pub fn len(&self) -> (r: usize)
        ensures
            r == utf8_len(self@) as usize,
    {
        self.text.as_str().len()
    }

    pub fn is_empty(&self) -> (r: bool)
        ensures
            r == (self@.len() == 0),
    {
        self.text.as_str().is_empty()
    }

    /// The allocation's capacity in bytes, never below the byte length.
    pub fn capacity(&self) -> (r: usize)
        ensures
            r >= utf8_len(self@),
    {
        string_capacity(&self.text)
    }

    pub fn stats(&self) -> (r: &ReuseStats)
        ensures
            *r == self.spec_stats(),
    {
        &self.stats
    }
}

impl Default for ReusableString {
    fn default() -> (r: Self)
        ensures
            r@ == Seq::<char>::empty(),
            r.spec_stats() == ReuseStats::zero(),
    {
        Self::new()
    }
}


/// A position in a [`BitSet`].
#[derive(Debug, Clone, Copy, PartialEq, Eq, Structural)]
pub struct BitIndex(pub usize);

/// Number of 64-bit words that hold `len` bits.
pub open spec fn words_for(len: nat) -> nat {
    ((len + 63) / 64) as nat
}

/// The indices below `n` whose bit is set in `words`.
pub open spec fn set_bits_below(words: Seq<u64>, n: nat) -> Set<int> {
    Set::new(|i: int| 0 <= i < n && seq_bit(words, i))
}

/// How many indices below `n` have their bit set in `words`.
pub open spec fn count_bits_below(words: Seq<u64>, n: nat) -> nat
    decreases n,
{
    if n == 0 {
        0
    } else {
        count_bits_below(words, (n - 1) as nat) + if seq_bit(words, n - 1) { 1nat } else { 0nat }
    }
}

proof fn lemma_set_bits_below_len(words: Seq<u64>, n: nat)
    ensures
        set_bits_below(words, n).finite(),
        set_bits_below(words, n).len() == count_bits_below(words, n),
    decreases n,
{
    if n == 0 {
        assert(set_bits_below(words, 0) =~= Set::<int>::empty());
    } else {
        let m = (n - 1) as nat;
        lemma_set_bits_below_len(words, m);
        if seq_bit(words, m as int) {
            assert(set_bits_below(words, n) =~= set_bits_below(words, m).insert(m as int));
        } else {
            assert(set_bits_below(words, n) =~= set_bits_below(words, m));
        }
    }
}

proof fn lemma_count_word(words: Seq<u64>, k: nat, m: nat)
    requires
        k < words.len(),
        m <= 64,
    ensures
        count_bits_below(words, 64 * k + m) == count_bits_below(words, 64 * k) + count_low_bits(words[k as int], m),
    decreases m,
{
    if m > 0 {
        lemma_count_word(words, k, (m - 1) as nat);
        let i = 64 * k + m - 1;
        assert(i / 64 == k && i % 64 == m - 1) by (nonlinear_arith)
            requires
                i == 64 * k + m - 1,
                1 <= m <= 64,
                k >= 0,
        ;
    }
}

proof fn lemma_count_words(words: Seq<u64>, k: nat)
    requires
        k <= words.len(),
    ensures
        count_bits_below(words, 64 * k) == popcount_seq(words.take(k as int)),
    decreases k,
{
    if k == 0 {
        assert(words.take(0) =~= Seq::<u64>::empty());
    } else {
        let j = (k - 1) as nat;
        lemma_count_words(words, j);
        lemma_count_word(words, j, 64);
        lemma_popcount_counts_bits(words[j as int]);
        assert(words.take(k as int).drop_last() =~= words.take(j as int));
        assert(64 * j + 64 == 64 * k);
    }
}

/// A dense set of indices below a length, stored as 64-bit words.
#[derive(Debug, Clone)]
pub struct BitSet {
    words: Vec<u64>,
    len: usize,
}

impl View for BitSet {
    type V = Set<int>;

    /// The indices below the length whose bit is set.
    closed spec fn view(&self) -> Set<int> {
        Set::new(|i: int| 0 <= i < self.len && seq_bit(self.words@, i))
    }
}

impl BitSet {
    /// The storage words, lowest index first.
    pub closed spec fn spec_words(&self) -> Seq<u64> {
        self.words@
    }

    /// The number of indices the set spans.
    pub closed spec fn spec_len(&self) -> nat {
        self.len as nat
    }

    /// The words match the length, and no bit at or past the length is set.
    pub closed spec fn wf(&self) -> bool {
        &&& self.len + 63 <= usize::MAX
        &&& self.words@.len() == words_for(self.len as nat)
        &&& forall|i: int|
            self.len <= i < self.words@.len() * 64 ==> !#[trigger] seq_bit(self.words@, i)
    }

    pub fn new() -> (r: Self)
        ensures
            r.wf(),
            r.spec_len() == 0,
            r@ == Set::<int>::empty(),
    {
        let r = BitSet { words: Vec::new(), len: 0 };
        assert(r@ =~= Set::<int>::empty());
        r
    }

    /// An empty set spanning `len` indices.
    pub fn with_len(len: usize) -> (r: Self)
        requires
            len + 63 <= usize::MAX,
        ensures
            r.wf(),
            r.spec_len() == len,
            r@ == Set::<int>::empty(),
    {
        let n = len / 64 + if len % 64 != 0 { 1 } else { 0 };
        let mut words: Vec<u64> = Vec::new();
        let mut k: usize = 0;
        while k < n
            invariant
                k <= n,
                words@.len() == k,
                forall|m: int| 0 <= m < k ==> words@[m] == 0u64,
            decreases n - k,
        {
            words.push(0u64);
            k = k + 1;
        }
        let r = BitSet { words, len };
        assert forall|i: int| 0 <= i < r.words@.len() * 64 implies !#[trigger] seq_bit(r.words@, i) by {
            lemma_zero_word(i % 64);
        }
        assert(r@ =~= Set::<int>::empty());
        r
    }

    /// Masks the bits of the last word that lie at or past the length.
    fn clear_unused_bits(&mut self)
        requires
            old(self).len + 63 <= usize::MAX,
            old(self).words@.len() == words_for(old(self).len as nat),
        ensures
            final(self).wf(),
            final(self).len == old(self).len,
            forall|i: int| 0 <= i < old(self).len ==> seq_bit(final(self).words@, i) == seq_bit(old(self).words@, i),
    {
        let n = self.words.len();
        let unused = n * 64 - self.len;
        if unused == 0 || n == 0 {
            return;
        }
        let keep = 64 - unused;
        let kk = keep as u64;
        assert(0 < kk < 64 ==> 1u64 << kk >= 1u64) by (bit_vector);
        let mask: u64 = (1u64 << kk) - 1;
        let last = self.words[n - 1];
        self.words.set(n - 1, last & mask);
        assert forall|i: int| 0 <= i < n * 64 implies #[trigger] seq_bit(self.words@, i) == (i < self.len && seq_bit(old(self).words@, i)) by {
            if i / 64 == n - 1 {
                lemma_low_mask(last, keep as int, i % 64);
            } else {
                assert(i < self.len);
            }
        }
    }

    /// Changes the span to `len`; indices past the new span are dropped and
    /// new indices start unset.
    pub fn resize(&mut self, len: usize)
        requires
            old(self).wf(),
            len + 63 <= usize::MAX,
        ensures
            final(self).wf(),
            final(self).spec_len() == len,
            final(self)@ == old(self)@.filter(|i: int| i < len),
            forall|i: int| #[trigger] final(self)@.contains(i)
                == (0 <= i < len && i < old(self).spec_len() && old(self)@.contains(i)),
    {
        let ghost old_words = self.words@;
        let ghost old_len = self.len;
        self.len = len;
        let n = len / 64 + if len % 64 != 0 { 1 } else { 0 };
        self.words.truncate(n);
        while self.words.len() < n
            invariant
                self.words@.len() <= n,
                self.words@.len() < n ==> self.words@.len() >= old_words.len(),
                self.len == len,
                len + 63 <= usize::MAX,
                n == words_for(len as nat),
                forall|m: int| 0 <= m < self.words@.len() && m < old_words.len() ==> self.words@[m] == old_words[m],
                forall|m: int| old_words.len() <= m < self.words@.len() ==> self.words@[m] == 0u64,
            decreases n - self.words@.len(),
        {
            self.words.push(0u64);
        }
        let ghost mid = self.words@;
        assert forall|i: int| 0 <= i < len implies #[trigger] seq_bit(mid, i) == (i < old_len && seq_bit(old_words, i)) by {
            if i / 64 < old_words.len() {
                assert(mid[i / 64] == old_words[i / 64]);
                if i >= old_len {
                    assert(!seq_bit(old(self).words@, i));
                }
            } else {
                assert(mid[i / 64] == 0u64);
                lemma_zero_word(i % 64);
            }
        }
        self.clear_unused_bits();
        assert(self@ =~= old(self)@.filter(|i: int| i < len));
    }

    /// Unsets every index; the span stays.
    pub fn clear(&mut self)
        requires
            old(self).wf(),
        ensures
            final(self).wf(),
            final(self).spec_len() == old(self).spec_len(),
            final(self)@ == Set::<int>::empty(),
    {
        let n = self.words.len();
        let mut k: usize = 0;
        while k < n
            invariant
                k <= n,
                self.words@.len() == n,
                self.len == old(self).len,
                old(self).wf(),
                n == old(self).words@.len(),
                forall|m: int| 0 <= m < k ==> self.words@[m] == 0u64,
            decreases n - k,
        {
            self.words.set(k, 0u64);
            k = k + 1;
        }
        assert forall|i: int| 0 <= i < n * 64 implies !#[trigger] seq_bit(self.words@, i) by {
            lemma_zero_word(i % 64);
        }
        assert(self@ =~= Set::<int>::empty());
    }

    /// Sets every index below the span.
    pub fn fill(&mut self)
        requires
            old(self).wf(),
        ensures
            final(self).wf(),
            final(self).spec_len() == old(self).spec_len(),
            final(self)@ == Set::new(|i: int| 0 <= i < old(self).spec_len()),
    {
        let n = self.words.len();
        let mut k: usize = 0;
        while k < n
            invariant
                k <= n,
                self.words@.len() == n,
                self.len == old(self).len,
                self.len + 63 <= usize::MAX,
                n == words_for(self.len as nat),
                forall|m: int| 0 <= m < k ==> self.words@[m] == u64::MAX,
            decreases n - k,
        {
            self.words.set(k, u64::MAX);
            k = k + 1;
        }
        let ghost full = self.words@;
        self.clear_unused_bits();
        assert forall|i: int| 0 <= i < self.len implies #[trigger] seq_bit(self.words@, i) by {
            lemma_full_word(i % 64);
            assert(seq_bit(full, i));
        }
        assert(self@ =~= Set::new(|i: int| 0 <= i < old(self).spec_len()));
    }

    fn ensure(&mut self, len: usize)
        requires
            old(self).wf(),
            len + 63 <= usize::MAX,
        ensures
            final(self).wf(),
            final(self).len == if len > old(self).len { len } else { old(self).len },
            final(self)@ == old(self)@,
    {
        if len > self.len {
            self.resize(len);
            assert(self@ =~= old(self)@);
        }
    }

    /// Adds `index`, growing the span to cover it.
    pub fn insert(&mut self, index: BitIndex)
        requires
            old(self).wf(),
            index.0 + 64 <= usize::MAX,
        ensures
            final(self).wf(),
            final(self).spec_len() == if index.0 + 1 > old(self).spec_len() { index.0 + 1 } else { old(self).spec_len() as int },
            final(self)@ == old(self)@.insert(index.0 as int),
    {
        self.ensure(index.0 + 1);
        let ghost mid = self.words@;
        let word = index.0 / 64;
        let bit = index.0 % 64;
        let w = self.words[word];
        self.words.set(word, w | (1u64 << (bit as u64)));
        assert forall|i: int| 0 <= i < self.words@.len() * 64 implies #[trigger] seq_bit(self.words@, i) == (i == index.0 || seq_bit(mid, i)) by {
            if i / 64 == word {
                lemma_set_bit(w, bit as int, i % 64);
            }
        }
        assert(self@ =~= old(self)@.insert(index.0 as int));
    }

    /// Removes `index`; indices past the span are ignored.
    pub fn remove(&mut self, index: BitIndex)
        requires
            old(self).wf(),
        ensures
            final(self).wf(),
            final(self).spec_len() == old(self).spec_len(),
            final(self)@ == old(self)@.remove(index.0 as int),
    {
        if index.0 >= self.len {
            assert(self@ =~= old(self)@.remove(index.0 as int));
            return;
        }
        let word = index.0 / 64;
        let bit = index.0 % 64;
        let w = self.words[word];
        self.words.set(word, w & !(1u64 << (bit as u64)));
        assert forall|i: int| 0 <= i < self.words@.len() * 64 implies #[trigger] seq_bit(self.words@, i) == (i != index.0 && seq_bit(old(self).words@, i)) by {
            if i / 64 == word {
                lemma_clear_bit(w, bit as int, i % 64);
            }
        }
        assert(self@ =~= old(self)@.remove(index.0 as int));
    }

    pub fn contains(&self, index: BitIndex) -> (r: bool)
        requires
            self.wf(),
        ensures
            r == self@.contains(index.0 as int),
    {
        if index.0 >= self.len {
            return false;
        }
        let word = index.0 / 64;
        let bit = index.0 % 64;
        proof {
            lemma_test_bit(self.words@[word as int], bit as int);
        }
        self.words[word] & (1u64 << (bit as u64)) != 0
    }

    /// Adds every index of `other`, growing the span to cover it.
    pub fn union_with(&mut self, other: &Self)
        requires
            old(self).wf(),
            other.wf(),
        ensures
            final(self).wf(),
            final(self).spec_len() == if other.spec_len() > old(self).spec_len() { other.spec_len() } else { old(self).spec_len() },
            final(self)@ == old(self)@.union(other@),
    {
        self.ensure(other.len);
        let ghost mid = self.words@;
        let n = other.words.len();
        let mut k: usize = 0;
        while k < n
            invariant
                k <= n,
                n == other.words@.len(),
                n <= mid.len(),
                self.len == old(self).len || self.len == other.len,
                self.len >= old(self).len && self.len >= other.len,
                self.len + 63 <= usize::MAX,
                mid.len() == words_for(self.len as nat),
                forall|i: int| self.len <= i < mid.len() * 64 ==> !#[trigger] seq_bit(mid, i),
                other.wf(),
                self.words@.len() == mid.len(),
                forall|m: int| 0 <= m < k ==> self.words@[m] == mid[m] | other.words@[m],
                forall|m: int| k <= m < mid.len() ==> self.words@[m] == mid[m],
            decreases n - k,
        {
            let w = self.words[k];
            self.words.set(k, w | other.words[k]);
            k = k + 1;
        }
        assert forall|i: int| 0 <= i < self.words@.len() * 64 implies #[trigger] seq_bit(self.words@, i) == (seq_bit(mid, i) || (i < n * 64 && seq_bit(other.words@, i))) by {
            if i / 64 < n {
                lemma_or_bit(mid[i / 64], other.words@[i / 64], i % 64);
            }
        }
        assert(self@ =~= old(self)@.union(other@));
    }

    /// Keeps only the indices that `other` holds too.
    pub fn intersect_with(&mut self, other: &Self)
        requires
            old(self).wf(),
            other.wf(),
        ensures
            final(self).wf(),
            final(self).spec_len() == old(self).spec_len(),
            final(self)@ == old(self)@.intersect(other@),
    {
        let n = self.words.len();
        let mut k: usize = 0;
        while k < n
            invariant
                k <= n,
                n == old(self).words@.len(),
                self.words@.len() == n,
                self.len == old(self).len,
                forall|m: int| 0 <= m < k ==> self.words@[m] == old(self).words@[m] & (if m < other.words@.len() { other.words@[m] } else { 0u64 }),
                forall|m: int| k <= m < n ==> self.words@[m] == old(self).words@[m],
            decreases n - k,
        {
            let o = if k < other.words.len() { other.words[k] } else { 0u64 };
            let w = self.words[k];
            self.words.set(k, w & o);
            k = k + 1;
        }
        assert forall|i: int| 0 <= i < n * 64 implies #[trigger] seq_bit(self.words@, i) == (seq_bit(old(self).words@, i) && i < other.words@.len() * 64 && seq_bit(other.words@, i)) by {
            let m = i / 64;
            if m < other.words@.len() {
                lemma_and_bit(old(self).words@[m], other.words@[m], i % 64);
            } else {
                lemma_and_bit(old(self).words@[m], 0u64, i % 64);
                lemma_zero_word(i % 64);
            }
        }
        assert(self@ =~= old(self)@.intersect(other@));
    }

    /// The set is finite and has as many indices as its words have set bits.
    proof fn lemma_len_is_popcount(&self)
        requires
            self.wf(),
        ensures
            self@.finite(),
            self@.len() == popcount_seq(self.spec_words()),
    {
        let w = self.words@;
        let nw = w.len();
        assert(self@ =~= set_bits_below(w, 64 * nw)) by {
            assert forall|i: int| #[trigger] self@.contains(i) == set_bits_below(w, 64 * nw).contains(i) by {
                if 0 <= i < 64 * nw && seq_bit(w, i) {
                    assert(i < self.len as int);
                }
                if 0 <= i < self.len {
                    assert(self.len as int <= 64 * nw) by (nonlinear_arith)
                        requires
                            nw == (self.len + 63) / 64,
                    ;
                }
            }
        }
        lemma_set_bits_below_len(w, 64 * nw);
        lemma_count_words(w, nw);
        assert(w.take(nw as int) =~= w);
    }

    /// A walk over the set indices in increasing order.
    pub fn iter_ones(&self) -> (r: BitSetOnes<'_>)
        requires
            self.wf(),
        ensures
            r.wf(),
            r.spec_set() == *self,
            r.remaining() == self@,
    {
        let word = if self.words.len() > 0 { self.words[0] } else { 0u64 };
        let r = BitSetOnes { set: self, word_index: 0, word };
        proof {
            if self.words@.len() == 0 {
                assert(self.len == 0);
            }
        }
        assert(r.remaining() =~= self@);
        r
    }

    /// Total number of set bits over the words.
    pub fn count_ones(&self) -> (r: usize)
        requires
            self.wf(),
        ensures
            r == popcount_seq(self.spec_words()),
            r == self@.len(),
            self@.finite(),
    {
        proof {
            self.lemma_len_is_popcount();
        }
        let n = self.words.len();
        let mut total: usize = 0;
        let mut k: usize = 0;
        while k < n
            invariant
                k <= n,
                n == self.words@.len(),
                self.wf(),
                total == popcount_seq(self.words@.subrange(0, k as int)),
                total <= 64 * k,
            decreases n - k,
        {
            let c = u64_count_ones(self.words[k]);
            proof {
                lemma_popcount_le_64(self.words@[k as int]);
                assert(self.words@.subrange(0, k + 1).drop_last() =~= self.words@.subrange(0, k as int));
            }
            total = total + c as usize;
            k = k + 1;
        }
        assert(self.words@.subrange(0, n as int) =~= self.words@);
        total
    }

    pub fn len(&self) -> (r: usize)
        ensures
            r == self.spec_len(),
    {
        self.len
    }

    /// Every member of a set lies below its length: no index at or past the
    /// length is stored or counted.
    pub proof fn lemma_members_below_len(&self)
        ensures
            forall|i: int| #[trigger] self@.contains(i) ==> 0 <= i < self.spec_len(),
    {
    }

    /// A well-formed set is finite, so it is empty exactly when it has no
    /// members: `is_empty` is true exactly when `count_ones` is 0.
    pub proof fn lemma_empty_iff_no_ones(&self)
        requires
            self.wf(),
        ensures
            self@.finite(),
            (self@ == Set::<int>::empty()) <==> self@.len() == 0,
    {
        self.lemma_len_is_popcount();
        vstd::set_lib::lemma_set_empty_equivalency_len(self@);
    }

    /// True when no index is set.
    pub fn is_empty(&self) -> (r: bool)
        requires
            self.wf(),
        ensures
            r == (self@ == Set::<int>::empty()),
    {
        if self.len == 0 {
            assert(self@ =~= Set::<int>::empty());
            return true;
        }
        let n = self.words.len();
        let mut k: usize = 0;
        while k < n
            invariant
                k <= n,
                n == self.words@.len(),
                self.wf(),
                forall|m: int| 0 <= m < k ==> self.words@[m] == 0u64,
            decreases n - k,
        {
            let w = self.words[k];
            if w != 0 {
                proof {
                    lemma_nonzero_has_bit(w);
                    let j = w.trailing_zeros() as int;
                    let i = k as int * 64 + j;
                    assert(i / 64 == k as int);
                    assert(i % 64 == j);
                    assert(seq_bit(self.words@, i));
                    assert(self@.contains(i));
                }
                return false;
            }
            k = k + 1;
        }
        assert forall|i: int| 0 <= i < self.len implies !#[trigger] seq_bit(self.words@, i) by {
            lemma_zero_word(i % 64);
        }
        assert(self@ =~= Set::<int>::empty());
        true
    }
}

/// Walks the set indices of a [`BitSet`] in increasing order.
pub struct BitSetOnes<'a> {
    set: &'a BitSet,
    word_index: usize,
    word: u64,
}

impl<'a> BitSetOnes<'a> {
    /// The set being walked.
    pub closed spec fn spec_set(&self) -> BitSet {
        *self.set
    }

    /// The indices the walk has still to yield.
    pub closed spec fn remaining(&self) -> Set<int> {
        Set::new(
            |i: int|
                self.set@.contains(i) && (i / 64 > self.word_index || (i / 64 == self.word_index
                    && word_bit(self.word, i % 64))),
        )
    }

    pub closed spec fn wf(&self) -> bool {
        &&& self.set.wf()
        &&& self.word_index <= self.set.words@.len()
        &&& self.word_index < self.set.words@.len() ==> forall|j: int|
            0 <= j < 64 && #[trigger] word_bit(self.word, j) ==> word_bit(
                self.set.words@[self.word_index as int],
                j,
            )
        &&& self.word_index >= self.set.words@.len() ==> self.word == 0
    }

    /// Yields the smallest index not yet yielded, or `None` once every set
    /// index has been yielded.
    pub fn next(&mut self) -> (r: Option<BitIndex>)
        requires
            old(self).wf(),
        ensures
            final(self).wf(),
            final(self).spec_set() == old(self).spec_set(),
            match r {
                None => old(self).remaining() == Set::<int>::empty() && final(self).remaining()
                    == Set::<int>::empty(),
                Some(x) => {
                    &&& old(self).remaining().contains(x.0 as int)
                    &&& forall|y: int| #[trigger] old(self).remaining().contains(y) ==> x.0 <= y
                    &&& final(self).remaining() == old(self).remaining().remove(x.0 as int)
                },
            },
    {
        let n = self.set.words.len();
        loop
            invariant
                self.wf(),
                self.set == old(self).set,
                n == self.set.words@.len(),
                self.remaining() == old(self).remaining(),
                forall|y: int| #[trigger] old(self).remaining().contains(y) ==> y >= self.word_index * 64,
            decreases n - self.word_index,
        {
            if self.word != 0 {
                let w = self.word;
                let ghost before = self.remaining();
                proof {
                    vstd::std_specs::bits::axiom_u64_trailing_zeros(w);
                }
                let bit = w.trailing_zeros() as usize;
                self.word = w & (w - 1);
                let index = self.word_index * 64 + bit;
                proof {
                    assert forall|j: int| 0 <= j < 64 implies #[trigger] word_bit(self.word, j) == (j != bit && word_bit(w, j)) by {
                        lemma_clear_lowest(w, j);
                    }
                    assert forall|j: int| 0 <= j < 64 && #[trigger] word_bit(w, j) implies j >= bit by {
                        lemma_clear_lowest(w, j);
                    }
                    assert(index as int / 64 == self.word_index as int);
                    assert(index as int % 64 == bit as int);
                }
                if index < self.set.len {
                    proof {
                        lemma_clear_lowest(w, bit as int);
                        assert(before.contains(index as int));
                        assert forall|y: int| #[trigger] before.contains(y) implies index <= y by {
                            if y / 64 == self.word_index as int {
                                assert(word_bit(w, y % 64));
                            }
                        }
                        assert(self.remaining() =~= before.remove(index as int));
                    }
                    return Some(BitIndex(index));
                }
                proof {
                    assert(!self.set@.contains(index as int));
                    assert(self.remaining() =~= before);
                    assert forall|y: int| #[trigger] self.remaining().contains(y) implies y / 64 > self.word_index by {
                        if y / 64 == self.word_index as int {
                            assert(word_bit(w, y % 64));
                            assert(y >= index);
                            assert(false);
                        }
                    }
                }
            }
            if self.word_index + 1 >= n {
                proof {
                    assert forall|y: int| #[trigger] self.remaining().contains(y) implies false by {
                        if y / 64 == self.word_index as int {
                            lemma_zero_word(y % 64);
                        }
                    }
                }
                let ghost before = self.remaining();
                self.word_index = n;
                self.word = 0;
                assert(self.remaining() =~= Set::<int>::empty());
                assert(before =~= Set::<int>::empty());
                return None;
            }
            let ghost before = self.remaining();
            proof {
                assert forall|y: int| #[trigger] before.contains(y) implies y / 64 > self.word_index by {
                    if y / 64 == self.word_index as int {
                        lemma_zero_word(y % 64);
                    }
                }
            }
            self.word_index = self.word_index + 1;
            self.word = self.set.words[self.word_index];
            assert(self.remaining() =~= before);
        }
    }
}

/// `ys` is what a walk over the indices `s` yields, one `next` at a time:
/// each value is the smallest not yet yielded, and the walk ends when none
/// is left. `BitSet::iter_ones` starts with `remaining()` equal to the set,
/// and each `BitSetOnes::next` takes one such step.
pub open spec fn walk_yields(s: Set<int>, ys: Seq<int>) -> bool
    decreases ys.len(),
{
    if ys.len() == 0 {
        s == Set::<int>::empty()
    } else {
        &&& s.contains(ys[0])
        &&& forall|y: int| #[trigger] s.contains(y) ==> ys[0] <= y
        &&& walk_yields(s.remove(ys[0]), ys.drop_first())
    }
}

/// Walking a set of indices yields each member once, in increasing order:
/// the values strictly increase, they are exactly the members, and there
/// are as many as the set has.
pub proof fn lemma_walk_yields_sorted_members(s: Set<int>, ys: Seq<int>)
    requires
        walk_yields(s, ys),
    ensures
        forall|i: int, j: int| 0 <= i < j < ys.len() ==> ys[i] < ys[j],
        forall|x: int| ys.contains(x) <==> s.contains(x),
        s.finite(),
        s.len() == ys.len(),
    decreases ys.len(),
{
    if ys.len() > 0 {
        let s1 = s.remove(ys[0]);
        let t = ys.drop_first();
        lemma_walk_yields_sorted_members(s1, t);
        assert(s =~= s1.insert(ys[0]));
        assert forall|i: int, j: int| 0 <= i < j < ys.len() implies ys[i] < ys[j] by {
            if i == 0 {
                assert(t.contains(t[j - 1]));
                assert(s1.contains(ys[j]));
            } else {
                assert(ys[i] == t[i - 1] && ys[j] == t[j - 1]);
            }
        }
        assert forall|x: int| ys.contains(x) <==> s.contains(x) by {
            if ys.contains(x) {
                let k = choose|k: int| 0 <= k < ys.len() && ys[k] == x;
                if k > 0 {
                    assert(t[k - 1] == x);
                    assert(t.contains(x));
                }
            }
            if s.contains(x) && x != ys[0] {
                assert(s1.contains(x));
                let k = choose|k: int| 0 <= k < t.len() && t[k] == x;
                assert(ys[k + 1] == x);
            }
            if x == ys[0] {
                assert(ys[0] == x);
            }
        }
    } else {
        assert(s =~= Set::<int>::empty());
    }
}

/// A full walk over a set, as `iter_ones` and `next` give it, yields the
/// indices below the length that the set holds, each once and in increasing
/// order, `count_ones` of them in all.
pub proof fn lemma_walk_of_set(set: &BitSet, ys: Seq<int>)
    requires
        set.wf(),
        walk_yields(set@, ys),
    ensures
        forall|i: int, j: int| 0 <= i < j < ys.len() ==> ys[i] < ys[j],
        ys.len() == set@.len(),
        ys.len() == popcount_seq(set.spec_words()),
        forall|x: int| ys.contains(x) <==> (0 <= x < set.spec_len() && set@.contains(x)),
{
    lemma_walk_yields_sorted_members(set@, ys);
    set.lemma_members_below_len();
    set.lemma_len_is_popcount();
}

impl Default for BitSet {
    fn default() -> (r: Self)
        ensures
            r.wf(),
            r.spec_len() == 0,
            r@ == Set::<int>::empty(),
    {
        Self::new()
    }
}

} // verus!
