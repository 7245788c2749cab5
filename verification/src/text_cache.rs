//! Bookkeeping for cached text layouts.
use vstd::prelude::*;

verus! {

/// A version number of cached text, wrapping at the top.
#[derive(Debug, Clone, Copy, PartialEq, Eq, Hash, Structural)]
pub struct TextGeneration(pub u64);

impl TextGeneration {
    pub fn zero() -> (r: Self)
        ensures
            r == TextGeneration(0),
    {
        TextGeneration(0)
    }

    pub fn next(self) -> (r: Self)
        ensures
            r.0 == if self.0 == u64::MAX { 0 } else { (self.0 + 1) as u64 },
    {
        TextGeneration(self.0.wrapping_add(1))
    }
}

/// A cache key for a text layout.
#[derive(Debug, Clone, Copy, PartialEq, Eq, Hash, Structural)]
pub struct TextKey {
    hash: u64,
}

impl TextKey {
    pub closed spec fn spec_hash(self) -> u64 {
        self.hash
    }

    /// A key with the given hash.
    pub fn from_hash(hash: u64) -> (r: Self)
        ensures
            r.spec_hash() == hash,
    {
        TextKey { hash }
    }

    pub fn raw(self) -> (r: u64)
        ensures
            r == self.spec_hash(),
    {
        self.hash
    }
}

#[derive(Debug, Clone, Copy, PartialEq, Eq, Structural)]
pub enum TextAlign {
    Start,
    Center,
    End,
}

/// How much text scratch storage a frame expects to need.
#[derive(Debug, Clone, Copy, PartialEq, Eq, Structural)]
pub struct TextScratchPlan {
    pub expected_buffers: usize,
    pub expected_areas: usize,
    pub expected_glyph_runs: usize,
}

impl TextScratchPlan {
    pub fn empty() -> (r: Self)
        ensures
            r == (TextScratchPlan { expected_buffers: 0, expected_areas: 0, expected_glyph_runs: 0 }),
    {
        TextScratchPlan { expected_buffers: 0, expected_areas: 0, expected_glyph_runs: 0 }
    }

    /// Adds a widget with `text_areas` areas (one buffer each) and
    /// `glyph_runs` runs.
    pub fn reserve_for_widget(self, text_areas: usize, glyph_runs: usize) -> (r: Self)
        requires
            self.expected_buffers + text_areas <= usize::MAX,
            self.expected_areas + text_areas <= usize::MAX,
            self.expected_glyph_runs + glyph_runs <= usize::MAX,
        ensures
            r == (TextScratchPlan {
                expected_buffers: (self.expected_buffers + text_areas) as usize,
                expected_areas: (self.expected_areas + text_areas) as usize,
                expected_glyph_runs: (self.expected_glyph_runs + glyph_runs) as usize,
            }),
    {
        TextScratchPlan {
            expected_buffers: self.expected_buffers + text_areas,
            expected_areas: self.expected_areas + text_areas,
            expected_glyph_runs: self.expected_glyph_runs + glyph_runs,
        }
    }

    /// Adds `other`'s expectations.
    pub fn merge(&mut self, other: &Self)
        requires
            old(self).expected_buffers + other.expected_buffers <= usize::MAX,
            old(self).expected_areas + other.expected_areas <= usize::MAX,
            old(self).expected_glyph_runs + other.expected_glyph_runs <= usize::MAX,
        ensures
            *final(self) == (TextScratchPlan {
                expected_buffers: (old(self).expected_buffers + other.expected_buffers) as usize,
                expected_areas: (old(self).expected_areas + other.expected_areas) as usize,
                expected_glyph_runs: (old(self).expected_glyph_runs + other.expected_glyph_runs) as usize,
            }),
    {
        self.expected_buffers = self.expected_buffers + other.expected_buffers;
        self.expected_areas = self.expected_areas + other.expected_areas;
        self.expected_glyph_runs = self.expected_glyph_runs + other.expected_glyph_runs;
    }
}

/// Hits, misses and invalidations of a text cache.
#[derive(Debug, Clone, Copy, PartialEq, Eq, Structural)]
pub struct TextCacheStats {
    pub cache_hits: u64,
    pub cache_misses: u64,
    pub invalidations: u64,
}

impl Default for TextCacheStats {
    fn default() -> (r: Self)
        ensures
            r == (TextCacheStats { cache_hits: 0, cache_misses: 0, invalidations: 0 }),
    {
        TextCacheStats { cache_hits: 0, cache_misses: 0, invalidations: 0 }
    }
}

impl TextCacheStats {
    pub fn hit(&mut self)
        requires
            old(self).cache_hits < u64::MAX,
        ensures
            *final(self) == (TextCacheStats { cache_hits: (old(self).cache_hits + 1) as u64, ..*old(self) }),
    {
        self.cache_hits = self.cache_hits + 1;
    }

    pub fn miss(&mut self)
        requires
            old(self).cache_misses < u64::MAX,
        ensures
            *final(self) == (TextCacheStats { cache_misses: (old(self).cache_misses + 1) as u64, ..*old(self) }),
    {
        self.cache_misses = self.cache_misses + 1;
    }

    pub fn invalidate(&mut self)
        requires
            old(self).invalidations < u64::MAX,
        ensures
            *final(self) == (TextCacheStats { invalidations: (old(self).invalidations + 1) as u64, ..*old(self) }),
    {
        self.invalidations = self.invalidations + 1;
    }
}

/// The cached layout of one text run: the key it was shaped for, its
/// metrics, and a generation that advances on every change. The metrics
/// are whatever the text engine measured; they are carried, not read.
#[derive(Debug, Clone, Copy, PartialEq, Eq)]
pub struct TextRunCache<M> {
    pub key: Option<TextKey>,
    pub metrics: M,
    pub generation: TextGeneration,
}

impl<M: Copy> TextRunCache<M> {
    pub open spec fn spec_key(self) -> Option<TextKey> {
        self.key
    }

    pub open spec fn spec_metrics(self) -> M {
        self.metrics
    }

    pub open spec fn spec_generation(self) -> TextGeneration {
        self.generation
    }

    /// Nothing shaped yet; `empty` stands for the metrics of no text.
    pub fn new(empty: M) -> (r: Self)
        ensures
            r.spec_key() is None,
            r.spec_metrics() == empty,
            r.spec_generation() == TextGeneration(0),
    {
        TextRunCache { key: None, metrics: empty, generation: TextGeneration::zero() }
    }

    /// Whether text with `key` has to be shaped again.
    pub fn should_shape(&self, key: TextKey) -> (r: bool)
        ensures
            r == (self.spec_key() != Some(key)),
    {
        match self.key {
            Some(k) => k.hash != key.hash,
            None => true,
        }
    }

    /// Records a fresh layout for `key`.
    pub fn update(&mut self, key: TextKey, metrics: M)
        ensures
            final(self).spec_key() == Some(key),
            final(self).spec_metrics() == metrics,
            final(self).spec_generation() == old(self).spec_generation().next_spec(),
    {
        self.key = Some(key);
        self.metrics = metrics;
        self.generation = self.generation.next();
    }

    /// Forgets the key, so that the next check reshapes.
    pub fn invalidate(&mut self)
        ensures
            final(self).spec_key() is None,
            final(self).spec_metrics() == old(self).spec_metrics(),
            final(self).spec_generation() == old(self).spec_generation().next_spec(),
    {
        self.key = None;
        self.generation = self.generation.next();
    }

    pub fn metrics(&self) -> (r: M)
        ensures
            r == self.spec_metrics(),
    {
        self.metrics
    }

    pub fn generation(&self) -> (r: TextGeneration)
        ensures
            r == self.spec_generation(),
    {
        self.generation
    }
}

impl TextGeneration {
    pub open spec fn next_spec(self) -> TextGeneration {
        TextGeneration(if self.0 == u64::MAX { 0 } else { (self.0 + 1) as u64 })
    }
}

/// The run caches of every text slot, indexed by slot, with hit and miss
/// counts.
#[derive(Debug, Clone)]
pub struct TextCacheBook<M> {
    entries: Vec<TextRunCache<M>>,
    stats: TextCacheStats,
    empty: M,
}

impl<M: Copy> TextCacheBook<M> {
    pub closed spec fn spec_entries(self) -> Seq<TextRunCache<M>> {
        self.entries@
    }

    pub closed spec fn spec_stats(self) -> TextCacheStats {
        self.stats
    }

    pub closed spec fn spec_empty(self) -> M {
        self.empty
    }

    /// The entries after making sure slot `index` exists: new slots are
    /// fresh caches.
    pub open spec fn grown(self, index: usize) -> Seq<TextRunCache<M>> {
        if index < self.spec_entries().len() {
            self.spec_entries()
        } else {
            self.spec_entries() + Seq::new(
                (index + 1 - self.spec_entries().len()) as nat,
                |i: int| TextRunCache { key: None, metrics: self.spec_empty(), generation: TextGeneration(0) },
            )
        }
    }

    /// No slots; `empty` stands for the metrics of no text.
    pub fn new(empty: M) -> (r: Self)
        ensures
            r.spec_entries() == Seq::<TextRunCache<M>>::empty(),
            r.spec_stats() == (TextCacheStats { cache_hits: 0, cache_misses: 0, invalidations: 0 }),
            r.spec_empty() == empty,
    {
        TextCacheBook { entries: Vec::with_capacity(64), stats: TextCacheStats::default(), empty }
    }

    /// Makes sure slot `index` exists.
    pub fn ensure_len(&mut self, index: usize)
        requires
            index < usize::MAX,
        ensures
            final(self).spec_entries() == old(self).grown(index),
            final(self).spec_stats() == old(self).spec_stats(),
            final(self).spec_empty() == old(self).spec_empty(),
    {
        let ghost start = self.entries@;
        while self.entries.len() <= index
            invariant
                index < usize::MAX,
                self.empty == old(self).empty,
                self.stats == old(self).stats,
                start == old(self).spec_entries(),
                self.entries@.len() >= start.len(),
                self.entries@.len() <= index + 1 || self.entries@.len() == start.len(),
                self.entries@.subrange(0, start.len() as int) == start,
                forall|i: int| start.len() <= i < self.entries@.len() ==> #[trigger] self.entries@[i]
                    == (TextRunCache { key: None, metrics: self.empty, generation: TextGeneration(0) }),
            decreases index + 1 - self.entries@.len(),
        {
            self.entries.push(TextRunCache::new(self.empty));
            assert(self.entries@.subrange(0, start.len() as int) =~= start);
        }
        assert(self.entries@ =~= old(self).grown(index));
    }

    /// Whether slot `index` has to be shaped again for `key`; counts a hit
    /// or a miss.
    pub fn check_key(&mut self, index: usize, key: TextKey) -> (r: bool)
        requires
            index < usize::MAX,
            old(self).spec_stats().cache_hits < u64::MAX,
            old(self).spec_stats().cache_misses < u64::MAX,
        ensures
            final(self).spec_entries() == old(self).grown(index),
            r == (old(self).grown(index)[index as int].spec_key() != Some(key)),
            final(self).spec_stats() == if r {
                TextCacheStats { cache_misses: (old(self).spec_stats().cache_misses + 1) as u64, ..old(self).spec_stats() }
            } else {
                TextCacheStats { cache_hits: (old(self).spec_stats().cache_hits + 1) as u64, ..old(self).spec_stats() }
            },
            final(self).spec_empty() == old(self).spec_empty(),
    {
        self.ensure_len(index);
        let should_shape = self.entries[index].should_shape(key);
        if should_shape {
            self.stats.miss();
        } else {
            self.stats.hit();
        }
        should_shape
    }

    /// Records a fresh layout of slot `index`.
    pub fn update(&mut self, index: usize, key: TextKey, metrics: M)
        requires
            index < usize::MAX,
        ensures
            final(self).spec_entries() == old(self).grown(index).update(
                index as int,
                TextRunCache {
                    key: Some(key),
                    metrics,
                    generation: old(self).grown(index)[index as int].spec_generation().next_spec(),
                },
            ),
            final(self).spec_stats() == old(self).spec_stats(),
            final(self).spec_empty() == old(self).spec_empty(),
    {
        self.ensure_len(index);
        let mut entry = self.entries[index];
        entry.update(key, metrics);
        self.entries.set(index, entry);
    }

    /// Forgets slot `index`'s key and counts an invalidation.
    pub fn invalidate(&mut self, index: usize)
        requires
            index < usize::MAX,
            old(self).spec_stats().invalidations < u64::MAX,
        ensures
            final(self).spec_entries() == old(self).grown(index).update(
                index as int,
                TextRunCache {
                    key: None,
                    metrics: old(self).grown(index)[index as int].spec_metrics(),
                    generation: old(self).grown(index)[index as int].spec_generation().next_spec(),
                },
            ),
            final(self).spec_stats() == (TextCacheStats {
                invalidations: (old(self).spec_stats().invalidations + 1) as u64,
                ..old(self).spec_stats()
            }),
            final(self).spec_empty() == old(self).spec_empty(),
    {
        self.ensure_len(index);
        let mut entry = self.entries[index];
        entry.invalidate();
        self.entries.set(index, entry);
        self.stats.invalidate();
    }

    /// The metrics of slot `index`, if it exists.
    pub fn metrics(&self, index: usize) -> (r: Option<M>)
        ensures
            r == if index < self.spec_entries().len() {
                Some(self.spec_entries()[index as int].spec_metrics())
            } else {
                None
            },
    {
        if index < self.entries.len() {
            Some(self.entries[index].metrics())
        } else {
            None
        }
    }

    pub fn stats(&self) -> (r: TextCacheStats)
        ensures
            r == self.spec_stats(),
    {
        self.stats
    }

    pub fn len(&self) -> (r: usize)
        ensures
            r == self.spec_entries().len(),
    {
        self.entries.len()
    }

    pub fn is_empty(&self) -> (r: bool)
        ensures
            r == (self.spec_entries().len() == 0),
    {
        self.entries.len() == 0
    }
}

/// A slot that was just updated for `key` is found again: the book after
/// `update(index, key, metrics)` needs no new slot for `index`, a check of
/// `index` with `key` is a hit (no shaping), with any other key a miss, and
/// the slot's metrics are the ones written.
pub proof fn lemma_updated_slot_hits<M: Copy>(
    before: TextCacheBook<M>,
    after: TextCacheBook<M>,
    index: usize,
    key: TextKey,
    other: TextKey,
    metrics: M,
)
    requires
        index < usize::MAX,
        other != key,
        after.spec_entries() == before.grown(index).update(
            index as int,
            TextRunCache {
                key: Some(key),
                metrics,
                generation: before.grown(index)[index as int].spec_generation().next_spec(),
            },
        ),
        after.spec_empty() == before.spec_empty(),
    ensures
        after.grown(index) == after.spec_entries(),
        after.grown(index)[index as int].spec_key() == Some(key),
        after.grown(index)[index as int].spec_key() != Some(other),
        after.grown(index)[index as int].spec_metrics() == metrics,
{
}

} // verus!
