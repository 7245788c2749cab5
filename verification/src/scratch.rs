//! Frame scratch storage: pools of cleared buffers that are handed out for a
//! frame and taken back afterwards, with counters that show whether a warm
//! frame allocated.
use vstd::prelude::*;
use vstd::string::StringExecFns;
use std::collections::VecDeque;
use crate::alloc_ops::{
    deque_capacity, deque_shrink_to, string_capacity, string_clear, string_reserve,
    string_with_capacity, vec_capacity,
};

verus! {

/// The kinds of scratch storage.
#[derive(Debug, Clone, Copy, PartialEq, Eq, Structural)]
pub enum ScratchKind {
    Vec,
    String,
    Queue,
}

pub open spec fn max_u(a: usize, b: usize) -> usize {
    if a >= b { a } else { b }
}

pub open spec fn min_u(a: usize, b: usize) -> usize {
    if a <= b { a } else { b }
}

/// How many idle buffers a pool keeps, and how large they may be.
#[derive(Debug, Clone, Copy, PartialEq, Eq, Structural)]
pub struct ScratchPolicy {
    pub min_buffers: usize,
    pub max_idle_buffers: usize,
    pub max_idle_capacity: usize,
}

impl ScratchPolicy {
    /// Whether an idle buffer at position `idle_index` with `capacity` is kept.
    pub open spec fn keeps(self, idle_index: usize, capacity: usize) -> bool {
        idle_index < self.min_buffers || (idle_index < self.max_idle_buffers && capacity
            <= self.max_idle_capacity)
    }

    pub fn new(min_buffers: usize, max_idle_buffers: usize, max_idle_capacity: usize) -> (r: Self)
        ensures
            r == (ScratchPolicy { min_buffers, max_idle_buffers, max_idle_capacity }),
    {
        ScratchPolicy { min_buffers, max_idle_buffers, max_idle_capacity }
    }

    pub open spec fn frame_default_spec() -> ScratchPolicy {
        ScratchPolicy { min_buffers: 2, max_idle_buffers: 32, max_idle_capacity: 16384 }
    }

    pub open spec fn text_default_spec() -> ScratchPolicy {
        ScratchPolicy { min_buffers: 2, max_idle_buffers: 24, max_idle_capacity: 8192 }
    }

    /// Two buffers always kept, up to 32 idle ones of at most 16384 items.
    pub fn frame_default() -> (r: Self)
        ensures
            r == (ScratchPolicy { min_buffers: 2, max_idle_buffers: 32, max_idle_capacity: 16384 }),
    {
        ScratchPolicy { min_buffers: 2, max_idle_buffers: 32, max_idle_capacity: 16 * 1024 }
    }

    /// Two buffers always kept, up to 24 idle ones of at most 8192 bytes.
    pub fn text_default() -> (r: Self)
        ensures
            r == (ScratchPolicy { min_buffers: 2, max_idle_buffers: 24, max_idle_capacity: 8192 }),
    {
        ScratchPolicy { min_buffers: 2, max_idle_buffers: 24, max_idle_capacity: 8 * 1024 }
    }

    /// Keeps every idle buffer.
    pub fn unbounded() -> (r: Self)
        ensures
            r == (ScratchPolicy {
                min_buffers: 0,
                max_idle_buffers: usize::MAX,
                max_idle_capacity: usize::MAX,
            }),
    {
        ScratchPolicy { min_buffers: 0, max_idle_buffers: usize::MAX, max_idle_capacity: usize::MAX }
    }

    pub fn should_keep(self, idle_index: usize, capacity: usize) -> (r: bool)
        ensures
            r == self.keeps(idle_index, capacity),
    {
        idle_index < self.min_buffers || (idle_index < self.max_idle_buffers && capacity
            <= self.max_idle_capacity)
    }
}

impl Default for ScratchPolicy {
    fn default() -> (r: Self)
        ensures
            r == (ScratchPolicy { min_buffers: 2, max_idle_buffers: 32, max_idle_capacity: 16384 }),
    {
        Self::frame_default()
    }
}

/// Per-frame counters of a pool, with high-water marks that survive frames.
#[derive(Debug, Clone, Copy, PartialEq, Eq, Structural)]
pub struct ScratchStats {
    pub checkouts: u64,
    pub returns: u64,
    pub allocations: u64,
    pub capacity_grows: u64,
    pub trims: u64,
    pub high_water_buffers: usize,
    pub high_water_capacity: usize,
}

impl Default for ScratchStats {
    fn default() -> (r: Self)
        ensures
            r == ScratchStats::zero(),
    {
        ScratchStats {
            checkouts: 0,
            returns: 0,
            allocations: 0,
            capacity_grows: 0,
            trims: 0,
            high_water_buffers: 0,
            high_water_capacity: 0,
        }
    }
}

impl ScratchStats {
    pub open spec fn zero() -> ScratchStats {
        ScratchStats {
            checkouts: 0,
            returns: 0,
            allocations: 0,
            capacity_grows: 0,
            trims: 0,
            high_water_buffers: 0,
            high_water_capacity: 0,
        }
    }

    /// The counters can take one more checkout, allocation, growth and return.
    pub open spec fn has_room(self) -> bool {
        &&& self.checkouts < u64::MAX
        &&& self.returns < u64::MAX
        &&& self.allocations < u64::MAX
        &&& self.capacity_grows < u64::MAX
        &&& self.trims < u64::MAX
    }

    pub fn record_checkout(&mut self, in_use: usize)
        requires
            old(self).checkouts < u64::MAX,
        ensures
            *final(self) == (ScratchStats {
                checkouts: (old(self).checkouts + 1) as u64,
                high_water_buffers: max_u(old(self).high_water_buffers, in_use),
                ..*old(self)
            }),
    {
        self.checkouts += 1;
        if in_use > self.high_water_buffers {
            self.high_water_buffers = in_use;
        }
    }

    pub fn record_return(&mut self)
        requires
            old(self).returns < u64::MAX,
        ensures
            *final(self) == (ScratchStats { returns: (old(self).returns + 1) as u64, ..*old(self) }),
    {
        self.returns += 1;
    }

    pub fn record_allocation(&mut self, capacity: usize)
        requires
            old(self).allocations < u64::MAX,
        ensures
            *final(self) == (ScratchStats {
                allocations: (old(self).allocations + 1) as u64,
                high_water_capacity: max_u(old(self).high_water_capacity, capacity),
                ..*old(self)
            }),
    {
        self.allocations += 1;
        if capacity > self.high_water_capacity {
            self.high_water_capacity = capacity;
        }
    }

    pub fn record_growth(&mut self, capacity: usize)
        requires
            old(self).capacity_grows < u64::MAX,
        ensures
            *final(self) == (ScratchStats {
                capacity_grows: (old(self).capacity_grows + 1) as u64,
                high_water_capacity: max_u(old(self).high_water_capacity, capacity),
                ..*old(self)
            }),
    {
        self.capacity_grows += 1;
        if capacity > self.high_water_capacity {
            self.high_water_capacity = capacity;
        }
    }

    pub fn record_trim(&mut self, count: usize)
        requires
            old(self).trims + count <= u64::MAX,
        ensures
            *final(self) == (ScratchStats { trims: (old(self).trims + count) as u64, ..*old(self) }),
    {
        self.trims += count as u64;
    }

    /// Zeroes the per-frame counters; the high-water marks stay.
    pub fn reset_frame_counters(&mut self)
        ensures
            *final(self) == (ScratchStats {
                checkouts: 0,
                returns: 0,
                allocations: 0,
                capacity_grows: 0,
                trims: 0,
                ..*old(self)
            }),
    {
        self.checkouts = 0;
        self.returns = 0;
        self.allocations = 0;
        self.capacity_grows = 0;
        self.trims = 0;
    }

    pub fn has_frame_growth(self) -> (r: bool)
        ensures
            r == (self.allocations != 0 || self.capacity_grows != 0),
    {
        self.allocations != 0 || self.capacity_grows != 0
    }
}

/// Retained buffers and capacities of a [`FrameScratch`] at one moment.
#[derive(Debug, Clone, Copy, PartialEq, Eq, Structural)]
pub struct ScratchSnapshot {
    pub vec_buffers: usize,
    pub vec_capacity: usize,
    pub string_buffers: usize,
    pub string_capacity: usize,
    pub queue_capacity: usize,
}

impl Default for ScratchSnapshot {
    fn default() -> (r: Self)
        ensures
            r == (ScratchSnapshot {
                vec_buffers: 0,
                vec_capacity: 0,
                string_buffers: 0,
                string_capacity: 0,
                queue_capacity: 0,
            }),
    {
        ScratchSnapshot {
            vec_buffers: 0,
            vec_capacity: 0,
            string_buffers: 0,
            string_capacity: 0,
            queue_capacity: 0,
        }
    }
}

impl ScratchSnapshot {
    pub open spec fn total(self) -> int {
        self.vec_capacity + self.string_capacity + self.queue_capacity
    }

    pub open spec fn grew_over(self, previous: Self) -> bool {
        ||| self.vec_capacity > previous.vec_capacity
        ||| self.string_capacity > previous.string_capacity
        ||| self.queue_capacity > previous.queue_capacity
        ||| self.vec_buffers > previous.vec_buffers
        ||| self.string_buffers > previous.string_buffers
    }

    /// Sum of the three capacities.
    pub fn total_capacity_units(self) -> (r: usize)
        requires
            self.total() <= usize::MAX,
        ensures
            r == self.total(),
    {
        self.vec_capacity + self.string_capacity + self.queue_capacity
    }

    /// Whether any capacity or buffer count is larger than in `previous`.
    pub fn grew_since(self, previous: Self) -> (r: bool)
        ensures
            r == self.grew_over(previous),
    {
        self.vec_capacity > previous.vec_capacity || self.string_capacity
            > previous.string_capacity || self.queue_capacity > previous.queue_capacity
            || self.vec_buffers > previous.vec_buffers || self.string_buffers
            > previous.string_buffers
    }

    /// Total capacity now minus total capacity in `previous`.
    pub fn capacity_delta(self, previous: Self) -> (r: isize)
        requires
            self.total() <= isize::MAX,
            previous.total() <= isize::MAX,
        ensures
            r == self.total() - previous.total(),
    {
        let now = self.total_capacity_units() as isize;
        let before = previous.total_capacity_units() as isize;
        now - before
    }
}

/// Comparison of two snapshots around a frame.
#[derive(Debug, Clone, Copy, PartialEq, Eq, Structural)]
pub struct WarmFrameReport {
    pub before: ScratchSnapshot,
    pub after: ScratchSnapshot,
    pub grew: bool,
    pub capacity_delta: isize,
}

impl WarmFrameReport {
    /// A frame is stable when nothing grew and capacity did not increase.
    pub fn stable(self) -> (r: bool)
        ensures
            r == (!self.grew && self.capacity_delta <= 0),
    {
        !self.grew && self.capacity_delta <= 0
    }
}

/// Holds the snapshot taken before a frame.
#[derive(Debug, Clone, Copy, PartialEq, Eq, Structural)]
pub struct WarmFrameGuard {
    before: ScratchSnapshot,
}

impl WarmFrameGuard {
    pub closed spec fn spec_before(self) -> ScratchSnapshot {
        self.before
    }

    pub fn new(before: ScratchSnapshot) -> (r: Self)
        ensures
            r.spec_before() == before,
    {
        WarmFrameGuard { before }
    }

    /// Compares `after` with the snapshot taken before the frame.
    pub fn finish(self, after: ScratchSnapshot) -> (r: WarmFrameReport)
        requires
            after.total() <= isize::MAX,
            self.spec_before().total() <= isize::MAX,
        ensures
            r.before == self.spec_before(),
            r.after == after,
            r.grew == after.grew_over(self.spec_before()),
            r.capacity_delta == after.total() - self.spec_before().total(),
    {
        WarmFrameReport {
            before: self.before,
            after,
            grew: after.grew_since(self.before),
            capacity_delta: after.capacity_delta(self.before),
        }
    }
}

/// Frames that leave the scratch storage exactly as they found it are
/// stable.
pub proof fn lemma_unchanged_frame_is_stable(report: WarmFrameReport)
    requires
        report.after == report.before,
        report.grew == report.after.grew_over(report.before),
        report.capacity_delta == report.after.total() - report.before.total(),
    ensures
        !report.grew,
        report.capacity_delta == 0,
        !report.grew && report.capacity_delta <= 0,
{
}

/// A span of text inside a scratch string.
#[derive(Debug, Clone, Copy, PartialEq, Eq, Structural)]
pub struct TextScratchSpan {
    pub start: usize,
    pub end: usize,
    pub line: usize,
}

impl TextScratchSpan {
    pub fn new(start: usize, end: usize, line: usize) -> (r: Self)
        ensures
            r == (TextScratchSpan { start, end, line }),
    {
        TextScratchSpan { start, end, line }
    }

    /// `end - start`, or zero when the span is reversed.
    pub fn len(self) -> (r: usize)
        ensures
            r == if self.end >= self.start { self.end - self.start } else { 0 },
    {
        self.end.saturating_sub(self.start)
    }

    pub fn is_empty(self) -> (r: bool)
        ensures
            r == (self.start >= self.end),
    {
        self.start >= self.end
    }
}

/// A span is empty exactly when its length is zero.
pub proof fn lemma_span_empty_iff_zero_len(span: TextScratchSpan)
    ensures
        (span.start >= span.end) == ((if span.end >= span.start { span.end - span.start } else { 0 }) == 0),
{
}


/// The stats after a checkout that found `in_use` buffers out, took a fresh
/// allocation when `fresh`, and grew the buffer to a capacity `c` when `grew`.
pub open spec fn checkout_stats(
    before: ScratchStats,
    in_use: usize,
    fresh: bool,
    min_capacity: usize,
    grew: bool,
    c: usize,
) -> ScratchStats {
    let counted = ScratchStats {
        checkouts: (before.checkouts + 1) as u64,
        high_water_buffers: max_u(before.high_water_buffers, in_use),
        ..before
    };
    let allocated = if fresh {
        ScratchStats {
            allocations: (counted.allocations + 1) as u64,
            high_water_capacity: max_u(counted.high_water_capacity, min_capacity),
            ..counted
        }
    } else {
        counted
    };
    if grew {
        ScratchStats {
            capacity_grows: (allocated.capacity_grows + 1) as u64,
            high_water_capacity: max_u(allocated.high_water_capacity, c),
            ..allocated
        }
    } else {
        allocated
    }
}

/// The pool's stats after a checkout: as `checkout_stats` says, for some
/// growth decision and capacity the allocator chose. (A reused buffer below
/// `min_capacity` is reserved `min_capacity - capacity` more items past its
/// empty length, which need not reach `min_capacity`.)
pub open spec fn stats_after_checkout(
    before: ScratchStats,
    after: ScratchStats,
    in_use: usize,
    fresh: bool,
    min_capacity: usize,
) -> bool {
    exists|grew: bool, c: usize|
        after == #[trigger] checkout_stats(
            before,
            in_use,
            fresh,
            min_capacity,
            grew,
            c,
        )
}

/// The retained count and stats after a buffer of `len` items and capacity
/// `c` came back: kept when the policy allows it at the next idle position,
/// counted as trimmed otherwise.
pub open spec fn recycled(
    policy: ScratchPolicy,
    retained: nat,
    before: ScratchStats,
    len: nat,
    c: usize,
    retained_after: nat,
    after: ScratchStats,
) -> bool {
    let kept = policy.keeps(retained as usize, c);
    &&& c >= len
    &&& retained_after == retained + if kept { 1int } else { 0int }
    &&& after == (ScratchStats {
        returns: (before.returns + 1) as u64,
        trims: (before.trims + if kept { 0int } else { 1int }) as u64,
        ..before
    })
}

/// A checkout from a pool that still holds an idle buffer allocates
/// nothing: only the checkout is counted (and a growth, if the buffer had
/// to grow).
pub proof fn lemma_warm_checkout_allocates_nothing(before: ScratchStats, after: ScratchStats, in_use: usize, min_capacity: usize)
    requires
        stats_after_checkout(before, after, in_use, false, min_capacity),
    ensures
        after.allocations == before.allocations,
        after.checkouts == (before.checkouts + 1) as u64,
        after.returns == before.returns,
{
    let (grew, c) = choose|grew: bool, c: usize| after == #[trigger] checkout_stats(before, in_use, false, min_capacity, grew, c);
}

/// A buffer handed back while the policy has room for it is kept, and the
/// next checkout takes it instead of allocating.
pub proof fn lemma_recycled_buffer_is_reused(
    policy: ScratchPolicy,
    retained: nat,
    s0: ScratchStats,
    len: nat,
    c: usize,
    retained1: nat,
    s1: ScratchStats,
    s2: ScratchStats,
    in_use: usize,
    min_capacity: usize,
)
    requires
        recycled(policy, retained, s0, len, c, retained1, s1),
        policy.keeps(retained as usize, c),
        stats_after_checkout(s1, s2, in_use, retained1 == 0, min_capacity),
    ensures
        retained1 == retained + 1,
        s2.allocations == s0.allocations,
{
    lemma_warm_checkout_allocates_nothing(s1, s2, in_use, min_capacity);
}

/// Whether `capacity` items of `T` fit in one allocation (at most
/// `isize::MAX` bytes).
pub fn fits_in_allocation<T>(capacity: usize) -> (r: bool)
    ensures
        r == (capacity * vstd::layout::size_of::<T>() <= isize::MAX),
{
    let size = std::mem::size_of::<T>();
    if size == 0 {
        true
    } else {
        let limit: usize = isize::MAX as usize;
        proof {
            if capacity <= limit / size {
                assert(capacity * size <= (limit / size) * size) by (nonlinear_arith)
                    requires capacity <= limit / size, size > 0;
                assert((limit / size) * size <= limit) by (nonlinear_arith)
                    requires size > 0;
            } else {
                assert(capacity * size > limit) by (nonlinear_arith)
                    requires capacity > limit / size, size > 0;
            }
        }
        capacity <= limit / size
    }
}

/// Sum of `a` and `b`, capped at `usize::MAX`.
pub open spec fn sat_add(a: usize, b: usize) -> usize {
    if a + b > usize::MAX { usize::MAX } else { (a + b) as usize }
}

/// Sum of `caps`, added left to right with each step capped at `usize::MAX`.
pub open spec fn sat_sum(caps: Seq<usize>) -> usize
    decreases caps.len(),
{
    if caps.len() == 0 { 0 } else { sat_add(sat_sum(caps.drop_last()), caps.last()) }
}

/// Product of `a` and `b`, capped at `usize::MAX`.
pub open spec fn sat_mul(a: usize, b: nat) -> usize {
    if a * b > usize::MAX { usize::MAX } else { (a * b) as usize }
}

/// A pool of cleared vectors handed out per frame.
#[derive(Debug)]
pub struct ScratchVecPool<T> {
    available: Vec<Vec<T>>,
    in_use: usize,
    policy: ScratchPolicy,
    stats: ScratchStats,
    frame_epoch: u64,
}

impl<T> ScratchVecPool<T> {
    /// Number of idle buffers held.
    pub closed spec fn spec_retained(&self) -> nat {
        self.available@.len()
    }

    pub closed spec fn spec_in_use(&self) -> usize {
        self.in_use
    }

    pub closed spec fn spec_policy(&self) -> ScratchPolicy {
        self.policy
    }

    pub closed spec fn spec_stats(&self) -> ScratchStats {
        self.stats
    }

    pub closed spec fn spec_epoch(&self) -> u64 {
        self.frame_epoch
    }

    /// Every idle buffer is empty.
    pub closed spec fn wf(&self) -> bool {
        forall|i: int| 0 <= i < self.available@.len() ==> (#[trigger] self.available@[i])@.len() == 0
    }

    /// `self` is `before` after a trim under `before`'s policy: some idle
    /// buffers dropped (never below the minimum, never above the larger of
    /// the minimum and the idle limit), each counted as a trim.
    pub open spec fn is_trim_of(&self, before: &Self) -> bool {
        &&& self.wf()
        &&& self.spec_retained() <= before.spec_retained()
        &&& self.spec_retained() >= min_u(before.spec_retained() as usize, before.spec_policy().min_buffers)
        &&& self.spec_retained() <= max_u(before.spec_policy().min_buffers, before.spec_policy().max_idle_buffers)
        &&& self.spec_stats() == (ScratchStats {
            trims: (before.spec_stats().trims + (before.spec_retained() - self.spec_retained())) as u64,
            ..before.spec_stats()
        })
        &&& self.spec_in_use() == before.spec_in_use()
        &&& self.spec_policy() == before.spec_policy()
    }

    pub fn new(policy: ScratchPolicy) -> (r: Self)
        ensures
            r.wf(),
            r.spec_retained() == 0,
            r.spec_in_use() == 0,
            r.spec_policy() == policy,
            r.spec_stats() == ScratchStats::zero(),
            r.spec_epoch() == 0,
    {
        ScratchVecPool {
            available: Vec::new(),
            in_use: 0,
            policy,
            stats: ScratchStats::default(),
            frame_epoch: 0,
        }
    }

    /// A pool that starts with `buffers` idle buffers.
    pub fn with_preallocated(buffers: usize, capacity: usize, policy: ScratchPolicy) -> (r: Self)
        requires
            capacity * vstd::layout::size_of::<T>() <= isize::MAX,
        ensures
            r.wf(),
            r.spec_retained() == buffers,
            r.spec_in_use() == 0,
            r.spec_policy() == policy,
            r.spec_stats() == (ScratchStats {
                high_water_capacity: r.spec_stats().high_water_capacity,
                ..ScratchStats::zero()
            }),
            r.spec_epoch() == 0,
    {
        let mut pool = Self::new(policy);
        pool.preallocate(buffers, capacity);
        pool
    }

    /// Adds `buffers` idle buffers of at least `capacity` items; the
    /// high-water capacity is raised to the retained total.
    pub fn preallocate(&mut self, buffers: usize, capacity: usize)
        requires
            old(self).wf(),
            capacity * vstd::layout::size_of::<T>() <= isize::MAX,
        ensures
            final(self).wf(),
            final(self).spec_retained() == old(self).spec_retained() + buffers,
            final(self).spec_in_use() == old(self).spec_in_use(),
            final(self).spec_policy() == old(self).spec_policy(),
            final(self).spec_epoch() == old(self).spec_epoch(),
            final(self).spec_stats() == (ScratchStats {
                high_water_capacity: final(self).spec_stats().high_water_capacity,
                ..old(self).spec_stats()
            }),
            final(self).spec_stats().high_water_capacity >= old(self).spec_stats().high_water_capacity,
    {
        let mut k: usize = 0;
        while k < buffers
            invariant
                k <= buffers,
                self.available@.len() == old(self).available@.len() + k,
                self.in_use == old(self).in_use,
                self.policy == old(self).policy,
                self.stats == old(self).stats,
                self.frame_epoch == old(self).frame_epoch,
                self.wf(),
            decreases buffers - k,
        {
            self.available.push(Vec::with_capacity(capacity));
            k = k + 1;
        }
        let retained = self.retained_capacity();
        if retained > self.stats.high_water_capacity {
            self.stats.high_water_capacity = retained;
        }
    }

    /// Starts a frame: the epoch advances (wrapping) and the per-frame
    /// counters reset.
    pub fn begin_frame(&mut self)
        ensures
            final(self).spec_epoch() == if old(self).spec_epoch() == u64::MAX { 0 } else { (old(self).spec_epoch() + 1) as u64 },
            final(self).spec_stats() == (ScratchStats {
                checkouts: 0,
                returns: 0,
                allocations: 0,
                capacity_grows: 0,
                trims: 0,
                ..old(self).spec_stats()
            }),
            final(self).spec_retained() == old(self).spec_retained(),
            final(self).spec_in_use() == old(self).spec_in_use(),
            final(self).spec_policy() == old(self).spec_policy(),
            final(self).wf() == old(self).wf(),
    {
        self.frame_epoch = self.frame_epoch.wrapping_add(1);
        self.stats.reset_frame_counters();
    }

    /// `checkout_with_capacity(0)`.
    pub fn checkout(&mut self) -> (r: Vec<T>)
        requires
            old(self).wf(),
            old(self).spec_in_use() < usize::MAX,
            old(self).spec_stats().has_room(),
        ensures
            final(self).wf(),
            r@ == Seq::<T>::empty(),
            final(self).spec_in_use() == old(self).spec_in_use() + 1,
            final(self).spec_retained() == if old(self).spec_retained() > 0 { old(self).spec_retained() - 1 } else { 0 },
            final(self).spec_policy() == old(self).spec_policy(),
            final(self).spec_epoch() == old(self).spec_epoch(),
            stats_after_checkout(old(self).spec_stats(), final(self).spec_stats(), final(self).spec_in_use(), old(self).spec_retained() == 0, 0),
    {
        self.checkout_with_capacity(0)
    }

    /// Hands out an empty buffer: the last idle buffer when there is one, a
    /// fresh allocation of `min_capacity` items otherwise. A reused buffer
    /// whose capacity is below `min_capacity` is reserved the shortfall past
    /// its empty length, which need not bring it to `min_capacity`.
    pub fn checkout_with_capacity(&mut self, min_capacity: usize) -> (r: Vec<T>)
        requires
            old(self).wf(),
            min_capacity * vstd::layout::size_of::<T>() <= isize::MAX,
            old(self).spec_in_use() < usize::MAX,
            old(self).spec_stats().has_room(),
        ensures
            final(self).wf(),
            r@ == Seq::<T>::empty(),
            final(self).spec_in_use() == old(self).spec_in_use() + 1,
            final(self).spec_retained() == if old(self).spec_retained() > 0 { old(self).spec_retained() - 1 } else { 0 },
            final(self).spec_policy() == old(self).spec_policy(),
            final(self).spec_epoch() == old(self).spec_epoch(),
            stats_after_checkout(old(self).spec_stats(), final(self).spec_stats(), final(self).spec_in_use(), old(self).spec_retained() == 0, min_capacity),
    {
        self.in_use = self.in_use + 1;
        self.stats.record_checkout(self.in_use);
        let fresh = self.available.len() == 0;
        let mut buffer = match self.available.pop() {
            Some(mut buffer) => {
                buffer.clear();
                buffer
            },
            None => {
                self.stats.record_allocation(min_capacity);
                Vec::with_capacity(min_capacity)
            },
        };
        let cap = vec_capacity(&buffer);
        if cap < min_capacity {
            buffer.reserve(min_capacity - cap);
            let grown = vec_capacity(&buffer);
            self.stats.record_growth(grown);
            assert(self.spec_stats() == checkout_stats(old(self).spec_stats(), self.spec_in_use(), old(self).spec_retained() == 0, min_capacity, true, grown));
        } else {
            assert(self.spec_stats() == checkout_stats(old(self).spec_stats(), self.spec_in_use(), old(self).spec_retained() == 0, min_capacity, false, 0));
        }
        buffer
    }

    /// `lease_with_capacity(0)`.
    pub fn lease(&mut self) -> (r: ScratchVecLease<T>)
        requires
            old(self).wf(),
            old(self).spec_in_use() < usize::MAX,
            old(self).spec_stats().has_room(),
        ensures
            final(self).wf(),
            r@ == Seq::<T>::empty(),
            final(self).spec_in_use() == old(self).spec_in_use() + 1,
            final(self).spec_retained() == if old(self).spec_retained() > 0 { old(self).spec_retained() - 1 } else { 0 },
            final(self).spec_policy() == old(self).spec_policy(),
            final(self).spec_epoch() == old(self).spec_epoch(),
            stats_after_checkout(old(self).spec_stats(), final(self).spec_stats(), final(self).spec_in_use(), old(self).spec_retained() == 0, 0),
    {
        self.lease_with_capacity(0)
    }

    /// A checked-out buffer wrapped in a lease; hand it back with
    /// [`ScratchVecLease::release`].
    pub fn lease_with_capacity(&mut self, min_capacity: usize) -> (r: ScratchVecLease<T>)
        requires
            old(self).wf(),
            min_capacity * vstd::layout::size_of::<T>() <= isize::MAX,
            old(self).spec_in_use() < usize::MAX,
            old(self).spec_stats().has_room(),
        ensures
            final(self).wf(),
            r@ == Seq::<T>::empty(),
            final(self).spec_in_use() == old(self).spec_in_use() + 1,
            final(self).spec_retained() == if old(self).spec_retained() > 0 { old(self).spec_retained() - 1 } else { 0 },
            final(self).spec_policy() == old(self).spec_policy(),
            final(self).spec_epoch() == old(self).spec_epoch(),
            stats_after_checkout(old(self).spec_stats(), final(self).spec_stats(), final(self).spec_in_use(), old(self).spec_retained() == 0, min_capacity),
    {
        ScratchVecLease { buffer: self.checkout_with_capacity(min_capacity) }
    }

    /// Takes a buffer back: it is cleared, and kept when the policy allows a
    /// buffer of its capacity at the next idle position; otherwise it is
    /// dropped and counted as trimmed.
    pub fn recycle(&mut self, buffer: Vec<T>)
        requires
            old(self).wf(),
            old(self).spec_stats().returns < u64::MAX,
            old(self).spec_stats().trims < u64::MAX,
        ensures
            final(self).wf(),
            final(self).spec_in_use() == if old(self).spec_in_use() > 0 { old(self).spec_in_use() - 1 } else { 0 },
            final(self).spec_policy() == old(self).spec_policy(),
            final(self).spec_epoch() == old(self).spec_epoch(),
            exists|c: usize|
                #[trigger] recycled(old(self).spec_policy(), old(self).spec_retained(), old(self).spec_stats(), buffer@.len(), c, final(self).spec_retained(), final(self).spec_stats()),
    {
        let mut buffer = buffer;
        let ghost len0 = buffer@.len();
        if self.in_use > 0 {
            self.in_use = self.in_use - 1;
        }
        let cap = vec_capacity(&buffer);
        buffer.clear();
        self.stats.record_return();
        let idle_index = self.available.len();
        if self.policy.should_keep(idle_index, cap) {
            self.available.push(buffer);
        } else {
            self.stats.record_trim(1);
        }
        assert(recycled(old(self).spec_policy(), old(self).spec_retained(), old(self).spec_stats(), len0, cap, self.spec_retained(), self.spec_stats()));
    }

    /// Drops idle buffers the policy no longer allows, walking them in order;
    /// returns how many were dropped.
    pub fn trim_idle(&mut self) -> (r: usize)
        requires
            old(self).wf(),
            old(self).spec_stats().trims + old(self).spec_retained() <= u64::MAX,
        ensures
            final(self).wf(),
            r == old(self).spec_retained() - final(self).spec_retained(),
            final(self).spec_retained() <= old(self).spec_retained(),
            final(self).spec_retained() >= min_u(old(self).spec_retained() as usize, old(self).spec_policy().min_buffers),
            final(self).spec_retained() <= max_u(old(self).spec_policy().min_buffers, old(self).spec_policy().max_idle_buffers),
            final(self).spec_stats() == (ScratchStats {
                trims: (old(self).spec_stats().trims + r) as u64,
                ..old(self).spec_stats()
            }),
            final(self).spec_in_use() == old(self).spec_in_use(),
            final(self).spec_policy() == old(self).spec_policy(),
            final(self).spec_epoch() == old(self).spec_epoch(),
    {
        let before = self.available.len();
        let policy = self.policy;
        let limit = if before < policy.max_idle_buffers { before } else { policy.max_idle_buffers };
        let mut kept: Vec<Vec<T>> = Vec::with_capacity(limit);
        let mut old_buffers: Vec<Vec<T>> = Vec::new();
        std::mem::swap(&mut old_buffers, &mut self.available);
        let ghost all = old_buffers@;
        let mut idx: usize = 0;
        while idx < before
            invariant
                idx <= before,
                before == all.len(),
                old_buffers@ == all.skip(idx as int),
                kept@.len() <= idx,
                kept@.len() >= min_u(idx, policy.min_buffers),
                kept@.len() <= max_u(policy.min_buffers, policy.max_idle_buffers),
                forall|i: int| 0 <= i < kept@.len() ==> (#[trigger] kept@[i])@.len() == 0,
            decreases before - idx,
        {
            let mut buffer = old_buffers.remove(0);
            buffer.clear();
            let idle_index = kept.len();
            let cap = vec_capacity(&buffer);
            if policy.should_keep(idle_index, cap) {
                kept.push(buffer);
            }
            idx = idx + 1;
        }
        self.available = kept;
        let trimmed = before - self.available.len();
        self.stats.record_trim(trimmed);
        trimmed
    }

    pub fn set_policy(&mut self, policy: ScratchPolicy)
        ensures
            final(self).spec_policy() == policy,
            final(self).wf() == old(self).wf(),
            final(self).spec_retained() == old(self).spec_retained(),
            final(self).spec_in_use() == old(self).spec_in_use(),
            final(self).spec_stats() == old(self).spec_stats(),
            final(self).spec_epoch() == old(self).spec_epoch(),
    {
        self.policy = policy;
        assert(self.available@ == old(self).available@);
    }

    pub fn policy(&self) -> (r: ScratchPolicy)
        ensures
            r == self.spec_policy(),
    {
        self.policy
    }

    pub fn retained_buffers(&self) -> (r: usize)
        ensures
            r == self.spec_retained(),
    {
        self.available.len()
    }

    pub fn in_use(&self) -> (r: usize)
        ensures
            r == self.spec_in_use(),
    {
        self.in_use
    }

    /// Sum of the idle buffers' capacities, capped at `usize::MAX`: one
    /// capacity per idle buffer, in order, summed with `sat_sum`.
    pub fn retained_capacity(&self) -> (r: usize)
        ensures
            exists|caps: Seq<usize>| caps.len() == self.spec_retained() && r == #[trigger] sat_sum(caps),
    {
        let mut total: usize = 0;
        let mut k: usize = 0;
        let ghost mut caps: Seq<usize> = Seq::empty();
        while k < self.available.len()
            invariant
                k <= self.available@.len(),
                caps.len() == k,
                total == sat_sum(caps),
            decreases self.available@.len() - k,
        {
            let c = vec_capacity(&self.available[k]);
            proof {
                assert(caps.push(c).drop_last() == caps);
            }
            total = total.saturating_add(c);
            proof {
                caps = caps.push(c);
            }
            k = k + 1;
        }
        total
    }

    /// Retained capacity times the item size, capped at `usize::MAX`.
    pub fn retained_bytes(&self) -> (r: usize)
        ensures
            exists|caps: Seq<usize>|
                caps.len() == self.spec_retained() && r == sat_mul(#[trigger] sat_sum(caps), vstd::layout::size_of::<T>()),
    {
        let cap = self.retained_capacity();
        let ghost caps = choose|caps: Seq<usize>| caps.len() == self.spec_retained() && cap == #[trigger] sat_sum(caps);
        let size = std::mem::size_of::<T>();
        if size != 0 && cap > usize::MAX / size {
            proof {
                assert(cap * size > usize::MAX) by (nonlinear_arith)
                    requires cap > usize::MAX / size, size > 0;
                assert(sat_mul(sat_sum(caps), vstd::layout::size_of::<T>()) == usize::MAX);
            }
            usize::MAX
        } else {
            proof {
                if size != 0 {
                    assert(cap * size <= (usize::MAX / size) * size) by (nonlinear_arith)
                        requires cap <= usize::MAX / size, size > 0;
                    assert((usize::MAX / size) * size <= usize::MAX) by (nonlinear_arith)
                        requires size > 0;
                }
                assert(sat_mul(sat_sum(caps), vstd::layout::size_of::<T>()) == cap * size);
            }
            cap * size
        }
    }

    pub fn frame_epoch(&self) -> (r: u64)
        ensures
            r == self.spec_epoch(),
    {
        self.frame_epoch
    }

    pub fn stats(&self) -> (r: ScratchStats)
        ensures
            r == self.spec_stats(),
    {
        self.stats
    }
}

impl<T> Default for ScratchVecPool<T> {
    fn default() -> (r: Self)
        ensures
            r.wf(),
            r.spec_retained() == 0,
            r.spec_in_use() == 0,
            r.spec_policy() == ScratchPolicy::frame_default_spec(),
            r.spec_stats() == ScratchStats::zero(),
            r.spec_epoch() == 0,
    {
        Self::new(ScratchPolicy::frame_default())
    }
}

/// A buffer checked out of a [`ScratchVecPool`]. It goes back to the pool
/// by [`ScratchVecLease::release`]; a lease dropped without it frees its
/// buffer and leaves the pool's in-use count as it was.
#[derive(Debug)]
pub struct ScratchVecLease<T> {
    buffer: Vec<T>,
}

impl<T> View for ScratchVecLease<T> {
    type V = Seq<T>;

    closed spec fn view(&self) -> Seq<T> {
        self.buffer@
    }
}

impl<T> ScratchVecLease<T> {
    pub fn capacity(&self) -> (r: usize)
        ensures
            r >= self@.len(),
    {
        vec_capacity(&self.buffer)
    }

    pub fn len(&self) -> (r: usize)
        ensures
            r == self@.len(),
    {
        self.buffer.len()
    }

    pub fn is_empty(&self) -> (r: bool)
        ensures
            r == (self@.len() == 0),
    {
        self.buffer.len() == 0
    }

    pub fn as_vec(&self) -> (r: &Vec<T>)
        ensures
            r@ == self@,
    {
        &self.buffer
    }

    pub fn as_vec_mut(&mut self) -> (r: &mut Vec<T>)
        ensures
            r@ == old(self)@,
            final(self)@ == final(r)@,
    {
        &mut self.buffer
    }

    pub fn push(&mut self, value: T)
        ensures
            final(self)@ == old(self)@.push(value),
    {
        self.buffer.push(value);
    }

    /// Keeps the buffer for good: the pool is not told.
    pub fn into_vec(self) -> (r: Vec<T>)
        ensures
            r@ == self@,
    {
        self.buffer
    }

    /// Ends the lease: the buffer goes back to `pool` as by `recycle`.
    pub fn release(self, pool: &mut ScratchVecPool<T>)
        requires
            old(pool).wf(),
            old(pool).spec_stats().returns < u64::MAX,
            old(pool).spec_stats().trims < u64::MAX,
        ensures
            final(pool).wf(),
            final(pool).spec_in_use() == if old(pool).spec_in_use() > 0 { old(pool).spec_in_use() - 1 } else { 0 },
            final(pool).spec_policy() == old(pool).spec_policy(),
            final(pool).spec_epoch() == old(pool).spec_epoch(),
            exists|c: usize|
                #[trigger] recycled(old(pool).spec_policy(), old(pool).spec_retained(), old(pool).spec_stats(), self@.len(), c, final(pool).spec_retained(), final(pool).spec_stats()),
    {
        let ghost len = self@.len();
        pool.recycle(self.buffer);
        proof {
            let c = choose|c: usize| recycled(old(pool).spec_policy(), old(pool).spec_retained(), old(pool).spec_stats(), len, c, pool.spec_retained(), pool.spec_stats());
            assert(recycled(old(pool).spec_policy(), old(pool).spec_retained(), old(pool).spec_stats(), self@.len(), c, pool.spec_retained(), pool.spec_stats()));
        }
    }
}


/// A pool of cleared strings handed out per frame.
#[derive(Debug)]
pub struct ScratchStringPool {
    available: Vec<String>,
    in_use: usize,
    policy: ScratchPolicy,
    stats: ScratchStats,
}

impl ScratchStringPool {
    pub closed spec fn spec_retained(&self) -> nat {
        self.available@.len()
    }

    pub closed spec fn spec_in_use(&self) -> usize {
        self.in_use
    }

    pub closed spec fn spec_policy(&self) -> ScratchPolicy {
        self.policy
    }

    pub closed spec fn spec_stats(&self) -> ScratchStats {
        self.stats
    }

    /// Every idle string is empty.
    pub closed spec fn wf(&self) -> bool {
        forall|i: int| 0 <= i < self.available@.len() ==> (#[trigger] self.available@[i])@.len() == 0
    }

    /// `self` is `before` after a trim under `before`'s policy: some idle
    /// strings dropped (never below the minimum, never above the larger of
    /// the minimum and the idle limit), each counted as a trim.
    pub open spec fn is_trim_of(&self, before: &Self) -> bool {
        &&& self.wf()
        &&& self.spec_retained() <= before.spec_retained()
        &&& self.spec_retained() >= min_u(before.spec_retained() as usize, before.spec_policy().min_buffers)
        &&& self.spec_retained() <= max_u(before.spec_policy().min_buffers, before.spec_policy().max_idle_buffers)
        &&& self.spec_stats() == (ScratchStats {
            trims: (before.spec_stats().trims + (before.spec_retained() - self.spec_retained())) as u64,
            ..before.spec_stats()
        })
        &&& self.spec_in_use() == before.spec_in_use()
        &&& self.spec_policy() == before.spec_policy()
    }

    pub fn new(policy: ScratchPolicy) -> (r: Self)
        ensures
            r.wf(),
            r.spec_retained() == 0,
            r.spec_in_use() == 0,
            r.spec_policy() == policy,
            r.spec_stats() == ScratchStats::zero(),
    {
        ScratchStringPool { available: Vec::new(), in_use: 0, policy, stats: ScratchStats::default() }
    }

    /// A pool that starts with `buffers` idle strings.
    pub fn with_preallocated(buffers: usize, capacity: usize, policy: ScratchPolicy) -> (r: Self)
        requires
            capacity <= isize::MAX,
        ensures
            r.wf(),
            r.spec_retained() == buffers,
            r.spec_in_use() == 0,
            r.spec_policy() == policy,
            r.spec_stats() == (ScratchStats {
                high_water_capacity: r.spec_stats().high_water_capacity,
                ..ScratchStats::zero()
            }),
    {
        let mut pool = Self::new(policy);
        pool.preallocate(buffers, capacity);
        pool
    }

    /// Adds `buffers` idle strings of at least `capacity` bytes; the
    /// high-water capacity is raised to the retained total.
    pub fn preallocate(&mut self, buffers: usize, capacity: usize)
        requires
            old(self).wf(),
            capacity <= isize::MAX,
        ensures
            final(self).wf(),
            final(self).spec_retained() == old(self).spec_retained() + buffers,
            final(self).spec_in_use() == old(self).spec_in_use(),
            final(self).spec_policy() == old(self).spec_policy(),
            final(self).spec_stats() == (ScratchStats {
                high_water_capacity: final(self).spec_stats().high_water_capacity,
                ..old(self).spec_stats()
            }),
            final(self).spec_stats().high_water_capacity >= old(self).spec_stats().high_water_capacity,
    {
        let mut k: usize = 0;
        while k < buffers
            invariant
                k <= buffers,
                self.available@.len() == old(self).available@.len() + k,
                self.in_use == old(self).in_use,
                self.policy == old(self).policy,
                self.stats == old(self).stats,
                self.wf(),
                capacity <= isize::MAX,
            decreases buffers - k,
        {
            self.available.push(string_with_capacity(capacity));
            k = k + 1;
        }
        let retained = self.retained_capacity();
        if retained > self.stats.high_water_capacity {
            self.stats.high_water_capacity = retained;
        }
    }

    /// Starts a frame: the per-frame counters reset.
    pub fn begin_frame(&mut self)
        ensures
            final(self).spec_stats() == (ScratchStats {
                checkouts: 0,
                returns: 0,
                allocations: 0,
                capacity_grows: 0,
                trims: 0,
                ..old(self).spec_stats()
            }),
            final(self).spec_retained() == old(self).spec_retained(),
            final(self).spec_in_use() == old(self).spec_in_use(),
            final(self).spec_policy() == old(self).spec_policy(),
            final(self).wf() == old(self).wf(),
    {
        self.stats.reset_frame_counters();
    }

    /// `checkout_with_capacity(0)`.
    pub fn checkout(&mut self) -> (r: String)
        requires
            old(self).wf(),
            old(self).spec_in_use() < usize::MAX,
            old(self).spec_stats().has_room(),
        ensures
            final(self).wf(),
            r@ == Seq::<char>::empty(),
            final(self).spec_in_use() == old(self).spec_in_use() + 1,
            final(self).spec_retained() == if old(self).spec_retained() > 0 { old(self).spec_retained() - 1 } else { 0 },
            final(self).spec_policy() == old(self).spec_policy(),
            stats_after_checkout(old(self).spec_stats(), final(self).spec_stats(), final(self).spec_in_use(), old(self).spec_retained() == 0, 0),
    {
        self.checkout_with_capacity(0)
    }

    /// Hands out an empty string of at least `min_capacity` bytes when it is
    /// freshly allocated; a reused one is reserved the shortfall.
    pub fn checkout_with_capacity(&mut self, min_capacity: usize) -> (r: String)
        requires
            old(self).wf(),
            old(self).spec_in_use() < usize::MAX,
            old(self).spec_stats().has_room(),
            min_capacity <= isize::MAX,
        ensures
            final(self).wf(),
            r@ == Seq::<char>::empty(),
            final(self).spec_in_use() == old(self).spec_in_use() + 1,
            final(self).spec_retained() == if old(self).spec_retained() > 0 { old(self).spec_retained() - 1 } else { 0 },
            final(self).spec_policy() == old(self).spec_policy(),
            stats_after_checkout(old(self).spec_stats(), final(self).spec_stats(), final(self).spec_in_use(), old(self).spec_retained() == 0, min_capacity),
    {
        self.in_use = self.in_use + 1;
        self.stats.record_checkout(self.in_use);
        let mut buffer = match self.available.pop() {
            Some(mut buffer) => {
                string_clear(&mut buffer);
                buffer
            },
            None => {
                self.stats.record_allocation(min_capacity);
                string_with_capacity(min_capacity)
            },
        };
        let cap = string_capacity(&buffer);
        if cap < min_capacity {
            assert(vstd::utf8::encode_utf8(buffer@).len() == 0) by {
                assert(buffer@ =~= Seq::<char>::empty());
            }
            string_reserve(&mut buffer, min_capacity - cap);
            let grown = string_capacity(&buffer);
            self.stats.record_growth(grown);
            assert(self.spec_stats() == checkout_stats(old(self).spec_stats(), self.spec_in_use(), old(self).spec_retained() == 0, min_capacity, true, grown));
        } else {
            assert(self.spec_stats() == checkout_stats(old(self).spec_stats(), self.spec_in_use(), old(self).spec_retained() == 0, min_capacity, false, 0));
        }
        buffer
    }

    /// `lease_with_capacity(0)`.
    pub fn lease(&mut self) -> (r: ScratchStringLease)
        requires
            old(self).wf(),
            old(self).spec_in_use() < usize::MAX,
            old(self).spec_stats().has_room(),
        ensures
            final(self).wf(),
            r@ == Seq::<char>::empty(),
            final(self).spec_in_use() == old(self).spec_in_use() + 1,
            final(self).spec_retained() == if old(self).spec_retained() > 0 { old(self).spec_retained() - 1 } else { 0 },
            final(self).spec_policy() == old(self).spec_policy(),
            stats_after_checkout(old(self).spec_stats(), final(self).spec_stats(), final(self).spec_in_use(), old(self).spec_retained() == 0, 0),
    {
        self.lease_with_capacity(0)
    }

    /// A checked-out string wrapped in a lease; hand it back with
    /// [`ScratchStringLease::release`].
    pub fn lease_with_capacity(&mut self, min_capacity: usize) -> (r: ScratchStringLease)
        requires
            old(self).wf(),
            old(self).spec_in_use() < usize::MAX,
            old(self).spec_stats().has_room(),
            min_capacity <= isize::MAX,
        ensures
            final(self).wf(),
            r@ == Seq::<char>::empty(),
            final(self).spec_in_use() == old(self).spec_in_use() + 1,
            final(self).spec_retained() == if old(self).spec_retained() > 0 { old(self).spec_retained() - 1 } else { 0 },
            final(self).spec_policy() == old(self).spec_policy(),
            stats_after_checkout(old(self).spec_stats(), final(self).spec_stats(), final(self).spec_in_use(), old(self).spec_retained() == 0, min_capacity),
    {
        ScratchStringLease { buffer: self.checkout_with_capacity(min_capacity) }
    }

    /// Takes a string back: it is cleared, and kept when the policy allows a
    /// buffer of its capacity at the next idle position; otherwise it is
    /// dropped and counted as trimmed.
    pub fn recycle(&mut self, buffer: String)
        requires
            old(self).wf(),
            old(self).spec_stats().returns < u64::MAX,
            old(self).spec_stats().trims < u64::MAX,
        ensures
            final(self).wf(),
            final(self).spec_in_use() == if old(self).spec_in_use() > 0 { old(self).spec_in_use() - 1 } else { 0 },
            final(self).spec_policy() == old(self).spec_policy(),
            exists|c: usize|
                #[trigger] recycled(old(self).spec_policy(), old(self).spec_retained(), old(self).spec_stats(), 0, c, final(self).spec_retained(), final(self).spec_stats()),
    {
        let mut buffer = buffer;
        if self.in_use > 0 {
            self.in_use = self.in_use - 1;
        }
        string_clear(&mut buffer);
        self.stats.record_return();
        let idle_index = self.available.len();
        let cap = string_capacity(&buffer);
        if self.policy.should_keep(idle_index, cap) {
            self.available.push(buffer);
        } else {
            self.stats.record_trim(1);
        }
        assert(recycled(old(self).spec_policy(), old(self).spec_retained(), old(self).spec_stats(), 0, cap, self.spec_retained(), self.spec_stats()));
    }

    /// Drops idle strings the policy no longer allows, walking them in order;
    /// returns how many were dropped.
    pub fn trim_idle(&mut self) -> (r: usize)
        requires
            old(self).wf(),
            old(self).spec_stats().trims + old(self).spec_retained() <= u64::MAX,
        ensures
            final(self).wf(),
            r == old(self).spec_retained() - final(self).spec_retained(),
            final(self).spec_retained() <= old(self).spec_retained(),
            final(self).spec_retained() >= min_u(old(self).spec_retained() as usize, old(self).spec_policy().min_buffers),
            final(self).spec_retained() <= max_u(old(self).spec_policy().min_buffers, old(self).spec_policy().max_idle_buffers),
            final(self).spec_stats() == (ScratchStats {
                trims: (old(self).spec_stats().trims + r) as u64,
                ..old(self).spec_stats()
            }),
            final(self).spec_in_use() == old(self).spec_in_use(),
            final(self).spec_policy() == old(self).spec_policy(),
    {
        let before = self.available.len();
        let policy = self.policy;
        let limit = if before < policy.max_idle_buffers { before } else { policy.max_idle_buffers };
        let mut kept: Vec<String> = Vec::with_capacity(limit);
        let mut old_buffers: Vec<String> = Vec::new();
        std::mem::swap(&mut old_buffers, &mut self.available);
        let ghost all = old_buffers@;
        let mut idx: usize = 0;
        while idx < before
            invariant
                idx <= before,
                before == all.len(),
                old_buffers@ == all.skip(idx as int),
                kept@.len() <= idx,
                kept@.len() >= min_u(idx, policy.min_buffers),
                kept@.len() <= max_u(policy.min_buffers, policy.max_idle_buffers),
                forall|i: int| 0 <= i < kept@.len() ==> (#[trigger] kept@[i])@.len() == 0,
            decreases before - idx,
        {
            let mut buffer = old_buffers.remove(0);
            string_clear(&mut buffer);
            let idle_index = kept.len();
            let cap = string_capacity(&buffer);
            if policy.should_keep(idle_index, cap) {
                kept.push(buffer);
            }
            idx = idx + 1;
        }
        self.available = kept;
        let trimmed = before - self.available.len();
        self.stats.record_trim(trimmed);
        trimmed
    }

    pub fn retained_buffers(&self) -> (r: usize)
        ensures
            r == self.spec_retained(),
    {
        self.available.len()
    }

    pub fn in_use(&self) -> (r: usize)
        ensures
            r == self.spec_in_use(),
    {
        self.in_use
    }

    /// Sum of the idle strings' capacities, capped at `usize::MAX`: one
    /// capacity per idle string, in order, summed with `sat_sum`.
    pub fn retained_capacity(&self) -> (r: usize)
        ensures
            exists|caps: Seq<usize>| caps.len() == self.spec_retained() && r == #[trigger] sat_sum(caps),
    {
        let mut total: usize = 0;
        let mut k: usize = 0;
        let ghost mut caps: Seq<usize> = Seq::empty();
        while k < self.available.len()
            invariant
                k <= self.available@.len(),
                caps.len() == k,
                total == sat_sum(caps),
            decreases self.available@.len() - k,
        {
            let c = string_capacity(&self.available[k]);
            proof {
                assert(caps.push(c).drop_last() == caps);
            }
            total = total.saturating_add(c);
            proof {
                caps = caps.push(c);
            }
            k = k + 1;
        }
        total
    }

    pub fn stats(&self) -> (r: ScratchStats)
        ensures
            r == self.spec_stats(),
    {
        self.stats
    }
}

impl Default for ScratchStringPool {
    fn default() -> (r: Self)
        ensures
            r.wf(),
            r.spec_retained() == 0,
            r.spec_in_use() == 0,
            r.spec_policy() == ScratchPolicy::text_default_spec(),
            r.spec_stats() == ScratchStats::zero(),
    {
        Self::new(ScratchPolicy::text_default())
    }
}

/// A string checked out of a [`ScratchStringPool`]. It goes back to the
/// pool by [`ScratchStringLease::release`]; a lease dropped without it frees
/// its string and leaves the pool's in-use count as it was.
#[derive(Debug)]
pub struct ScratchStringLease {
    buffer: String,
}

impl View for ScratchStringLease {
    type V = Seq<char>;

    closed spec fn view(&self) -> Seq<char> {
        self.buffer@
    }
}

impl ScratchStringLease {
    pub fn capacity(&self) -> (r: usize)
        ensures
            r >= crate::reuse::utf8_len(self@),
    {
        string_capacity(&self.buffer)
    }

    /// Length in bytes.
    pub fn len(&self) -> (r: usize)
        ensures
            r == crate::reuse::utf8_len(self@) as usize,
    {
        self.buffer.as_str().len()
    }

    pub fn is_empty(&self) -> (r: bool)
        ensures
            r == (self@.len() == 0),
    {
        self.buffer.as_str().is_empty()
    }

    pub fn as_str(&self) -> (r: &str)
        ensures
            r@ == self@,
    {
        self.buffer.as_str()
    }

    pub fn push_str(&mut self, value: &str)
        ensures
            final(self)@ == old(self)@ + value@,
    {
        self.buffer.append(value);
    }

    /// Keeps the string for good: the pool is not told.
    pub fn into_string(self) -> (r: String)
        ensures
            r@ == self@,
    {
        self.buffer
    }

    /// Ends the lease: the string goes back to `pool` as by `recycle`.
    pub fn release(self, pool: &mut ScratchStringPool)
        requires
            old(pool).wf(),
            old(pool).spec_stats().returns < u64::MAX,
            old(pool).spec_stats().trims < u64::MAX,
        ensures
            final(pool).wf(),
            final(pool).spec_in_use() == if old(pool).spec_in_use() > 0 { old(pool).spec_in_use() - 1 } else { 0 },
            final(pool).spec_policy() == old(pool).spec_policy(),
            exists|c: usize|
                #[trigger] recycled(old(pool).spec_policy(), old(pool).spec_retained(), old(pool).spec_stats(), 0, c, final(pool).spec_retained(), final(pool).spec_stats()),
    {
        pool.recycle(self.buffer);
    }
}


/// The stats of a [`FrameQueue`] after a push onto `len` items, with the
/// capacity `cap_before` seen before and `cap_after` seen after the push.
pub open spec fn queue_push_stats(before: ScratchStats, len: nat, cap_before: usize, cap_after: usize) -> ScratchStats {
    let grown = if len == cap_before {
        ScratchStats {
            capacity_grows: (before.capacity_grows + 1) as u64,
            high_water_capacity: max_u(before.high_water_capacity, sat_add(cap_before, 1)),
            ..before
        }
    } else {
        before
    };
    let hw = max_u(grown.high_water_buffers, (len + 1) as usize);
    ScratchStats {
        checkouts: (grown.checkouts + 1) as u64,
        high_water_buffers: max_u(grown.high_water_buffers, hw),
        high_water_capacity: max_u(grown.high_water_capacity, cap_after),
        ..grown
    }
}

/// The stats of a [`FrameQueue`] after a shrink under `policy` that saw
/// capacity `c`: one trim when `c` exceeds the idle capacity.
pub open spec fn queue_trim_stats(before: ScratchStats, c: usize, policy: ScratchPolicy) -> ScratchStats {
    if c > policy.max_idle_capacity {
        ScratchStats { trims: (before.trims + 1) as u64, ..before }
    } else {
        before
    }
}

/// A first-in first-out queue kept between frames.
#[derive(Debug)]
pub struct FrameQueue<T> {
    items: VecDeque<T>,
    stats: ScratchStats,
}

impl<T> View for FrameQueue<T> {
    type V = Seq<T>;

    closed spec fn view(&self) -> Seq<T> {
        self.items@
    }
}

impl<T> FrameQueue<T> {
    pub closed spec fn spec_stats(&self) -> ScratchStats {
        self.stats
    }

    pub fn new() -> (r: Self)
        ensures
            r@ == Seq::<T>::empty(),
            r.spec_stats() == ScratchStats::zero(),
    {
        FrameQueue { items: VecDeque::new(), stats: ScratchStats::default() }
    }

    pub fn with_capacity(capacity: usize) -> (r: Self)
        requires
            capacity * vstd::layout::size_of::<T>() <= isize::MAX,
        ensures
            r@ == Seq::<T>::empty(),
            r.spec_stats() == ScratchStats::zero(),
    {
        FrameQueue { items: VecDeque::with_capacity(capacity), stats: ScratchStats::default() }
    }

    /// Empties the queue and zeroes the per-frame counters.
    pub fn begin_frame(&mut self)
        ensures
            final(self)@ == Seq::<T>::empty(),
            final(self).spec_stats() == (ScratchStats {
                checkouts: 0,
                returns: 0,
                allocations: 0,
                capacity_grows: 0,
                trims: 0,
                ..old(self).spec_stats()
            }),
    {
        self.clear_reuse();
        self.stats.reset_frame_counters();
    }

    /// Makes room for `additional` more items; a growth is counted when the
    /// capacity went up.
    pub fn reserve(&mut self, additional: usize)
        requires
            old(self).spec_stats().capacity_grows < u64::MAX,
            old(self)@.len() + additional <= usize::MAX,
            (old(self)@.len() + additional) * vstd::layout::size_of::<T>() <= isize::MAX,
        ensures
            final(self)@ == old(self)@,
            final(self).spec_stats() == old(self).spec_stats() || exists|c: usize|
                #[trigger] max_u(old(self).spec_stats().high_water_capacity, c) == final(self).spec_stats().high_water_capacity
                && final(self).spec_stats() == (ScratchStats {
                    capacity_grows: (old(self).spec_stats().capacity_grows + 1) as u64,
                    high_water_capacity: max_u(old(self).spec_stats().high_water_capacity, c),
                    ..old(self).spec_stats()
                }),
    {
        let before = deque_capacity(&self.items);
        self.items.reserve(additional);
        let after = deque_capacity(&self.items);
        if after > before {
            self.stats.record_growth(after);
        }
    }

    /// Appends `item` at the back.
    pub fn push(&mut self, item: T)
        requires
            old(self).spec_stats().checkouts < u64::MAX,
            old(self).spec_stats().capacity_grows < u64::MAX,
        ensures
            final(self)@ == old(self)@.push(item),
            exists|cb: usize, ca: usize|
                cb >= old(self)@.len() && ca >= old(self)@.len() + 1 && final(self).spec_stats()
                    == #[trigger] queue_push_stats(old(self).spec_stats(), old(self)@.len(), cb, ca),
    {
        let cb = deque_capacity(&self.items);
        if self.items.len() == cb {
            self.stats.record_growth(cb.saturating_add(1));
        }
        self.items.push_back(item);
        let len = self.items.len();
        let hw = if self.stats.high_water_buffers > len { self.stats.high_water_buffers } else { len };
        self.stats.record_checkout(hw);
        let ca = deque_capacity(&self.items);
        if ca > self.stats.high_water_capacity {
            self.stats.high_water_capacity = ca;
        }
        assert(self.spec_stats() == queue_push_stats(old(self).spec_stats(), old(self)@.len(), cb, ca));
    }

    /// Takes the item at the front.
    pub fn pop(&mut self) -> (r: Option<T>)
        ensures
            old(self)@.len() == 0 ==> r is None && final(self)@ == old(self)@,
            old(self)@.len() > 0 ==> r == Some(old(self)@[0]) && final(self)@ == old(self)@.drop_first(),
            final(self).spec_stats() == old(self).spec_stats(),
    {
        let r = self.items.pop_front();
        proof {
            if old(self)@.len() > 0 {
                assert(self@ =~= old(self)@.drop_first());
            }
        }
        r
    }

    /// Takes every item, front first.
    pub fn drain(&mut self) -> (r: Vec<T>)
        ensures
            r@ == old(self)@,
            final(self)@ == Seq::<T>::empty(),
            final(self).spec_stats() == old(self).spec_stats(),
    {
        let mut out: Vec<T> = Vec::new();
        while self.items.len() > 0
            invariant
                out@ + self.items@ == old(self)@,
                self.stats == old(self).stats,
            decreases self.items@.len(),
        {
            let ghost before = self.items@;
            let item = self.items.pop_front();
            match item {
                Some(x) => {
                    out.push(x);
                    assert(out@ + self.items@ =~= old(self)@) by {
                        assert(before == seq![x] + self.items@);
                    }
                },
                None => {},
            }
        }
        assert(out@ =~= old(self)@);
        out
    }

    /// Empties the queue; the allocation stays.
    pub fn clear_reuse(&mut self)
        ensures
            final(self)@ == Seq::<T>::empty(),
            final(self).spec_stats() == old(self).spec_stats(),
    {
        self.items.clear();
    }

    /// Shrinks the allocation towards the policy's idle capacity (never
    /// below the length) when it is larger, counting one trim. The capacity
    /// it compares is the allocator's, at least the length: a queue holding
    /// more items than the idle capacity is always trimmed.
    pub fn shrink_to_policy(&mut self, policy: ScratchPolicy)
        requires
            old(self).spec_stats().trims < u64::MAX,
        ensures
            final(self)@ == old(self)@,
            exists|c: usize| c >= old(self)@.len() && final(self).spec_stats() == #[trigger] queue_trim_stats(old(self).spec_stats(), c, policy),
            old(self)@.len() > policy.max_idle_capacity ==> final(self).spec_stats() == (ScratchStats {
                trims: (old(self).spec_stats().trims + 1) as u64,
                ..old(self).spec_stats()
            }),
    {
        let cap = deque_capacity(&self.items);
        assert(self.spec_stats() == old(self).spec_stats());
        if cap > policy.max_idle_capacity {
            let len = self.items.len();
            let target = if policy.max_idle_capacity > len { policy.max_idle_capacity } else { len };
            deque_shrink_to(&mut self.items, target);
            self.stats.record_trim(1);
        }
        assert(self.spec_stats() == queue_trim_stats(old(self).spec_stats(), cap, policy));
    }

    pub fn len(&self) -> (r: usize)
        ensures
            r == self@.len(),
    {
        self.items.len()
    }

    pub fn is_empty(&self) -> (r: bool)
        ensures
            r == (self@.len() == 0),
    {
        self.items.len() == 0
    }

    /// The allocation's capacity, never below the length.
    pub fn capacity(&self) -> (r: usize)
        ensures
            r >= self@.len(),
    {
        deque_capacity(&self.items)
    }

    pub fn stats(&self) -> (r: ScratchStats)
        ensures
            r == self.spec_stats(),
    {
        self.stats
    }
}

impl<T> Default for FrameQueue<T> {
    fn default() -> (r: Self)
        ensures
            r@ == Seq::<T>::empty(),
            r.spec_stats() == ScratchStats::zero(),
    {
        Self::new()
    }
}

/// A [`FrameQueue`] is first in, first out: after pushing `x` and then `y`
/// onto a queue holding `items`, draining gives `items`, then `x`, then
/// `y`, and popping from an empty queue gives `x` first and `y` next.
pub proof fn lemma_queue_is_fifo<T>(items: Seq<T>, x: T, y: T)
    ensures
        items.push(x).push(y) == items + seq![x, y],
        items.len() == 0 ==> items.push(x).push(y)[0] == x && items.push(x).push(y).drop_first()[0] == y,
{
    assert(items.push(x).push(y) =~= items + seq![x, y]);
}

/// The counters of every pool of a [`FrameScratch`].
#[derive(Debug, Clone, Copy, PartialEq, Eq, Structural)]
pub struct FrameScratchStats {
    pub widget_indices: ScratchStats,
    pub dirty_widgets: ScratchStats,
    pub text_spans: ScratchStats,
    pub strings: ScratchStats,
    pub events: ScratchStats,
}

impl Default for FrameScratchStats {
    fn default() -> (r: Self)
        ensures
            r.widget_indices == ScratchStats::zero() && r.dirty_widgets == ScratchStats::zero()
                && r.text_spans == ScratchStats::zero() && r.strings == ScratchStats::zero()
                && r.events == ScratchStats::zero(),
    {
        FrameScratchStats {
            widget_indices: ScratchStats::default(),
            dirty_widgets: ScratchStats::default(),
            text_spans: ScratchStats::default(),
            strings: ScratchStats::default(),
            events: ScratchStats::default(),
        }
    }
}

impl FrameScratchStats {
    /// Some pool allocated or grew this frame.
    pub fn had_growth(self) -> (r: bool)
        ensures
            r == (self.widget_indices.allocations != 0 || self.widget_indices.capacity_grows != 0
                || self.dirty_widgets.allocations != 0 || self.dirty_widgets.capacity_grows != 0
                || self.text_spans.allocations != 0 || self.text_spans.capacity_grows != 0
                || self.strings.allocations != 0 || self.strings.capacity_grows != 0
                || self.events.allocations != 0 || self.events.capacity_grows != 0),
    {
        self.widget_indices.has_frame_growth() || self.dirty_widgets.has_frame_growth()
            || self.text_spans.has_frame_growth() || self.strings.has_frame_growth()
            || self.events.has_frame_growth()
    }

    pub open spec fn allocations_sum(self) -> int {
        self.widget_indices.allocations + self.dirty_widgets.allocations + self.text_spans.allocations
            + self.strings.allocations + self.events.allocations
    }

    pub open spec fn grows_sum(self) -> int {
        self.widget_indices.capacity_grows + self.dirty_widgets.capacity_grows
            + self.text_spans.capacity_grows + self.strings.capacity_grows
            + self.events.capacity_grows
    }

    pub fn total_allocations(self) -> (r: u64)
        requires
            self.allocations_sum() <= u64::MAX,
        ensures
            r == self.allocations_sum(),
    {
        self.widget_indices.allocations + self.dirty_widgets.allocations
            + self.text_spans.allocations + self.strings.allocations + self.events.allocations
    }

    pub fn total_capacity_grows(self) -> (r: u64)
        requires
            self.grows_sum() <= u64::MAX,
        ensures
            r == self.grows_sum(),
    {
        self.widget_indices.capacity_grows + self.dirty_widgets.capacity_grows
            + self.text_spans.capacity_grows + self.strings.capacity_grows
            + self.events.capacity_grows
    }
}


/// The scratch storage of one frame loop: pools for widget indices, dirty
/// widgets, text spans and strings, and an event queue.
#[derive(Debug)]
pub struct FrameScratch {
    widget_indices: ScratchVecPool<usize>,
    dirty_widgets: ScratchVecPool<usize>,
    text_spans: ScratchVecPool<TextScratchSpan>,
    strings: ScratchStringPool,
    events: FrameQueue<usize>,
    policy: ScratchPolicy,
}

impl FrameScratch {
    /// Every pool holds only empty idle buffers.
    pub closed spec fn wf(&self) -> bool {
        &&& self.widget_indices.wf()
        &&& self.dirty_widgets.wf()
        &&& self.text_spans.wf()
        &&& self.strings.wf()
    }

    pub closed spec fn spec_policy(&self) -> ScratchPolicy {
        self.policy
    }

    pub closed spec fn spec_widget_indices(&self) -> ScratchVecPool<usize> {
        self.widget_indices
    }

    pub closed spec fn spec_dirty_widgets(&self) -> ScratchVecPool<usize> {
        self.dirty_widgets
    }

    pub closed spec fn spec_text_spans(&self) -> ScratchVecPool<TextScratchSpan> {
        self.text_spans
    }

    pub closed spec fn spec_strings(&self) -> ScratchStringPool {
        self.strings
    }

    pub closed spec fn spec_events(&self) -> FrameQueue<usize> {
        self.events
    }

    /// The per-pool policies derived from `policy`: strings get half the idle
    /// capacity.
    pub open spec fn text_policy_for(policy: ScratchPolicy) -> ScratchPolicy {
        ScratchPolicy { max_idle_capacity: policy.max_idle_capacity / 2, ..policy }
    }

    /// Scratch storage with the frame default policy.
    pub fn new() -> (r: Self)
        ensures
            r.wf(),
            r.spec_policy() == ScratchPolicy::frame_default_spec(),
            r.spec_widget_indices().spec_retained() == 2,
            r.spec_dirty_widgets().spec_retained() == 2,
            r.spec_text_spans().spec_retained() == 2,
            r.spec_strings().spec_retained() == 2,
            r.spec_events()@ == Seq::<usize>::empty(),
            r.no_allocations_yet(),
    {
        Self::with_policy(ScratchPolicy::frame_default())
    }

    /// No pool has counted an allocation, a growth, a checkout, a return or
    /// a trim: what a freshly built scratch reports. Only the high-water
    /// marks of the preallocated buffers are set.
    pub open spec fn no_allocations_yet(&self) -> bool {
        &&& self.spec_events().spec_stats() == ScratchStats::zero()
        &&& self.spec_widget_indices().spec_stats() == (ScratchStats {
            high_water_capacity: self.spec_widget_indices().spec_stats().high_water_capacity,
            ..ScratchStats::zero()
        })
        &&& self.spec_dirty_widgets().spec_stats() == (ScratchStats {
            high_water_capacity: self.spec_dirty_widgets().spec_stats().high_water_capacity,
            ..ScratchStats::zero()
        })
        &&& self.spec_text_spans().spec_stats() == (ScratchStats {
            high_water_capacity: self.spec_text_spans().spec_stats().high_water_capacity,
            ..ScratchStats::zero()
        })
        &&& self.spec_strings().spec_stats() == (ScratchStats {
            high_water_capacity: self.spec_strings().spec_stats().high_water_capacity,
            ..ScratchStats::zero()
        })
    }

    /// Each pool starts with `policy.min_buffers` idle buffers (64 indices,
    /// 64 dirty slots, 32 spans, 128-byte strings); the event queue starts
    /// empty.
    pub fn with_policy(policy: ScratchPolicy) -> (r: Self)
        ensures
            r.wf(),
            r.spec_policy() == policy,
            r.spec_widget_indices().spec_policy() == policy,
            r.spec_dirty_widgets().spec_policy() == policy,
            r.spec_text_spans().spec_policy() == policy,
            r.spec_strings().spec_policy() == Self::text_policy_for(policy),
            r.spec_widget_indices().spec_retained() == policy.min_buffers,
            r.spec_dirty_widgets().spec_retained() == policy.min_buffers,
            r.spec_text_spans().spec_retained() == policy.min_buffers,
            r.spec_strings().spec_retained() == policy.min_buffers,
            r.spec_widget_indices().spec_in_use() == 0,
            r.spec_dirty_widgets().spec_in_use() == 0,
            r.spec_text_spans().spec_in_use() == 0,
            r.spec_strings().spec_in_use() == 0,
            r.spec_events()@ == Seq::<usize>::empty(),
            r.no_allocations_yet(),
    {
        let text_policy = ScratchPolicy {
            min_buffers: policy.min_buffers,
            max_idle_buffers: policy.max_idle_buffers,
            max_idle_capacity: policy.max_idle_capacity / 2,
        };
        proof {
            broadcast use vstd::layout::layout_of_primitives;
            assert(vstd::layout::size_of::<usize>() <= 8);
        }
        let span_capacity: usize = if fits_in_allocation::<TextScratchSpan>(32) { 32 } else { 0 };
        FrameScratch {
            widget_indices: ScratchVecPool::with_preallocated(policy.min_buffers, 64, policy),
            dirty_widgets: ScratchVecPool::with_preallocated(policy.min_buffers, 64, policy),
            text_spans: ScratchVecPool::with_preallocated(policy.min_buffers, span_capacity, policy),
            strings: ScratchStringPool::with_preallocated(policy.min_buffers, 128, text_policy),
            events: FrameQueue::with_capacity(64),
            policy,
        }
    }

    /// Starts a frame in every pool and empties the event queue.
    pub fn begin_frame(&mut self)
        ensures
            final(self).wf() == old(self).wf(),
            final(self).spec_policy() == old(self).spec_policy(),
            final(self).spec_events()@ == Seq::<usize>::empty(),
            final(self).spec_widget_indices().spec_retained() == old(self).spec_widget_indices().spec_retained(),
            final(self).spec_dirty_widgets().spec_retained() == old(self).spec_dirty_widgets().spec_retained(),
            final(self).spec_text_spans().spec_retained() == old(self).spec_text_spans().spec_retained(),
            final(self).spec_strings().spec_retained() == old(self).spec_strings().spec_retained(),
            final(self).spec_widget_indices().spec_stats().allocations == 0,
            final(self).spec_dirty_widgets().spec_stats().allocations == 0,
            final(self).spec_text_spans().spec_stats().allocations == 0,
            final(self).spec_strings().spec_stats().allocations == 0,
            final(self).spec_events().spec_stats().allocations == 0,
    {
        self.widget_indices.begin_frame();
        self.dirty_widgets.begin_frame();
        self.text_spans.begin_frame();
        self.strings.begin_frame();
        self.events.begin_frame();
    }

    /// A lease on a widget-index buffer; return it with
    /// [`FrameScratch::return_widget_indices`].
    pub fn widget_indices(&mut self, min_capacity: usize) -> (r: ScratchVecLease<usize>)
        requires
            old(self).wf(),
            min_capacity * vstd::layout::size_of::<usize>() <= isize::MAX,
            old(self).spec_widget_indices().spec_in_use() < usize::MAX,
            old(self).spec_widget_indices().spec_stats().has_room(),
        ensures
            final(self).wf(),
            r@ == Seq::<usize>::empty(),
            final(self).spec_widget_indices().spec_in_use() == old(self).spec_widget_indices().spec_in_use() + 1,
            final(self).spec_widget_indices().spec_retained() == if old(self).spec_widget_indices().spec_retained() > 0 { old(self).spec_widget_indices().spec_retained() - 1 } else { 0 },
            final(self).spec_dirty_widgets() == old(self).spec_dirty_widgets(),
            final(self).spec_text_spans() == old(self).spec_text_spans(),
            final(self).spec_strings() == old(self).spec_strings(),
            final(self).spec_policy() == old(self).spec_policy(),
    {
        self.widget_indices.lease_with_capacity(min_capacity)
    }

    /// Hands a widget-index lease back to its pool.
    pub fn return_widget_indices(&mut self, lease: ScratchVecLease<usize>)
        requires
            old(self).wf(),
            old(self).spec_widget_indices().spec_stats().returns < u64::MAX,
            old(self).spec_widget_indices().spec_stats().trims < u64::MAX,
        ensures
            final(self).wf(),
            final(self).spec_widget_indices().spec_in_use() == if old(self).spec_widget_indices().spec_in_use() > 0 { old(self).spec_widget_indices().spec_in_use() - 1 } else { 0 },
            final(self).spec_widget_indices().spec_retained() <= old(self).spec_widget_indices().spec_retained() + 1,
            old(self).spec_widget_indices().spec_retained() < old(self).spec_policy().min_buffers
                && old(self).spec_widget_indices().spec_policy() == old(self).spec_policy()
                ==> final(self).spec_widget_indices().spec_retained() == old(self).spec_widget_indices().spec_retained() + 1,
            final(self).spec_dirty_widgets() == old(self).spec_dirty_widgets(),
            final(self).spec_text_spans() == old(self).spec_text_spans(),
            final(self).spec_strings() == old(self).spec_strings(),
            final(self).spec_policy() == old(self).spec_policy(),
    {
        lease.release(&mut self.widget_indices);
    }

    /// A lease on a dirty-widget buffer; return it with
    /// [`FrameScratch::return_dirty_widgets`].
    pub fn dirty_widgets(&mut self, min_capacity: usize) -> (r: ScratchVecLease<usize>)
        requires
            old(self).wf(),
            min_capacity * vstd::layout::size_of::<usize>() <= isize::MAX,
            old(self).spec_dirty_widgets().spec_in_use() < usize::MAX,
            old(self).spec_dirty_widgets().spec_stats().has_room(),
        ensures
            final(self).wf(),
            r@ == Seq::<usize>::empty(),
            final(self).spec_dirty_widgets().spec_in_use() == old(self).spec_dirty_widgets().spec_in_use() + 1,
            final(self).spec_widget_indices() == old(self).spec_widget_indices(),
            final(self).spec_text_spans() == old(self).spec_text_spans(),
            final(self).spec_strings() == old(self).spec_strings(),
            final(self).spec_policy() == old(self).spec_policy(),
    {
        self.dirty_widgets.lease_with_capacity(min_capacity)
    }

    /// Hands a dirty-widget lease back to its pool.
    pub fn return_dirty_widgets(&mut self, lease: ScratchVecLease<usize>)
        requires
            old(self).wf(),
            old(self).spec_dirty_widgets().spec_stats().returns < u64::MAX,
            old(self).spec_dirty_widgets().spec_stats().trims < u64::MAX,
        ensures
            final(self).wf(),
            final(self).spec_dirty_widgets().spec_in_use() == if old(self).spec_dirty_widgets().spec_in_use() > 0 { old(self).spec_dirty_widgets().spec_in_use() - 1 } else { 0 },
            final(self).spec_widget_indices() == old(self).spec_widget_indices(),
            final(self).spec_text_spans() == old(self).spec_text_spans(),
            final(self).spec_strings() == old(self).spec_strings(),
            final(self).spec_policy() == old(self).spec_policy(),
    {
        lease.release(&mut self.dirty_widgets);
    }

    /// A lease on a text-span buffer; return it with
    /// [`FrameScratch::return_text_spans`].
    pub fn text_spans(&mut self, min_capacity: usize) -> (r: ScratchVecLease<TextScratchSpan>)
        requires
            old(self).wf(),
            min_capacity * vstd::layout::size_of::<TextScratchSpan>() <= isize::MAX,
            old(self).spec_text_spans().spec_in_use() < usize::MAX,
            old(self).spec_text_spans().spec_stats().has_room(),
        ensures
            final(self).wf(),
            r@ == Seq::<TextScratchSpan>::empty(),
            final(self).spec_text_spans().spec_in_use() == old(self).spec_text_spans().spec_in_use() + 1,
            final(self).spec_widget_indices() == old(self).spec_widget_indices(),
            final(self).spec_dirty_widgets() == old(self).spec_dirty_widgets(),
            final(self).spec_strings() == old(self).spec_strings(),
            final(self).spec_policy() == old(self).spec_policy(),
    {
        self.text_spans.lease_with_capacity(min_capacity)
    }

    /// Hands a text-span lease back to its pool.
    pub fn return_text_spans(&mut self, lease: ScratchVecLease<TextScratchSpan>)
        requires
            old(self).wf(),
            old(self).spec_text_spans().spec_stats().returns < u64::MAX,
            old(self).spec_text_spans().spec_stats().trims < u64::MAX,
        ensures
            final(self).wf(),
            final(self).spec_text_spans().spec_in_use() == if old(self).spec_text_spans().spec_in_use() > 0 { old(self).spec_text_spans().spec_in_use() - 1 } else { 0 },
            final(self).spec_widget_indices() == old(self).spec_widget_indices(),
            final(self).spec_dirty_widgets() == old(self).spec_dirty_widgets(),
            final(self).spec_strings() == old(self).spec_strings(),
            final(self).spec_policy() == old(self).spec_policy(),
    {
        lease.release(&mut self.text_spans);
    }

    /// A lease on a scratch string; return it with
    /// [`FrameScratch::return_string`].
    pub fn string(&mut self, min_capacity: usize) -> (r: ScratchStringLease)
        requires
            old(self).wf(),
            old(self).spec_strings().spec_in_use() < usize::MAX,
            old(self).spec_strings().spec_stats().has_room(),
            min_capacity <= isize::MAX,
        ensures
            final(self).wf(),
            r@ == Seq::<char>::empty(),
            final(self).spec_strings().spec_in_use() == old(self).spec_strings().spec_in_use() + 1,
            final(self).spec_widget_indices() == old(self).spec_widget_indices(),
            final(self).spec_dirty_widgets() == old(self).spec_dirty_widgets(),
            final(self).spec_text_spans() == old(self).spec_text_spans(),
            final(self).spec_policy() == old(self).spec_policy(),
    {
        self.strings.lease_with_capacity(min_capacity)
    }

    /// Hands a string lease back to its pool.
    pub fn return_string(&mut self, lease: ScratchStringLease)
        requires
            old(self).wf(),
            old(self).spec_strings().spec_stats().returns < u64::MAX,
            old(self).spec_strings().spec_stats().trims < u64::MAX,
        ensures
            final(self).wf(),
            final(self).spec_strings().spec_in_use() == if old(self).spec_strings().spec_in_use() > 0 { old(self).spec_strings().spec_in_use() - 1 } else { 0 },
            final(self).spec_widget_indices() == old(self).spec_widget_indices(),
            final(self).spec_dirty_widgets() == old(self).spec_dirty_widgets(),
            final(self).spec_text_spans() == old(self).spec_text_spans(),
            final(self).spec_policy() == old(self).spec_policy(),
    {
        lease.release(&mut self.strings);
    }

    pub fn events_mut(&mut self) -> (r: &mut FrameQueue<usize>)
        ensures
            *r == old(self).spec_events(),
            final(self).spec_events() == *final(r),
            final(self).spec_widget_indices() == old(self).spec_widget_indices(),
            final(self).spec_dirty_widgets() == old(self).spec_dirty_widgets(),
            final(self).spec_text_spans() == old(self).spec_text_spans(),
            final(self).spec_strings() == old(self).spec_strings(),
            final(self).spec_policy() == old(self).spec_policy(),
    {
        &mut self.events
    }

    /// The retained buffers and capacities of every pool; sums are capped
    /// at `usize::MAX`.
    pub fn snapshot(&self) -> (r: ScratchSnapshot)
        ensures
            r.vec_buffers == sat_add(sat_add(self.spec_widget_indices().spec_retained() as usize, self.spec_dirty_widgets().spec_retained() as usize), self.spec_text_spans().spec_retained() as usize),
            r.string_buffers == self.spec_strings().spec_retained(),
    {
        let vec_buffers = self.widget_indices.retained_buffers().saturating_add(
            self.dirty_widgets.retained_buffers(),
        ).saturating_add(self.text_spans.retained_buffers());
        let vec_capacity = self.widget_indices.retained_capacity().saturating_add(
            self.dirty_widgets.retained_capacity(),
        ).saturating_add(self.text_spans.retained_capacity());
        ScratchSnapshot {
            vec_buffers,
            vec_capacity,
            string_buffers: self.strings.retained_buffers(),
            string_capacity: self.strings.retained_capacity(),
            queue_capacity: self.events.capacity(),
        }
    }

    /// Trims every pool by its policy and shrinks the event queue; returns
    /// how many buffers were dropped.
    pub fn trim_idle(&mut self) -> (r: usize)
        requires
            old(self).wf(),
            old(self).spec_widget_indices().spec_stats().trims + old(self).spec_widget_indices().spec_retained() <= u64::MAX,
            old(self).spec_dirty_widgets().spec_stats().trims + old(self).spec_dirty_widgets().spec_retained() <= u64::MAX,
            old(self).spec_text_spans().spec_stats().trims + old(self).spec_text_spans().spec_retained() <= u64::MAX,
            old(self).spec_strings().spec_stats().trims + old(self).spec_strings().spec_retained() <= u64::MAX,
            old(self).spec_events().spec_stats().trims < u64::MAX,
        ensures
            final(self).wf(),
            final(self).spec_policy() == old(self).spec_policy(),
            r == sat_add(sat_add(sat_add(
                (old(self).spec_widget_indices().spec_retained() - final(self).spec_widget_indices().spec_retained()) as usize,
                (old(self).spec_dirty_widgets().spec_retained() - final(self).spec_dirty_widgets().spec_retained()) as usize),
                (old(self).spec_text_spans().spec_retained() - final(self).spec_text_spans().spec_retained()) as usize),
                (old(self).spec_strings().spec_retained() - final(self).spec_strings().spec_retained()) as usize),
            final(self).spec_widget_indices().is_trim_of(&old(self).spec_widget_indices()),
            final(self).spec_dirty_widgets().is_trim_of(&old(self).spec_dirty_widgets()),
            final(self).spec_text_spans().is_trim_of(&old(self).spec_text_spans()),
            final(self).spec_strings().is_trim_of(&old(self).spec_strings()),
            final(self).spec_events()@ == old(self).spec_events()@,
            exists|c: usize|
                c >= old(self).spec_events()@.len() && final(self).spec_events().spec_stats()
                    == #[trigger] queue_trim_stats(old(self).spec_events().spec_stats(), c, old(self).spec_policy()),
            old(self).spec_events()@.len() > old(self).spec_policy().max_idle_capacity ==> final(self).spec_events().spec_stats() == (ScratchStats {
                trims: (old(self).spec_events().spec_stats().trims + 1) as u64,
                ..old(self).spec_events().spec_stats()
            }),
    {
        let mut trimmed: usize = 0;
        trimmed = trimmed.saturating_add(self.widget_indices.trim_idle());
        trimmed = trimmed.saturating_add(self.dirty_widgets.trim_idle());
        trimmed = trimmed.saturating_add(self.text_spans.trim_idle());
        trimmed = trimmed.saturating_add(self.strings.trim_idle());
        let ghost events_before = self.events;
        self.events.shrink_to_policy(self.policy);
        proof {
            let c = choose|c: usize|
                c >= events_before@.len() && self.events.spec_stats()
                    == #[trigger] queue_trim_stats(events_before.spec_stats(), c, self.policy);
            assert(queue_trim_stats(old(self).spec_events().spec_stats(), c, old(self).spec_policy()) == self.events.spec_stats());
        }
        trimmed
    }

    /// A guard holding the current snapshot.
    pub fn warm_frame_guard(&self) -> (r: WarmFrameGuard)
        ensures
            r.spec_before().vec_buffers == sat_add(sat_add(self.spec_widget_indices().spec_retained() as usize, self.spec_dirty_widgets().spec_retained() as usize), self.spec_text_spans().spec_retained() as usize),
            r.spec_before().string_buffers == self.spec_strings().spec_retained(),
    {
        WarmFrameGuard::new(self.snapshot())
    }

    pub fn stats(&self) -> (r: FrameScratchStats)
        ensures
            r.widget_indices == self.spec_widget_indices().spec_stats(),
            r.dirty_widgets == self.spec_dirty_widgets().spec_stats(),
            r.text_spans == self.spec_text_spans().spec_stats(),
            r.strings == self.spec_strings().spec_stats(),
            r.events == self.spec_events().spec_stats(),
    {
        FrameScratchStats {
            widget_indices: self.widget_indices.stats(),
            dirty_widgets: self.dirty_widgets.stats(),
            text_spans: self.text_spans.stats(),
            strings: self.strings.stats(),
            events: self.events.stats(),
        }
    }
}

impl Default for FrameScratch {
    fn default() -> (r: Self)
        ensures
            r.wf(),
            r.spec_policy() == ScratchPolicy::frame_default_spec(),
    {
        Self::new()
    }
}

} // verus!
