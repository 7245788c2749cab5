use aethel_gui::gpu_plan::{layered_draw_steps, DrawStep, TextLayer};
use aethel_gui::gpu_plan::{
    next_capacity, next_power_of_two, regular_then_overlay, DrawPlanner, PlanBatch, RenderLayer, ScissorRect,
};
use aethel_gui::reuse::{BitIndex, BitSet, CapacityEvent, ReusableString, ReusableVec};
use aethel_gui::scratch::{
    FrameQueue, FrameScratch, ScratchPolicy, ScratchStringPool, ScratchVecPool, TextScratchSpan,
};

fn ones(set: &BitSet) -> Vec<usize> {
    let mut out = Vec::new();
    let mut it = set.iter_ones();
    while let Some(idx) = it.next() {
        out.push(idx.0);
    }
    out
}

#[test]
fn bitset_iterates_set_bits() {
    let mut set = BitSet::with_len(130);
    set.insert(BitIndex(3));
    set.insert(BitIndex(64));
    set.insert(BitIndex(129));
    let values = ones(&set);
    assert_eq!(values, vec![3, 64, 129]);
}

#[test]
fn bitset_counts_and_combines() {
    let mut a = BitSet::with_len(100);
    let mut b = BitSet::with_len(100);
    a.insert(BitIndex(1));
    a.insert(BitIndex(70));
    b.insert(BitIndex(70));
    b.insert(BitIndex(99));
    assert_eq!(a.count_ones(), 2);
    let mut u = a.clone();
    u.union_with(&b);
    assert_eq!(ones(&u), vec![1, 70, 99]);
    a.intersect_with(&b);
    assert_eq!(ones(&a), vec![70]);
    a.remove(BitIndex(70));
    assert!(!a.contains(BitIndex(70)));
    assert_eq!(a.count_ones(), 0);
    assert_eq!(a.len(), 100);
}

#[test]
fn bitset_fill_respects_length() {
    let mut set = BitSet::with_len(70);
    set.fill();
    assert_eq!(set.count_ones(), 70);
    set.resize(10);
    assert_eq!(set.count_ones(), 10);
    assert!(!set.is_empty());
    set.clear();
    assert_eq!(set.count_ones(), 0);
    assert!(set.is_empty());
    assert!(BitSet::new().is_empty());
}

#[test]
fn reusable_vec_keeps_capacity_across_clear() {
    let mut v: ReusableVec<u32> = ReusableVec::with_capacity(4);
    v.extend_from_slice(&[1, 2, 3]);
    let cap = v.capacity();
    v.clear();
    assert!(v.is_empty());
    assert_eq!(v.capacity(), cap);
    assert_eq!(v.push(9), CapacityEvent::Reused);
    assert_eq!(v.as_slice(), &[9]);
    assert_eq!(v.stats().clears, 1);
}

#[test]
fn reusable_string_set_replaces_text() {
    let mut s = ReusableString::with_capacity(8);
    s.push_str("ab");
    s.set("xyz");
    assert_eq!(s.as_str(), "xyz");
    assert_eq!(s.len(), 3);
    s.clear();
    assert!(s.is_empty());
}

#[test]
fn vec_pool_reuses_capacity_after_return() {
    let mut pool = ScratchVecPool::<u32>::with_preallocated(1, 8, ScratchPolicy::unbounded());
    pool.begin_frame();
    let mut buffer = pool.checkout_with_capacity(8);
    buffer.extend([1, 2, 3, 4]);
    let capacity = buffer.capacity();
    pool.recycle(buffer);

    let second = pool.checkout_with_capacity(4);
    assert!(second.capacity() >= capacity);
    assert_eq!(pool.stats().allocations, 0);
}

#[test]
fn vec_lease_returns_buffer_on_drop() {
    let mut pool = ScratchVecPool::<usize>::default();
    {
        let mut lease = pool.lease_with_capacity(16);
        lease.as_vec_mut().extend([1, 2, 3]);
        assert_eq!(lease.len(), 3);
        lease.release(&mut pool);
    }
    assert_eq!(pool.in_use(), 0);
    assert_eq!(pool.retained_buffers(), 1);
}

#[test]
fn string_pool_reuses_buffer() {
    let mut pool = ScratchStringPool::with_preallocated(1, 16, ScratchPolicy::unbounded());
    let mut text = pool.checkout_with_capacity(16);
    text.push_str("hello");
    pool.recycle(text);

    let text = pool.checkout_with_capacity(5);
    assert!(text.capacity() >= 16);
    assert!(text.is_empty());
}

#[test]
fn frame_queue_preserves_order() {
    let mut queue = FrameQueue::with_capacity(4);
    queue.push(1);
    queue.push(2);
    queue.push(3);
    assert_eq!(queue.pop(), Some(1));
    assert_eq!(queue.pop(), Some(2));
    assert_eq!(queue.pop(), Some(3));
    assert_eq!(queue.pop(), None);
}

#[test]
fn frame_queue_drains_front_first() {
    let mut queue = FrameQueue::new();
    queue.push('a');
    queue.push('b');
    assert_eq!(queue.drain(), vec!['a', 'b']);
    assert!(queue.is_empty());
}

#[test]
fn frame_scratch_warm_guard_reports_stable_frame() {
    let mut scratch = FrameScratch::new();
    {
        let mut ids = scratch.widget_indices(8);
        ids.as_vec_mut().extend(0..8);
        scratch.return_widget_indices(ids);
    }

    let guard = scratch.warm_frame_guard();
    scratch.begin_frame();
    {
        let mut ids = scratch.widget_indices(4);
        ids.as_vec_mut().extend(0..4);
        scratch.return_widget_indices(ids);
    }
    let report = guard.finish(scratch.snapshot());
    assert!(report.stable());
}

#[test]
fn text_span_len_saturates() {
    let span = TextScratchSpan::new(10, 4, 0);
    assert_eq!(span.len(), 0);
    assert!(span.is_empty());
}

#[test]
fn scratch_policy_keeps_within_limits() {
    let policy = ScratchPolicy::new(1, 2, 64);
    assert!(policy.should_keep(0, 1_000_000));
    assert!(policy.should_keep(1, 64));
    assert!(!policy.should_keep(1, 65));
    assert!(!policy.should_keep(2, 8));
}

#[test]
fn next_capacity_grows_to_power_of_two() {
    assert_eq!(next_capacity(1024, 1025), 2048);
    assert_eq!(next_capacity(1024, 5000), 8192);
}

#[test]
fn next_capacity_never_below_default() {
    assert_eq!(next_capacity(0, 1), 1024);
    assert_eq!(next_capacity(3000, 10), 8192);
    assert_eq!(next_power_of_two(0), 1);
    assert_eq!(next_power_of_two(17), 32);
}

fn batch(layer: RenderLayer, start: u32, clipped: bool, scissor: Option<ScissorRect>, shader_key: Option<u32>) -> PlanBatch {
    PlanBatch { layer, range: start..start + 1, clipped, scissor, shader_key }
}

#[test]
fn regular_then_overlay_splits_at_first_overlay() {
    let batches = vec![
        batch(RenderLayer::Regular, 0, false, None, None),
        batch(RenderLayer::Overlay, 1, false, None, None),
        batch(RenderLayer::Overlay, 2, false, None, None),
    ];
    let (regular, overlay) = regular_then_overlay(&batches);
    assert_eq!(regular.len(), 1);
    assert_eq!(overlay.len(), 2);
}

#[test]
fn planner_skips_offscreen_scissor_batches() {
    let mut planner = DrawPlanner::new();
    let batches = vec![batch(RenderLayer::Regular, 0, true, None, None)];

    let packets = planner.plan(&batches).len();
    assert_eq!(packets, 0);
    assert_eq!(planner.stats().skipped_batches, 1);
}

#[test]
fn planner_counts_pipeline_switches() {
    let mut planner = DrawPlanner::new();
    let batches = vec![
        batch(RenderLayer::Regular, 0, false, None, None),
        batch(RenderLayer::Regular, 1, false, None, Some(16)),
        batch(RenderLayer::Regular, 2, false, None, Some(16)),
    ];

    let packets = planner.plan(&batches).len();
    assert_eq!(packets, 3);
    assert_eq!(planner.stats().pipeline_switches, 2);
}

#[test]
fn planner_counts_scissor_changes_and_skips_empty_ranges() {
    let mut planner = DrawPlanner::new();
    let s = ScissorRect { x: 0, y: 0, width: 10, height: 10 };
    let batches = vec![
        batch(RenderLayer::Regular, 0, true, Some(s), None),
        PlanBatch { layer: RenderLayer::Regular, range: 1..1, clipped: false, scissor: None, shader_key: None },
        batch(RenderLayer::Regular, 1, false, None, None),
    ];
    let n = planner.plan(&batches).len();
    assert_eq!(n, 2);
    let stats = planner.stats();
    assert_eq!(stats.skipped_batches, 1);
    assert_eq!(stats.draw_packets, 2);
    assert_eq!(stats.scissor_changes, 2);
}

#[test]
fn vec_pool_trim_drops_buffers_over_the_idle_limit() {
    let mut pool: ScratchVecPool<u32> = ScratchVecPool::with_preallocated(5, 16, ScratchPolicy::new(1, 3, 1024));
    assert_eq!(pool.retained_buffers(), 5);
    assert!(pool.retained_capacity() >= 5 * 16);
    assert_eq!(pool.retained_bytes(), pool.retained_capacity() * 4);
    let dropped = pool.trim_idle();
    assert_eq!(dropped, 2);
    assert_eq!(pool.retained_buffers(), 3);
    assert_eq!(pool.stats().trims, 2);
    assert!(pool.retained_capacity() >= 3 * 16);
}

#[test]
fn string_pool_retained_capacity_sums_idle_strings() {
    let pool = ScratchStringPool::with_preallocated(2, 32, ScratchPolicy::new(2, 4, 1024));
    assert_eq!(pool.retained_buffers(), 2);
    assert!(pool.retained_capacity() >= 64);
}

#[test]
fn frame_scratch_trim_shrinks_a_large_event_queue() {
    let mut scratch = FrameScratch::with_policy(ScratchPolicy::new(1, 1, 4));
    for i in 0..10usize {
        scratch.events_mut().push(i);
    }
    let dropped = scratch.trim_idle();
    assert_eq!(dropped, 0);
    assert_eq!(scratch.events_mut().len(), 10);
    assert_eq!(scratch.stats().events.trims, 1);
    assert_eq!(scratch.stats().widget_indices.trims, 0);
}

#[test]
fn bitset_resize_drops_bits_past_the_new_length() {
    let mut set = BitSet::with_len(10);
    set.insert(BitIndex(7));
    set.resize(5);
    set.resize(10);
    assert!(!set.contains(BitIndex(7)));
    assert_eq!(set.count_ones(), 0);
    assert!(set.is_empty());
    set.insert(BitIndex(2));
    assert_eq!(set.count_ones(), 1);
    assert!(!set.is_empty());
}

#[test]
fn layered_steps_draw_batches_before_each_layer_text() {
    let layers = vec![TextLayer::new(4, 0, 2), TextLayer::new(8, 2, 2), TextLayer::new(9, 2, 3)];
    assert!(layers[0].has_text());
    assert!(!layers[1].has_text());
    assert_eq!(layers[2].area_range(), 2..3);
    let steps = layered_draw_steps(&[2, 4, 7, 9], &layers, &[true, true, false], 3, 3);
    assert_eq!(
        steps,
        vec![DrawStep::Batch(0), DrawStep::Batch(1), DrawStep::Text(0), DrawStep::Batch(2), DrawStep::Batch(3)]
    );
}

#[test]
fn layered_steps_stop_a_run_at_the_first_batch_past_the_layer() {
    let layers = vec![TextLayer::new(4, 0, 1)];
    let steps = layered_draw_steps(&[5, 2], &layers, &[true], 1, 1);
    assert_eq!(steps, vec![DrawStep::Text(0), DrawStep::Batch(0), DrawStep::Batch(1)]);
    let hidden = layered_draw_steps(&[5, 2], &layers, &[true], 0, 1);
    assert_eq!(hidden, vec![DrawStep::Batch(0), DrawStep::Batch(1)]);
}
