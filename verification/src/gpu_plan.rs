//! Draw planning: which render batches become draw calls, in which order,
//! and how often the pipeline and scissor have to change; plus the instance
//! buffer's growth rule.
use vstd::prelude::*;
use std::ops::Range;

verus! {

#[derive(Debug, Clone, Copy, PartialEq, Eq, Structural)]
pub struct GpuUploadStats {
    pub instance_count: usize,
    pub instance_capacity: u64,
    pub bytes_uploaded: u64,
    pub buffer_growths: u64,
}

#[derive(Debug, Clone, Copy, PartialEq, Eq, Structural)]
pub struct GpuDrawStats {
    pub draw_packets: usize,
    pub skipped_batches: usize,
    pub pipeline_switches: usize,
    pub scissor_changes: usize,
}

impl GpuDrawStats {
    pub open spec fn zero() -> GpuDrawStats {
        GpuDrawStats { draw_packets: 0, skipped_batches: 0, pipeline_switches: 0, scissor_changes: 0 }
    }
}

impl Default for GpuDrawStats {
    fn default() -> (r: Self)
        ensures
            r == GpuDrawStats::zero(),
    {
        GpuDrawStats { draw_packets: 0, skipped_batches: 0, pipeline_switches: 0, scissor_changes: 0 }
    }
}

#[derive(Debug, Clone, Copy, PartialEq, Eq, Structural)]
pub struct GpuStats {
    pub upload: GpuUploadStats,
    pub draw: GpuDrawStats,
    pub custom_pipelines: usize,
}

/// A scissor rectangle in surface pixels.
#[derive(Debug, Clone, Copy, PartialEq, Eq, Structural)]
pub struct ScissorRect {
    pub x: u32,
    pub y: u32,
    pub width: u32,
    pub height: u32,
}

impl ScissorRect {
    pub fn is_empty(self) -> (r: bool)
        ensures
            r == (self.width == 0 || self.height == 0),
    {
        self.width == 0 || self.height == 0
    }
}

#[derive(Debug, Clone, Copy, PartialEq, Eq, Structural)]
pub enum RenderLayer {
    Regular,
    Overlay,
}

#[derive(Debug, Clone, Copy, PartialEq, Eq, Structural)]
pub enum OverlayPolicy {
    InheritClip,
    EscapeClip,
}

/// A render batch as the planner sees it: its layer, instance range, whether
/// it carries a clip, the scissor that clip maps to on the surface (`None`
/// when there is no clip or the clip lies off the surface), and its shader.
#[derive(Debug, PartialEq, Eq)]
pub struct PlanBatch {
    pub layer: RenderLayer,
    pub range: Range<u32>,
    pub clipped: bool,
    pub scissor: Option<ScissorRect>,
    pub shader_key: Option<u32>,
}

/// One draw call of the plan.
#[derive(Debug, PartialEq, Eq)]
pub struct DrawPacket {
    pub batch_index: usize,
    pub range: Range<u32>,
    pub shader_key: Option<u32>,
    pub scissor: Option<ScissorRect>,
}

impl Clone for PlanBatch {
    fn clone(&self) -> (r: Self)
        ensures
            r == *self,
    {
        PlanBatch {
            layer: self.layer,
            range: self.range.start..self.range.end,
            clipped: self.clipped,
            scissor: self.scissor,
            shader_key: self.shader_key,
        }
    }
}

impl Clone for DrawPacket {
    fn clone(&self) -> (r: Self)
        ensures
            r == *self,
    {
        DrawPacket {
            batch_index: self.batch_index,
            range: self.range.start..self.range.end,
            shader_key: self.shader_key,
            scissor: self.scissor,
        }
    }
}

/// A batch is drawn unless its range is empty or its clip lies off the
/// surface.
pub open spec fn batch_drawn(b: PlanBatch) -> bool {
    b.range.start < b.range.end && !(b.clipped && b.scissor is None)
}

/// The packets planned for `batches`, in order.
pub open spec fn planned(batches: Seq<PlanBatch>) -> Seq<DrawPacket>
    decreases batches.len(),
{
    if batches.len() == 0 {
        Seq::empty()
    } else {
        let i = batches.len() - 1;
        let b = batches[i];
        let before = planned(batches.drop_last());
        if batch_drawn(b) {
            before.push(DrawPacket { batch_index: i as usize, range: b.range, shader_key: b.shader_key, scissor: b.scissor })
        } else {
            before
        }
    }
}

/// Number of packets whose shader differs from the packet before (the first
/// packet counts).
pub open spec fn pipeline_switches(packets: Seq<DrawPacket>) -> nat
    decreases packets.len(),
{
    if packets.len() == 0 {
        0
    } else {
        let rest = pipeline_switches(packets.drop_last());
        if packets.len() == 1 || packets[packets.len() - 2].shader_key != packets.last().shader_key {
            rest + 1
        } else {
            rest
        }
    }
}

/// Number of packets whose scissor differs from the packet before (the
/// first packet counts).
pub open spec fn scissor_changes(packets: Seq<DrawPacket>) -> nat
    decreases packets.len(),
{
    if packets.len() == 0 {
        0
    } else {
        let rest = scissor_changes(packets.drop_last());
        if packets.len() == 1 || packets[packets.len() - 2].scissor != packets.last().scissor {
            rest + 1
        } else {
            rest
        }
    }
}

proof fn lemma_planned_len(batches: Seq<PlanBatch>)
    ensures
        planned(batches).len() <= batches.len(),
        forall|k: int| 0 <= k < planned(batches).len() ==> #[trigger] planned(batches)[k].batch_index < batches.len(),
    decreases batches.len(),
{
    if batches.len() > 0 {
        lemma_planned_len(batches.drop_last());
    }
}

proof fn lemma_counts_le_len(packets: Seq<DrawPacket>)
    ensures
        pipeline_switches(packets) <= packets.len(),
        scissor_changes(packets) <= packets.len(),
    decreases packets.len(),
{
    if packets.len() > 0 {
        lemma_counts_le_len(packets.drop_last());
    }
}

/// Turns render batches into draw packets, remembering the counts.
#[derive(Debug, Clone)]
pub struct DrawPlanner {
    packets: Vec<DrawPacket>,
    stats: GpuDrawStats,
}

impl DrawPlanner {
    pub closed spec fn spec_packets(&self) -> Seq<DrawPacket> {
        self.packets@
    }

    pub closed spec fn spec_stats(&self) -> GpuDrawStats {
        self.stats
    }

    pub fn new() -> (r: Self)
        ensures
            r.spec_packets() == Seq::<DrawPacket>::empty(),
            r.spec_stats() == GpuDrawStats::zero(),
    {
        DrawPlanner { packets: Vec::with_capacity(128), stats: GpuDrawStats::default() }
    }

    /// Plans `batches`: empty and off-surface batches are skipped, the rest
    /// become packets in order; shader and scissor changes between
    /// consecutive packets are counted.
    pub fn plan(&mut self, batches: &[PlanBatch]) -> (r: &[DrawPacket])
        ensures
            r@ == planned(batches@),
            final(self).spec_packets() == planned(batches@),
            final(self).spec_stats() == (GpuDrawStats {
                draw_packets: planned(batches@).len() as usize,
                skipped_batches: (batches@.len() - planned(batches@).len()) as usize,
                pipeline_switches: pipeline_switches(planned(batches@)) as usize,
                scissor_changes: scissor_changes(planned(batches@)) as usize,
            }),
    {
        self.packets.clear();
        self.stats = GpuDrawStats::default();
        let mut last_pipeline: Option<Option<u32>> = None;
        let mut last_scissor: Option<Option<ScissorRect>> = None;
        let n = batches.len();
        let mut i: usize = 0;
        while i < n
            invariant
                i <= n,
                n == batches@.len(),
                self.packets@ == planned(batches@.take(i as int)),
                self.stats.skipped_batches == i - self.packets@.len(),
                self.stats.pipeline_switches == pipeline_switches(self.packets@),
                self.stats.scissor_changes == scissor_changes(self.packets@),
                self.stats.draw_packets == 0,
                self.packets@.len() == 0 ==> last_pipeline is None && last_scissor is None,
                self.packets@.len() > 0 ==> last_pipeline == Some(self.packets@.last().shader_key)
                    && last_scissor == Some(self.packets@.last().scissor),
            decreases n - i,
        {
            proof {
                assert(batches@.take(i + 1).drop_last() =~= batches@.take(i as int));
                lemma_planned_len(batches@.take(i as int));
                lemma_counts_le_len(self.packets@);
            }
            let batch = &batches[i];
            if batch.range.start >= batch.range.end || (batch.clipped && batch.scissor.is_none()) {
                self.stats.skipped_batches = self.stats.skipped_batches + 1;
            } else {
                let scissor = batch.scissor;
                let switch_pipeline = match last_pipeline {
                    Some(k) => k != batch.shader_key,
                    None => true,
                };
                if switch_pipeline {
                    self.stats.pipeline_switches = self.stats.pipeline_switches + 1;
                    last_pipeline = Some(batch.shader_key);
                }
                let switch_scissor = match last_scissor {
                    Some(k) => k != scissor,
                    None => true,
                };
                if switch_scissor {
                    self.stats.scissor_changes = self.stats.scissor_changes + 1;
                    last_scissor = Some(scissor);
                }
                let ghost before = self.packets@;
                self.packets.push(DrawPacket {
                    batch_index: i,
                    range: batch.range.start..batch.range.end,
                    shader_key: batch.shader_key,
                    scissor,
                });
                assert(self.packets@.drop_last() =~= before);
            }
            i = i + 1;
        }
        assert(batches@.take(n as int) =~= batches@);
        self.stats.draw_packets = self.packets.len();
        self.packets.as_slice()
    }

    pub fn packets(&self) -> (r: &[DrawPacket])
        ensures
            r@ == self.spec_packets(),
    {
        self.packets.as_slice()
    }

    pub fn stats(&self) -> (r: GpuDrawStats)
        ensures
            r == self.spec_stats(),
    {
        self.stats
    }

    pub fn capacity(&self) -> (r: usize)
        ensures
            r >= self.spec_packets().len(),
    {
        crate::alloc_ops::vec_capacity(&self.packets)
    }
}

impl Default for DrawPlanner {
    fn default() -> (r: Self)
        ensures
            r.spec_packets() == Seq::<DrawPacket>::empty(),
            r.spec_stats() == GpuDrawStats::zero(),
    {
        DrawPlanner { packets: Vec::new(), stats: GpuDrawStats::default() }
    }
}

/// Index of the first overlay batch, or the length when there is none.
pub open spec fn first_overlay(batches: Seq<PlanBatch>) -> int {
    if exists|i: int| 0 <= i < batches.len() && batches[i].layer == RenderLayer::Overlay {
        choose|i: int|
            0 <= i < batches.len() && batches[i].layer == RenderLayer::Overlay && forall|j: int|
                0 <= j < i ==> batches[j].layer != RenderLayer::Overlay
    } else {
        batches.len() as int
    }
}

/// Splits `batches` at the first overlay batch: the regular batches before
/// it, and everything from it on.
pub fn regular_then_overlay(batches: &[PlanBatch]) -> (r: (&[PlanBatch], &[PlanBatch]))
    ensures
        exists|k: int|
            0 <= k <= batches@.len()
            && (forall|j: int| 0 <= j < k ==> (#[trigger] batches@[j]).layer != RenderLayer::Overlay)
            && (k < batches@.len() ==> batches@[k].layer == RenderLayer::Overlay)
            && r.0@ == batches@.subrange(0, k)
            && r.1@ == batches@.subrange(k, batches@.len() as int),
{
    let n = batches.len();
    let mut k: usize = 0;
    while k < n && batches[k].layer != RenderLayer::Overlay
        invariant
            k <= n,
            n == batches@.len(),
            forall|j: int| 0 <= j < k ==> (#[trigger] batches@[j]).layer != RenderLayer::Overlay,
        decreases n - k,
    {
        k = k + 1;
    }
    let parts = (vstd::slice::slice_subrange(batches, 0, k), vstd::slice::slice_subrange(batches, k, n));
    assert(k < n ==> batches@[k as int].layer == RenderLayer::Overlay);
    parts
}

/// Whether `n` is a power of two: one bit set.
pub open spec fn is_power_of_two(n: u64) -> bool {
    n != 0 && n & ((n - 1) as u64) == 0
}

/// Smallest power of two not below `n` (1 for 0).
pub fn next_power_of_two(n: u64) -> (r: u64)
    requires
        n <= 0x8000_0000_0000_0000,
    ensures
        is_power_of_two(r),
        r >= n,
        r == 1 || r / 2 < n,
{
    let mut p: u64 = 1;
    assert(1u64 & 0u64 == 0) by (bit_vector);
    while p < n
        invariant
            is_power_of_two(p),
            p <= 0x8000_0000_0000_0000,
            n <= 0x8000_0000_0000_0000,
            p == 1 || p / 2 < n,
        decreases 0x1_0000_0000_0000_0000 - p,
    {
        assert(p != 0 && p & ((p - 1) as u64) == 0 && p < 0x8000_0000_0000_0000u64 ==> p <= 0x4000_0000_0000_0000u64) by (bit_vector);
        assert(p != 0 && p & ((p - 1) as u64) == 0 && p <= 0x4000_0000_0000_0000u64 ==> ((p * 2) as u64) & (((p * 2) as u64 - 1) as u64) == 0) by (bit_vector);
        p = p * 2;
    }
    p
}

pub const DEFAULT_INSTANCE_CAPACITY: u64 = 1024;

/// Capacity of the instance buffer after it must hold `needed` instances:
/// the next power of two of the larger of `needed` and twice the current
/// capacity (saturating), at least 1024.
pub fn next_capacity(current: u64, needed: u64) -> (r: u64)
    requires
        needed <= 0x8000_0000_0000_0000,
        current <= 0x4000_0000_0000_0000,
    ensures
        is_power_of_two(r),
        r >= needed,
        r >= 2 * current,
        r >= 1024,
        r == 1 || r / 2 < if needed > (if 2 * current > 1024 { 2 * current } else { 1024 }) { needed as int } else { if 2 * current > 1024 { 2 * current } else { 1024 } },
{
    let doubled = current * 2;
    let doubled = if doubled > DEFAULT_INSTANCE_CAPACITY { doubled } else { DEFAULT_INSTANCE_CAPACITY };
    let wanted = if doubled > needed { doubled } else { needed };
    next_power_of_two(wanted)
}

/// Planning keeps the order of the batches and drops exactly the ones
/// that are not drawn: packets name their batches in increasing order,
/// each named batch is drawn and carries its own range, shader and
/// scissor, and every drawn batch has a packet.
pub proof fn lemma_plan_keeps_order(batches: Seq<PlanBatch>)
    requires
        batches.len() <= usize::MAX,
    ensures
        forall|a: int, b: int| 0 <= a < b < planned(batches).len()
            ==> #[trigger] planned(batches)[a].batch_index < #[trigger] planned(batches)[b].batch_index,
        forall|k: int| 0 <= k < planned(batches).len() ==> {
            let p = #[trigger] planned(batches)[k];
            &&& p.batch_index < batches.len()
            &&& batch_drawn(batches[p.batch_index as int])
            &&& p.range == batches[p.batch_index as int].range
            &&& p.shader_key == batches[p.batch_index as int].shader_key
            &&& p.scissor == batches[p.batch_index as int].scissor
        },
        forall|i: int| 0 <= i < batches.len() && #[trigger] batch_drawn(batches[i])
            ==> exists|k: int| 0 <= k < planned(batches).len() && planned(batches)[k].batch_index == i,
    decreases batches.len(),
{
    if batches.len() > 0 {
        let prefix = batches.drop_last();
        lemma_plan_keeps_order(prefix);
        lemma_planned_len(prefix);
        let before = planned(prefix);
        assert forall|k: int| 0 <= k < before.len() implies {
            let p = #[trigger] before[k];
            &&& batch_drawn(batches[p.batch_index as int])
            &&& p.range == batches[p.batch_index as int].range
            &&& p.shader_key == batches[p.batch_index as int].shader_key
            &&& p.scissor == batches[p.batch_index as int].scissor
        } by {
            assert(batches[before[k].batch_index as int] == prefix[before[k].batch_index as int]);
        }
        let last = batches.len() - 1;
        assert forall|i: int| 0 <= i < batches.len() && #[trigger] batch_drawn(batches[i])
            implies exists|k: int| 0 <= k < planned(batches).len() && planned(batches)[k].batch_index == i by {
            if i < last {
                assert(batches[i] == prefix[i]);
                assert(batch_drawn(prefix[i]));
                let k = choose|k: int| 0 <= k < before.len() && before[k].batch_index == i;
                assert(planned(batches)[k] == before[k]);
            } else {
                assert(i == last);
                assert(planned(batches) == before.push(DrawPacket {
                    batch_index: last as usize,
                    range: batches[last].range,
                    shader_key: batches[last].shader_key,
                    scissor: batches[last].scissor,
                }));
                assert(planned(batches)[before.len() as int].batch_index == i);
            }
        }
    }
}

/// The text of one layer of panels: how far into the instance buffer the
/// layer's shapes reach, and which prepared text areas belong to it.
#[derive(Debug, Clone, PartialEq, Eq, Structural)]
pub struct TextLayer {
    pub instance_end: u32,
    pub area_start: usize,
    pub area_end: usize,
}

impl TextLayer {
    pub fn new(instance_end: u32, area_start: usize, area_end: usize) -> (r: Self)
        ensures
            r == (TextLayer { instance_end, area_start, area_end }),
    {
        TextLayer { instance_end, area_start, area_end }
    }

    /// The layer's text areas, as a range of indices.
    pub fn area_range(&self) -> (r: Range<usize>)
        ensures
            r.start == self.area_start,
            r.end == self.area_end,
    {
        self.area_start..self.area_end
    }

    /// Whether the layer has any text area.
    pub fn has_text(&self) -> (r: bool)
        ensures
            r == (self.area_start < self.area_end),
    {
        self.area_start < self.area_end
    }
}

/// One step of a layered frame: draw regular batch `i`, or draw the text
/// of layer `l`.
#[derive(Debug, Clone, Copy, PartialEq, Eq, Structural)]
pub enum DrawStep {
    Batch(usize),
    Text(usize),
}

/// Where the run of batches from `start` whose instances end at or before
/// `limit` stops: the first later batch that reaches past `limit`, or the
/// end.
pub open spec fn run_end(ends: Seq<u32>, start: nat, limit: u32) -> nat
    decreases ends.len() - start,
{
    if start < ends.len() && ends[start as int] <= limit {
        run_end(ends, start + 1, limit)
    } else {
        start
    }
}

/// Draws of the batches `from` up to (not including) `to`, in order.
pub open spec fn batch_steps(from: nat, to: nat) -> Seq<DrawStep> {
    Seq::new((to - from) as nat, |k: int| DrawStep::Batch((from + k) as usize))
}

/// Whether layer `l`'s text is drawn: it has text, it is among the
/// `active_layers` in use and the `renderer_layers` prepared, and its flag
/// in `active` is set.
pub open spec fn text_layer_drawn(
    layers: Seq<TextLayer>,
    active: Seq<bool>,
    active_layers: usize,
    renderer_layers: usize,
    l: int,
) -> bool {
    &&& layers[l].area_start < layers[l].area_end
    &&& l < active_layers
    &&& l < renderer_layers
    &&& l < active.len()
    &&& active[l]
}

/// The steps of a layered frame from layer `l` on, with the batches before
/// `b` already drawn: for each layer, the run of batches that end within
/// it, then its text when drawn; after the last layer, every batch left.
pub open spec fn steps_from(
    ends: Seq<u32>,
    layers: Seq<TextLayer>,
    active: Seq<bool>,
    active_layers: usize,
    renderer_layers: usize,
    l: nat,
    b: nat,
) -> Seq<DrawStep>
    decreases layers.len() - l,
{
    if l >= layers.len() {
        batch_steps(b, ends.len())
    } else {
        let e = run_end(ends, b, layers[l as int].instance_end);
        batch_steps(b, e) + (if text_layer_drawn(layers, active, active_layers, renderer_layers, l as int) {
            seq![DrawStep::Text(l as usize)]
        } else {
            Seq::empty()
        }) + steps_from(ends, layers, active, active_layers, renderer_layers, l + 1, e)
    }
}

/// A run of batches stays within the batches, and every batch in it ends
/// within the limit.
pub proof fn lemma_run_end_bounds(ends: Seq<u32>, start: nat, limit: u32)
    requires
        start <= ends.len(),
    ensures
        start <= run_end(ends, start, limit) <= ends.len(),
        forall|k: int| start <= k < run_end(ends, start, limit) ==> ends[k] <= limit,
        run_end(ends, start, limit) < ends.len() ==> ends[run_end(ends, start, limit) as int] > limit,
    decreases ends.len() - start,
{
    if start < ends.len() && ends[start as int] <= limit {
        lemma_run_end_bounds(ends, start + 1, limit);
    }
}

/// The draw order of a frame with text layers: before each layer's text,
/// the regular batches (by the instance index they end at, `batch_ends`)
/// that end within the layer; the layer's text when it is drawn (see
/// `text_layer_drawn`); then the batches left after the last layer.
pub fn layered_draw_steps(
    batch_ends: &[u32],
    layers: &[TextLayer],
    layer_active: &[bool],
    active_layers: usize,
    renderer_layers: usize,
) -> (r: Vec<DrawStep>)
    ensures
        r@ == steps_from(batch_ends@, layers@, layer_active@, active_layers, renderer_layers, 0, 0),
        batch_draws(r@) == batch_steps(0, batch_ends@.len()),
        forall|k: usize| #[trigger] r@.contains(DrawStep::Text(k))
            <==> (k < layers@.len() && text_layer_drawn(layers@, layer_active@, active_layers, renderer_layers, k as int)),
{
    proof {
        lemma_steps_draw_every_batch_in_order(batch_ends@, layers@, layer_active@, active_layers, renderer_layers, 0, 0);
        assert forall|k: usize| #[trigger] steps_from(batch_ends@, layers@, layer_active@, active_layers, renderer_layers, 0, 0).contains(DrawStep::Text(k))
            <==> (k < layers@.len() && text_layer_drawn(layers@, layer_active@, active_layers, renderer_layers, k as int)) by {
            lemma_steps_draw_text_when_drawn(batch_ends@, layers@, layer_active@, active_layers, renderer_layers, 0, 0, k);
        }
    }
    let n = batch_ends.len();
    let mut out: Vec<DrawStep> = Vec::new();
    let mut b: usize = 0;
    let mut l: usize = 0;
    while l < layers.len()
        invariant
            b <= n,
            n == batch_ends@.len(),
            l <= layers@.len(),
            out@ + steps_from(batch_ends@, layers@, layer_active@, active_layers, renderer_layers, l as nat, b as nat)
                == steps_from(batch_ends@, layers@, layer_active@, active_layers, renderer_layers, 0, 0),
        decreases layers@.len() - l,
    {
        let limit = layers[l].instance_end;
        let ghost b0 = b as nat;
        let ghost e = run_end(batch_ends@, b0, limit);
        let ghost out0 = out@;
        proof {
            lemma_run_end_bounds(batch_ends@, b0, limit);
        }
        while b < n && batch_ends[b] <= limit
            invariant
                b0 <= b <= e <= n,
                n == batch_ends@.len(),
                run_end(batch_ends@, b as nat, limit) == e,
                out@ == out0 + batch_steps(b0, b as nat),
            decreases n - b,
        {
            proof {
                lemma_run_end_bounds(batch_ends@, (b + 1) as nat, limit);
            }
            out.push(DrawStep::Batch(b));
            b = b + 1;
            assert(out@ =~= out0 + batch_steps(b0, b as nat));
        }
        assert(b == e);
        let drawn = layers[l].area_start < layers[l].area_end && l < active_layers && l < renderer_layers
            && l < layer_active.len() && layer_active[l];
        let ghost before_text = out@;
        if drawn {
            out.push(DrawStep::Text(l));
        }
        proof {
            let t = if text_layer_drawn(layers@, layer_active@, active_layers, renderer_layers, l as int) {
                seq![DrawStep::Text(l as usize)]
            } else {
                Seq::empty()
            };
            assert(out@ =~= out0 + batch_steps(b0, e) + t);
            let rest = steps_from(batch_ends@, layers@, layer_active@, active_layers, renderer_layers, (l + 1) as nat, e);
            assert(out0 + (batch_steps(b0, e) + t + rest) =~= out@ + rest);
        }
        l = l + 1;
    }
    let ghost out1 = out@;
    let ghost b1 = b as nat;
    while b < n
        invariant
            b1 <= b <= n,
            n == batch_ends@.len(),
            out@ == out1 + batch_steps(b1, b as nat),
        decreases n - b,
    {
        out.push(DrawStep::Batch(b));
        b = b + 1;
        assert(out@ =~= out1 + batch_steps(b1, b as nat));
    }
    out
}

/// The batch draws of `steps`, in order.
pub open spec fn batch_draws(steps: Seq<DrawStep>) -> Seq<DrawStep>
    decreases steps.len(),
{
    if steps.len() == 0 {
        Seq::empty()
    } else {
        batch_draws(steps.drop_last()) + (if steps.last() is Batch { seq![steps.last()] } else { Seq::empty() })
    }
}

proof fn lemma_batch_draws_add(a: Seq<DrawStep>, b: Seq<DrawStep>)
    ensures
        batch_draws(a + b) == batch_draws(a) + batch_draws(b),
    decreases b.len(),
{
    if b.len() == 0 {
        assert(a + b =~= a);
        assert(batch_draws(a) + batch_draws(b) =~= batch_draws(a));
    } else {
        assert((a + b).drop_last() =~= a + b.drop_last());
        lemma_batch_draws_add(a, b.drop_last());
        assert(batch_draws(a + b) =~= batch_draws(a) + batch_draws(b));
    }
}

proof fn lemma_batch_draws_of_batches(from: nat, to: nat)
    requires
        from <= to,
    ensures
        batch_draws(batch_steps(from, to)) == batch_steps(from, to),
    decreases to - from,
{
    if from < to {
        lemma_batch_draws_of_batches(from, (to - 1) as nat);
        assert(batch_steps(from, to).drop_last() =~= batch_steps(from, (to - 1) as nat));
        assert(batch_steps(from, (to - 1) as nat) + seq![batch_steps(from, to).last()] =~= batch_steps(from, to));
    } else {
        assert(batch_steps(from, to) =~= Seq::<DrawStep>::empty());
    }
}

/// Every regular batch from `b` on is drawn exactly once, in order, from
/// layer `l` on.
pub proof fn lemma_steps_draw_every_batch_in_order(
    ends: Seq<u32>,
    layers: Seq<TextLayer>,
    active: Seq<bool>,
    active_layers: usize,
    renderer_layers: usize,
    l: nat,
    b: nat,
)
    requires
        b <= ends.len(),
    ensures
        batch_draws(steps_from(ends, layers, active, active_layers, renderer_layers, l, b)) == batch_steps(b, ends.len()),
    decreases layers.len() - l,
{
    if l >= layers.len() {
        lemma_batch_draws_of_batches(b, ends.len());
    } else {
        let limit = layers[l as int].instance_end;
        let e = run_end(ends, b, limit);
        lemma_run_end_bounds(ends, b, limit);
        let t = if text_layer_drawn(layers, active, active_layers, renderer_layers, l as int) {
            seq![DrawStep::Text(l as usize)]
        } else {
            Seq::empty()
        };
        let rest = steps_from(ends, layers, active, active_layers, renderer_layers, l + 1, e);
        lemma_steps_draw_every_batch_in_order(ends, layers, active, active_layers, renderer_layers, l + 1, e);
        lemma_batch_draws_add(batch_steps(b, e) + t, rest);
        lemma_batch_draws_add(batch_steps(b, e), t);
        lemma_batch_draws_of_batches(b, e);
        if t.len() > 0 {
            assert(t.drop_last() =~= Seq::<DrawStep>::empty());
            assert(!(t.last() is Batch));
            assert(batch_draws(t.drop_last()) == Seq::<DrawStep>::empty());
        }
        assert(batch_draws(t) =~= Seq::<DrawStep>::empty());
        assert(batch_steps(b, e) + batch_steps(e, ends.len()) =~= batch_steps(b, ends.len()));
        assert(batch_steps(b, e) + Seq::<DrawStep>::empty() =~= batch_steps(b, e));
    }
}

/// From layer `l` on, layer `k`'s text is drawn exactly when `k` is one of
/// those layers and `text_layer_drawn` holds for it.
pub proof fn lemma_steps_draw_text_when_drawn(
    ends: Seq<u32>,
    layers: Seq<TextLayer>,
    active: Seq<bool>,
    active_layers: usize,
    renderer_layers: usize,
    l: nat,
    b: nat,
    k: usize,
)
    requires
        b <= ends.len(),
    ensures
        steps_from(ends, layers, active, active_layers, renderer_layers, l, b).contains(DrawStep::Text(k))
            <==> (l <= k < layers.len() && text_layer_drawn(layers, active, active_layers, renderer_layers, k as int)),
    decreases layers.len() - l,
{
    let s = steps_from(ends, layers, active, active_layers, renderer_layers, l, b);
    if l >= layers.len() {
        if s.contains(DrawStep::Text(k)) {
            let i = choose|i: int| 0 <= i < s.len() && s[i] == DrawStep::Text(k);
            assert(s[i] is Batch);
        }
    } else {
        let limit = layers[l as int].instance_end;
        let e = run_end(ends, b, limit);
        lemma_run_end_bounds(ends, b, limit);
        let t = if text_layer_drawn(layers, active, active_layers, renderer_layers, l as int) {
            seq![DrawStep::Text(l as usize)]
        } else {
            Seq::empty()
        };
        let bs = batch_steps(b, e);
        let rest = steps_from(ends, layers, active, active_layers, renderer_layers, l + 1, e);
        lemma_steps_draw_text_when_drawn(ends, layers, active, active_layers, renderer_layers, l + 1, e, k);
        assert(s == bs + t + rest);
        if s.contains(DrawStep::Text(k)) {
            let i = choose|i: int| 0 <= i < s.len() && s[i] == DrawStep::Text(k);
            if i < bs.len() {
                assert(s[i] == bs[i]);
            } else if i < bs.len() + t.len() {
                assert(s[i] == t[i - bs.len()]);
            } else {
                assert(s[i] == rest[i - bs.len() - t.len()]);
                assert(rest.contains(DrawStep::Text(k)));
            }
        }
        if l <= k < layers.len() && text_layer_drawn(layers, active, active_layers, renderer_layers, k as int) {
            if k == l {
                assert(s[bs.len() as int] == DrawStep::Text(k));
            } else {
                let j = choose|j: int| 0 <= j < rest.len() && rest[j] == DrawStep::Text(k);
                assert(s[bs.len() + t.len() + j] == DrawStep::Text(k));
            }
        }
    }
}

} // verus!
