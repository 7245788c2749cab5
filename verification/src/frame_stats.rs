//! Per-frame statistics gathered by the renderer.
use vstd::prelude::*;
use crate::command::CommandStats;
use crate::scratch::FrameScratchStats;

verus! {

/// Counters kept while painting a frame.
#[derive(Debug, Clone, Copy, PartialEq, Eq, Structural)]
pub struct PaintStats {
    pub pushed_instances: usize,
    pub skipped_instances: usize,
    pub culled_by_clip: usize,
    pub regular_batches: usize,
    pub overlay_batches: usize,
    pub instance_capacity_growths: usize,
    pub max_clip_depth: usize,
}

impl Default for PaintStats {
    fn default() -> (r: Self)
        ensures
            r == PaintStats::zero(),
    {
        PaintStats {
            pushed_instances: 0,
            skipped_instances: 0,
            culled_by_clip: 0,
            regular_batches: 0,
            overlay_batches: 0,
            instance_capacity_growths: 0,
            max_clip_depth: 0,
        }
    }
}

impl PaintStats {
    pub open spec fn zero() -> PaintStats {
        PaintStats {
            pushed_instances: 0,
            skipped_instances: 0,
            culled_by_clip: 0,
            regular_batches: 0,
            overlay_batches: 0,
            instance_capacity_growths: 0,
            max_clip_depth: 0,
        }
    }
}

/// What the last frame drew.
#[derive(Debug, Clone, Copy, PartialEq, Eq, Structural)]
pub struct FrameStats {
    pub frame_index: u64,
    pub instances: usize,
    pub regular_instances: usize,
    pub overlay_instances: usize,
    pub batches: usize,
    pub text_buffers: usize,
    pub text_areas: usize,
    pub paint: PaintStats,
    pub commands: CommandStats,
    pub scratch: FrameScratchStats,
}

impl FrameStats {
    /// Advances the frame index and zeroes the per-frame counts; the paint,
    /// command and scratch records stay until replaced.
    pub fn next_frame(&mut self)
        requires
            old(self).frame_index < u64::MAX,
        ensures
            *final(self) == (FrameStats {
                frame_index: (old(self).frame_index + 1) as u64,
                instances: 0,
                regular_instances: 0,
                overlay_instances: 0,
                batches: 0,
                text_buffers: 0,
                text_areas: 0,
                ..*old(self)
            }),
    {
        self.frame_index = self.frame_index + 1;
        self.instances = 0;
        self.regular_instances = 0;
        self.overlay_instances = 0;
        self.batches = 0;
        self.text_buffers = 0;
        self.text_areas = 0;
    }

    /// Records the painted instances: at most `instances` of them regular,
    /// the rest overlay.
    pub fn record_paint(&mut self, instances: usize, regular_count: usize, batches: usize, paint: &PaintStats)
        ensures
            *final(self) == (FrameStats {
                instances,
                regular_instances: if regular_count <= instances { regular_count } else { instances },
                overlay_instances: (instances - if regular_count <= instances { regular_count } else { instances }) as usize,
                batches,
                paint: *paint,
                ..*old(self)
            }),
            final(self).regular_instances + final(self).overlay_instances == instances,
    {
        self.instances = instances;
        self.regular_instances = if regular_count < instances { regular_count } else { instances };
        self.overlay_instances = instances - self.regular_instances;
        self.batches = batches;
        self.paint = *paint;
    }

    pub fn record_text(&mut self, buffers: usize, areas: usize)
        ensures
            *final(self) == (FrameStats { text_buffers: buffers, text_areas: areas, ..*old(self) }),
    {
        self.text_buffers = buffers;
        self.text_areas = areas;
    }

    pub fn record_commands(&mut self, commands: &CommandStats)
        ensures
            *final(self) == (FrameStats { commands: *commands, ..*old(self) }),
    {
        self.commands = *commands;
    }

    pub fn record_scratch(&mut self, scratch: FrameScratchStats)
        ensures
            *final(self) == (FrameStats { scratch, ..*old(self) }),
    {
        self.scratch = scratch;
    }
}

impl Default for FrameStats {
    fn default() -> (r: Self)
        ensures
            r.frame_index == 0 && r.instances == 0 && r.regular_instances == 0 && r.overlay_instances == 0
                && r.batches == 0 && r.text_buffers == 0 && r.text_areas == 0 && r.paint == PaintStats::zero(),
    {
        FrameStats {
            frame_index: 0,
            instances: 0,
            regular_instances: 0,
            overlay_instances: 0,
            batches: 0,
            text_buffers: 0,
            text_areas: 0,
            paint: PaintStats::default(),
            commands: CommandStats::default(),
            scratch: FrameScratchStats::default(),
        }
    }
}

} // verus!
