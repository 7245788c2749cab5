//! The redraw scheduler: decides after each event and each frame whether
//! the event loop polls, sleeps until a deadline, or waits for input.
//!
//! Times are nanoseconds on a monotonic clock, durations nanoseconds.
use vstd::prelude::*;

verus! {

#[derive(Debug, Clone, Copy, PartialEq, Eq, Structural)]
pub enum SchedulerState {
    Idle,
    Dirty,
    Animating,
    WaitingUntil,
}

#[derive(Debug, Clone, Copy, PartialEq, Eq, Structural)]
pub enum RedrawReason {
    Input,
    Resize,
    Animation,
    WidgetRequest,
    Command,
    FirstFrame,
}

/// How long input keeps the loop awake, and the cursor blink period, in
/// nanoseconds.
#[derive(Debug, Clone, Copy, PartialEq, Eq, Structural)]
pub struct SchedulerConfig {
    pub interaction_linger: u64,
    pub blink_period: u64,
    pub idle_after_redraw: bool,
}

impl Default for SchedulerConfig {
    /// 150 ms linger, 500 ms blink period.
    fn default() -> (r: Self)
        ensures
            r == SchedulerConfig::default_spec(),
    {
        SchedulerConfig {
            interaction_linger: 150_000_000,
            blink_period: 500_000_000,
            idle_after_redraw: true,
        }
    }
}

impl SchedulerConfig {
    pub open spec fn default_spec() -> SchedulerConfig {
        SchedulerConfig {
            interaction_linger: 150_000_000,
            blink_period: 500_000_000,
            idle_after_redraw: true,
        }
    }
}

#[derive(Debug, Clone, Copy, PartialEq, Eq, Structural)]
pub struct FrameSchedulerStats {
    pub requested_redraws: u64,
    pub immediate_redraws: u64,
    pub wait_transitions: u64,
    pub wait_until_transitions: u64,
    pub poll_transitions: u64,
    pub idle_transitions: u64,
}

/// What the event loop should do next.
#[derive(Debug, Clone, Copy, PartialEq, Eq, Structural)]
pub enum FrameControl {
    /// Run again at once.
    Poll,
    /// Sleep until an event arrives.
    Wait,
    /// Sleep until the given time, or an event.
    WaitUntil(u64),
}

/// The state of a [`FrameScheduler`] as plain values.
pub struct SchedulerModel {
    pub config: SchedulerConfig,
    pub state: SchedulerState,
    pub dirty: bool,
    pub first_frame: bool,
    pub last_interaction: u64,
    pub next_deadline: Option<u64>,
    pub repaint_interval: Option<u64>,
    pub stats: FrameSchedulerStats,
}

impl SchedulerModel {
    /// A redraw is wanted at `now`: the first frame, a dirty frame, or a due
    /// deadline.
    pub open spec fn wants_redraw_at(self, now: u64) -> bool {
        self.first_frame || self.dirty || (self.next_deadline matches Some(d) && now >= d)
    }

    /// Time since the last interaction, zero when `now` is before it.
    pub open spec fn since_interaction(self, now: u64) -> u64 {
        if now >= self.last_interaction { (now - self.last_interaction) as u64 } else { 0 }
    }

    /// The linger deadline and every repaint deadline fit in a `u64`, and a
    /// repaint interval always comes with a deadline.
    pub open spec fn wf(self) -> bool {
        &&& self.last_interaction + self.config.interaction_linger <= u64::MAX
        &&& self.repaint_interval is Some ==> self.next_deadline is Some
    }
}

#[derive(Debug, Clone)]
pub struct FrameScheduler {
    config: SchedulerConfig,
    state: SchedulerState,
    dirty: bool,
    first_frame: bool,
    last_interaction: u64,
    next_deadline: Option<u64>,
    repaint_interval: Option<u64>,
    stats: FrameSchedulerStats,
}

impl View for FrameScheduler {
    type V = SchedulerModel;

    closed spec fn view(&self) -> SchedulerModel {
        SchedulerModel {
            config: self.config,
            state: self.state,
            dirty: self.dirty,
            first_frame: self.first_frame,
            last_interaction: self.last_interaction,
            next_deadline: self.next_deadline,
            repaint_interval: self.repaint_interval,
            stats: self.stats,
        }
    }
}

impl FrameScheduler {
    /// A scheduler with the default configuration; the first frame is due.
    pub fn new(now: u64) -> (r: Self)
        requires
            now + 150_000_000 <= u64::MAX,
        ensures
            r@.config == SchedulerConfig::default_spec(),
            r@.state == SchedulerState::Dirty,
            r@.dirty && r@.first_frame,
            r@.last_interaction == now,
            r@.next_deadline == Some(now),
            r@.repaint_interval is None,
            r@.stats == (FrameSchedulerStats {
                requested_redraws: 1,
                immediate_redraws: 1,
                wait_transitions: 0,
                wait_until_transitions: 0,
                poll_transitions: 0,
                idle_transitions: 0,
            }),
            r@.wf(),
            forall|t: u64| #[trigger] r@.wants_redraw_at(t),
    {
        Self::with_config(now, SchedulerConfig::default())
    }

    /// A scheduler with `config`; the first frame is due.
    pub fn with_config(now: u64, config: SchedulerConfig) -> (r: Self)
        requires
            now + config.interaction_linger <= u64::MAX,
        ensures
            r@.config == config,
            r@.state == SchedulerState::Dirty,
            r@.dirty && r@.first_frame,
            r@.last_interaction == now,
            r@.next_deadline == Some(now),
            r@.repaint_interval is None,
            r@.stats == (FrameSchedulerStats {
                requested_redraws: 1,
                immediate_redraws: 1,
                wait_transitions: 0,
                wait_until_transitions: 0,
                poll_transitions: 0,
                idle_transitions: 0,
            }),
            r@.wf(),
            forall|t: u64| #[trigger] r@.wants_redraw_at(t),
    {
        FrameScheduler {
            config,
            state: SchedulerState::Dirty,
            dirty: true,
            first_frame: true,
            last_interaction: now,
            next_deadline: Some(now),
            repaint_interval: None,
            stats: FrameSchedulerStats {
                requested_redraws: 1,
                immediate_redraws: 1,
                wait_transitions: 0,
                wait_until_transitions: 0,
                poll_transitions: 0,
                idle_transitions: 0,
            },
        }
    }

    pub fn state(&self) -> (r: SchedulerState)
        ensures
            r == self@.state,
    {
        self.state
    }

    pub fn config(&self) -> (r: SchedulerConfig)
        ensures
            r == self@.config,
    {
        self.config
    }

    pub fn stats(&self) -> (r: &FrameSchedulerStats)
        ensures
            *r == self@.stats,
    {
        &self.stats
    }

    /// Marks the frame dirty and due at `now`; input, resizes and commands
    /// also restart the interaction linger.
    pub fn mark_dirty(&mut self, reason: RedrawReason, now: u64)
        requires
            old(self)@.wf(),
            old(self)@.stats.requested_redraws < u64::MAX,
            now + old(self)@.config.interaction_linger <= u64::MAX,
        ensures
            final(self)@.wf(),
            final(self)@.dirty,
            final(self)@.state == SchedulerState::Dirty,
            final(self)@.next_deadline == Some(now),
            final(self)@.stats == (FrameSchedulerStats {
                requested_redraws: (old(self)@.stats.requested_redraws + 1) as u64,
                ..old(self)@.stats
            }),
            final(self)@.last_interaction == match reason {
                RedrawReason::Input | RedrawReason::Resize | RedrawReason::Command => now,
                _ => old(self)@.last_interaction,
            },
            final(self)@.config == old(self)@.config,
            final(self)@.first_frame == old(self)@.first_frame,
            final(self)@.repaint_interval == old(self)@.repaint_interval,
            forall|t: u64| #[trigger] final(self)@.wants_redraw_at(t),
    {
        self.dirty = true;
        self.state = SchedulerState::Dirty;
        self.next_deadline = Some(now);
        self.stats.requested_redraws = self.stats.requested_redraws + 1;
        match reason {
            RedrawReason::Input | RedrawReason::Resize | RedrawReason::Command => {
                self.last_interaction = now;
            },
            _ => {},
        }
    }

    /// Continuous widgets repaint at the blink period.
    pub fn set_continuous(&mut self, continuous: bool, now: u64)
        requires
            old(self)@.wf(),
            now + old(self)@.config.blink_period <= u64::MAX,
        ensures
            final(self)@.wf(),
            final(self)@.repaint_interval == if continuous { Some(old(self)@.config.blink_period) } else { None::<u64> },
            final(self)@.dirty == old(self)@.dirty,
            final(self)@.first_frame == old(self)@.first_frame,
            final(self)@.stats == old(self)@.stats,
    {
        let interval = if continuous { Some(self.config.blink_period) } else { None };
        self.set_repaint_interval(interval, now);
    }

    /// Sets the repaint interval; with one, the deadline becomes the earlier
    /// of the current one and `now + interval`, and a clean scheduler past
    /// its first frame waits for it.
    pub fn set_repaint_interval(&mut self, interval: Option<u64>, now: u64)
        requires
            old(self)@.wf(),
            interval matches Some(i) ==> now + i <= u64::MAX,
        ensures
            final(self)@.wf(),
            final(self)@.repaint_interval == interval,
            final(self)@.next_deadline == match (interval, old(self)@.next_deadline) {
                (None, d) => d,
                (Some(i), None) => Some((now + i) as u64),
                (Some(i), Some(d)) => if d > now + i { Some((now + i) as u64) } else { Some(d) },
            },
            final(self)@.state == if interval is Some && !old(self)@.dirty && !old(self)@.first_frame { SchedulerState::WaitingUntil } else { old(self)@.state },
            final(self)@.dirty == old(self)@.dirty,
            final(self)@.first_frame == old(self)@.first_frame,
            final(self)@.last_interaction == old(self)@.last_interaction,
            final(self)@.config == old(self)@.config,
            final(self)@.stats == old(self)@.stats,
            old(self)@.next_deadline matches Some(d) ==> final(self)@.next_deadline matches Some(n) && n <= d,
            forall|t: u64| #[trigger] old(self)@.wants_redraw_at(t) ==> final(self)@.wants_redraw_at(t),
            interval is None ==> forall|t: u64| #[trigger] final(self)@.wants_redraw_at(t) == old(self)@.wants_redraw_at(t),
            interval matches Some(i) ==> forall|t: u64| #[trigger] final(self)@.wants_redraw_at(t)
                == (old(self)@.wants_redraw_at(t) || t >= now + i),
            final(self)@.state == old(self)@.state || final(self)@.state == SchedulerState::WaitingUntil,
    {
        self.repaint_interval = interval;
        match interval {
            None => {},
            Some(i) => {
                let desired = now + i;
                let replace = match self.next_deadline {
                    None => true,
                    Some(d) => d > desired,
                };
                if replace {
                    self.next_deadline = Some(desired);
                }
                if !self.dirty && !self.first_frame {
                    self.state = SchedulerState::WaitingUntil;
                }
            },
        }
    }

    /// Whether a frame should be drawn at `now`.
    pub fn wants_redraw(&self, now: u64) -> (r: bool)
        ensures
            r == self@.wants_redraw_at(now),
    {
        self.first_frame || self.dirty || match self.next_deadline {
            Some(d) => now >= d,
            None => false,
        }
    }

    /// After a frame; a still-continuous widget keeps repainting at the
    /// blink period.
    pub fn after_redraw(&mut self, now: u64, still_continuous: bool)
        requires
            old(self)@.wf(),
            now + old(self)@.config.blink_period <= u64::MAX,
        ensures
            final(self)@ == Self::after_redraw_model(old(self)@, now, if still_continuous { Some(old(self)@.config.blink_period) } else { None::<u64> }),
            final(self)@.wf(),
    {
        let interval = if still_continuous { Some(self.config.blink_period) } else { None };
        self.after_redraw_with_interval(now, interval);
    }

    /// The scheduler after a frame drawn at `now` that asked to repaint after
    /// `interval`: with an interval it waits until `now + interval`; without
    /// one it lingers until `last_interaction + interaction_linger` while that
    /// is still ahead, and idles otherwise.
    pub open spec fn after_redraw_model(m: SchedulerModel, now: u64, interval: Option<u64>) -> SchedulerModel {
        let cleared = SchedulerModel { first_frame: false, dirty: false, repaint_interval: interval, ..m };
        match interval {
            Some(i) => SchedulerModel {
                state: SchedulerState::WaitingUntil,
                next_deadline: Some((now + i) as u64),
                ..cleared
            },
            None => if m.since_interaction(now) < m.config.interaction_linger {
                SchedulerModel {
                    state: SchedulerState::WaitingUntil,
                    next_deadline: Some((m.last_interaction + m.config.interaction_linger) as u64),
                    ..cleared
                }
            } else {
                SchedulerModel { state: SchedulerState::Idle, next_deadline: None, ..cleared }
            },
        }
    }

    pub fn after_redraw_with_interval(&mut self, now: u64, repaint_interval: Option<u64>)
        requires
            old(self)@.wf(),
            repaint_interval matches Some(i) ==> now + i <= u64::MAX,
        ensures
            final(self)@ == Self::after_redraw_model(old(self)@, now, repaint_interval),
            final(self)@.wf(),
            final(self)@.stats == old(self)@.stats,
            repaint_interval matches Some(d) ==> final(self)@.state == SchedulerState::WaitingUntil
                && forall|t: u64| #[trigger] final(self)@.wants_redraw_at(t) == (t >= now + d),
            repaint_interval is None && old(self)@.since_interaction(now) < old(self)@.config.interaction_linger
                ==> final(self)@.state == SchedulerState::WaitingUntil
                && forall|t: u64| #[trigger] final(self)@.wants_redraw_at(t)
                    == (t >= old(self)@.last_interaction + old(self)@.config.interaction_linger),
            repaint_interval is None && old(self)@.since_interaction(now) >= old(self)@.config.interaction_linger
                ==> final(self)@.state == SchedulerState::Idle && forall|t: u64| !#[trigger] final(self)@.wants_redraw_at(t),
    {
        self.first_frame = false;
        self.dirty = false;
        self.repaint_interval = repaint_interval;
        match repaint_interval {
            Some(i) => {
                self.state = SchedulerState::WaitingUntil;
                self.next_deadline = Some(now + i);
            },
            None => {
                let since = now.saturating_sub(self.last_interaction);
                if since < self.config.interaction_linger {
                    self.state = SchedulerState::WaitingUntil;
                    self.next_deadline = Some(self.last_interaction + self.config.interaction_linger);
                } else {
                    self.state = SchedulerState::Idle;
                    self.next_deadline = None;
                }
            },
        }
    }

    /// What the event loop does at `now` in state `m`: poll while a redraw is
    /// wanted or a button is held; otherwise sleep until the repaint
    /// deadline, or until the interaction linger ends, or wait for input.
    pub open spec fn control_decision(m: SchedulerModel, now: u64, mouse_active: bool) -> FrameControl {
        if m.wants_redraw_at(now) || mouse_active {
            FrameControl::Poll
        } else if m.repaint_interval is Some {
            FrameControl::WaitUntil(match m.next_deadline {
                Some(d) => d,
                None => (now + m.repaint_interval->0) as u64,
            })
        } else if m.since_interaction(now) < m.config.interaction_linger {
            FrameControl::WaitUntil((m.last_interaction + m.config.interaction_linger) as u64)
        } else {
            FrameControl::Wait
        }
    }

    /// Decides what the event loop does at `now`. It polls while a redraw is
    /// wanted or a mouse button is held; otherwise it sleeps until the
    /// repaint deadline, or until the interaction linger runs out, or waits
    /// for input. Every call counts exactly one transition.
    pub fn control_flow(&mut self, now: u64, mouse_active: bool) -> (r: FrameControl)
        requires
            old(self)@.wf(),
            old(self)@.stats.poll_transitions < u64::MAX,
            old(self)@.stats.wait_until_transitions < u64::MAX,
            old(self)@.stats.wait_transitions < u64::MAX,
            old(self)@.stats.idle_transitions < u64::MAX,
        ensures
            final(self)@.wf(),
            r == Self::control_decision(old(self)@, now, mouse_active),
            (r == FrameControl::Poll) == (old(self)@.wants_redraw_at(now) || mouse_active),
            r matches FrameControl::WaitUntil(d) ==> d > now,
            r == FrameControl::Poll ==> final(self)@.state == (if mouse_active { SchedulerState::Animating } else { SchedulerState::Dirty })
                && final(self)@.stats == (FrameSchedulerStats { poll_transitions: (old(self)@.stats.poll_transitions + 1) as u64, ..old(self)@.stats })
                && final(self)@.next_deadline == old(self)@.next_deadline,
            r matches FrameControl::WaitUntil(d) ==> final(self)@.state == SchedulerState::WaitingUntil
                && final(self)@.stats == (FrameSchedulerStats { wait_until_transitions: (old(self)@.stats.wait_until_transitions + 1) as u64, ..old(self)@.stats })
                && (old(self)@.repaint_interval is Some ==> old(self)@.next_deadline == Some(d) && final(self)@.next_deadline == Some(d))
                && (old(self)@.repaint_interval is None ==> d == old(self)@.last_interaction + old(self)@.config.interaction_linger && final(self)@.next_deadline == Some(d)),
            r == FrameControl::Wait ==> final(self)@.state == SchedulerState::Idle
                && final(self)@.next_deadline is None
                && old(self)@.repaint_interval is None
                && old(self)@.since_interaction(now) >= old(self)@.config.interaction_linger
                && final(self)@.stats == (FrameSchedulerStats {
                    wait_transitions: (old(self)@.stats.wait_transitions + 1) as u64,
                    idle_transitions: (old(self)@.stats.idle_transitions + 1) as u64,
                    ..old(self)@.stats
                }),
            r matches FrameControl::WaitUntil(d) ==> forall|t: u64| #[trigger] final(self)@.wants_redraw_at(t) == (t >= d),
            r == FrameControl::Wait ==> forall|t: u64| !#[trigger] final(self)@.wants_redraw_at(t),
            final(self)@.dirty == old(self)@.dirty,
            final(self)@.first_frame == old(self)@.first_frame,
            final(self)@.last_interaction == old(self)@.last_interaction,
            final(self)@.repaint_interval == old(self)@.repaint_interval,
            final(self)@.config == old(self)@.config,
    {
        let deadline_due = match self.next_deadline {
            Some(d) => now >= d,
            None => false,
        };
        if self.first_frame || self.dirty || mouse_active || deadline_due {
            self.state = if mouse_active { SchedulerState::Animating } else { SchedulerState::Dirty };
            self.stats.poll_transitions = self.stats.poll_transitions + 1;
            return FrameControl::Poll;
        }
        match self.repaint_interval {
            Some(interval) => {
                let deadline = match self.next_deadline {
                    Some(d) => d,
                    None => now + interval,
                };
                self.state = SchedulerState::WaitingUntil;
                self.stats.wait_until_transitions = self.stats.wait_until_transitions + 1;
                return FrameControl::WaitUntil(deadline);
            },
            None => {},
        }
        if now.saturating_sub(self.last_interaction) < self.config.interaction_linger {
            let deadline = self.last_interaction + self.config.interaction_linger;
            self.next_deadline = Some(deadline);
            self.state = SchedulerState::WaitingUntil;
            self.stats.wait_until_transitions = self.stats.wait_until_transitions + 1;
            return FrameControl::WaitUntil(deadline);
        }
        self.state = SchedulerState::Idle;
        self.next_deadline = None;
        self.stats.wait_transitions = self.stats.wait_transitions + 1;
        self.stats.idle_transitions = self.stats.idle_transitions + 1;
        FrameControl::Wait
    }
}


/// A frame drawn without a repaint request once the interaction linger has
/// run out leaves the scheduler idle, and no later time wants a redraw.
pub proof fn lemma_clean_redraw_goes_idle(m: SchedulerModel, now: u64)
    requires
        m.wf(),
        m.since_interaction(now) >= m.config.interaction_linger,
    ensures
        FrameScheduler::after_redraw_model(m, now, None).state == SchedulerState::Idle,
        forall|t: u64| !#[trigger] FrameScheduler::after_redraw_model(m, now, None).wants_redraw_at(t),
{
}

/// After an interaction at `now` (as `mark_dirty` records for input, a
/// resize or a command), a frame drawn before the linger has run out, with
/// no repaint request, leaves the scheduler waiting until the linger ends.
pub proof fn lemma_recent_interaction_lingers(m: SchedulerModel, now: u64, t: u64)
    requires
        m.wf(),
        m.last_interaction == now,
        now <= t,
        t - now < m.config.interaction_linger,
    ensures
        FrameScheduler::after_redraw_model(m, t, None).state == SchedulerState::WaitingUntil,
        FrameScheduler::after_redraw_model(m, t, None).next_deadline == Some((now + m.config.interaction_linger) as u64),
{
}

/// A frame drawn with a repaint interval wants the next redraw exactly from
/// `now + interval` on.
pub proof fn lemma_interval_redraw_is_due_after_interval(m: SchedulerModel, now: u64, interval: u64, t: u64)
    requires
        now + interval <= u64::MAX,
    ensures
        FrameScheduler::after_redraw_model(m, now, Some(interval)).wants_redraw_at(t) == (t >= now + interval),
        FrameScheduler::after_redraw_model(m, now, Some(interval)).state == SchedulerState::WaitingUntil,
{
}

/// A frame drawn with a repaint interval sleeps until that interval has
/// passed: until then, with no button held, the loop waits for the deadline
/// instead of polling.
pub proof fn lemma_timed_repaint_sleeps_until_deadline(m: SchedulerModel, now: u64, interval: u64, t: u64)
    requires
        now + interval <= u64::MAX,
        t < now + interval,
    ensures
        FrameScheduler::control_decision(FrameScheduler::after_redraw_model(m, now, Some(interval)), t, false)
            == FrameControl::WaitUntil((now + interval) as u64),
{
}

/// Once the linger after the last interaction has run out, a frame drawn
/// without a repaint request leaves the loop waiting for input, at every
/// later time while no button is held.
pub proof fn lemma_idle_frame_waits_for_input(m: SchedulerModel, now: u64, t: u64)
    requires
        m.wf(),
        m.since_interaction(now) >= m.config.interaction_linger,
        t >= now,
    ensures
        FrameScheduler::control_decision(FrameScheduler::after_redraw_model(m, now, None), t, false)
            == FrameControl::Wait,
{
}

} // verus!
