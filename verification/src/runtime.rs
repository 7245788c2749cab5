//! The decisions of the windowed event loop, apart from the window, the
//! renderer and the clock that the caller owns.
use vstd::prelude::*;
use crate::scheduler::{FrameControl, FrameScheduler, RedrawReason};

verus! {

/// The kinds of window event the loop reacts to.
#[derive(Debug, Clone, Copy, PartialEq, Eq, Structural)]
pub enum WindowEventKind {
    CloseRequested,
    Resized,
    RedrawRequested,
    CursorMoved,
    MouseInput,
    KeyboardInput,
    MouseWheel,
    Other,
}

/// What the loop does about one window event: leave, resize the surface,
/// draw now, and, when a window exists, mark the scheduler dirty for the
/// given reason and ask the window for a redraw.
#[derive(Debug, Clone, Copy, PartialEq, Eq, Structural)]
pub struct EventResponse {
    pub exit: bool,
    pub resize_surface: bool,
    pub redraw_now: bool,
    pub dirty: Option<RedrawReason>,
}

pub open spec fn event_response_spec(kind: WindowEventKind) -> EventResponse {
    let none = EventResponse { exit: false, resize_surface: false, redraw_now: false, dirty: None };
    match kind {
        WindowEventKind::CloseRequested => EventResponse { exit: true, ..none },
        WindowEventKind::Resized => EventResponse { resize_surface: true, dirty: Some(RedrawReason::Resize), ..none },
        WindowEventKind::RedrawRequested => EventResponse { redraw_now: true, ..none },
        WindowEventKind::CursorMoved | WindowEventKind::MouseInput | WindowEventKind::KeyboardInput
        | WindowEventKind::MouseWheel => EventResponse { dirty: Some(RedrawReason::Input), ..none },
        WindowEventKind::Other => none,
    }
}

/// Whether `kind` is pointer or keyboard input.
pub open spec fn is_input_event(kind: WindowEventKind) -> bool {
    ||| kind is CursorMoved
    ||| kind is MouseInput
    ||| kind is KeyboardInput
    ||| kind is MouseWheel
}

/// Input events mark the scheduler dirty for input and do nothing else;
/// no other event is dirty for input. A resize marks it dirty for the
/// resize, closing the window is the only event that exits, and a redraw
/// request the only one that draws at once.
pub proof fn lemma_input_events_mark_dirty(kind: WindowEventKind)
    ensures
        (event_response_spec(kind).dirty == Some(RedrawReason::Input)) == is_input_event(kind),
        is_input_event(kind) ==> !event_response_spec(kind).exit && !event_response_spec(kind).resize_surface
            && !event_response_spec(kind).redraw_now,
        event_response_spec(kind).exit == (kind is CloseRequested),
        event_response_spec(kind).redraw_now == (kind is RedrawRequested),
        (event_response_spec(kind).dirty == Some(RedrawReason::Resize)) == (kind is Resized),
        event_response_spec(kind).resize_surface == (kind is Resized),
{
}

pub fn respond_to_window_event(kind: WindowEventKind) -> (r: EventResponse)
    ensures
        r == event_response_spec(kind),
{
    let none = EventResponse { exit: false, resize_surface: false, redraw_now: false, dirty: None };
    match kind {
        WindowEventKind::CloseRequested => EventResponse { exit: true, ..none },
        WindowEventKind::Resized => EventResponse {
            resize_surface: true,
            dirty: Some(RedrawReason::Resize),
            ..none
        },
        WindowEventKind::RedrawRequested => EventResponse { redraw_now: true, ..none },
        WindowEventKind::CursorMoved | WindowEventKind::MouseInput | WindowEventKind::KeyboardInput
        | WindowEventKind::MouseWheel => EventResponse { dirty: Some(RedrawReason::Input), ..none },
        WindowEventKind::Other => none,
    }
}

/// Whether a frame may be drawn at `now` under a frame cap: without a
/// budget always, with one once `budget` nanoseconds have passed since the
/// last frame (a clock that went back counts as no time).
pub fn frame_due(now: u64, last_frame: u64, budget: Option<u64>) -> (r: bool)
    ensures
        r == match budget {
            None => true,
            Some(b) => (if now >= last_frame { now - last_frame } else { 0 }) >= b,
        },
{
    match budget {
        None => true,
        Some(b) => now.saturating_sub(last_frame) >= b,
    }
}

/// Before the loop sleeps: takes the widgets' repaint interval, then
/// decides whether to ask for a redraw and how to sleep. A redraw is asked
/// for exactly when the loop is told to poll.
pub fn request_frame(scheduler: &mut FrameScheduler, repaint_interval: Option<u64>, now: u64, mouse_active: bool) -> (r: (bool, FrameControl))
    requires
        old(scheduler)@.wf(),
        repaint_interval matches Some(i) ==> now + i <= u64::MAX,
        old(scheduler)@.stats.poll_transitions < u64::MAX,
        old(scheduler)@.stats.wait_until_transitions < u64::MAX,
        old(scheduler)@.stats.wait_transitions < u64::MAX,
        old(scheduler)@.stats.idle_transitions < u64::MAX,
    ensures
        final(scheduler)@.wf(),
        r.0 == (r.1 == FrameControl::Poll),
        r.0 == (mouse_active || old(scheduler)@.wants_redraw_at(now) || (repaint_interval matches Some(i) && now + i <= now)),
        r.1 matches FrameControl::WaitUntil(d) ==> d > now,
        final(scheduler)@.repaint_interval == repaint_interval,
        final(scheduler)@.dirty == old(scheduler)@.dirty,
        final(scheduler)@.first_frame == old(scheduler)@.first_frame,
{
    scheduler.set_repaint_interval(repaint_interval, now);
    let wants = scheduler.wants_redraw(now) || mouse_active;
    let control = scheduler.control_flow(now, mouse_active);
    (wants, control)
}

/// The shortest of the repaint intervals that widgets asked for, in
/// nanoseconds; `None` when none asked.
pub fn shortest_interval(intervals: &[Option<u64>]) -> (r: Option<u64>)
    ensures
        r is None <==> forall|i: int| 0 <= i < intervals@.len() ==> #[trigger] intervals@[i] is None,
        r matches Some(m) ==> exists|i: int| 0 <= i < intervals@.len() && #[trigger] intervals@[i] == Some(m),
        r matches Some(m) ==> forall|i: int| 0 <= i < intervals@.len() && #[trigger] intervals@[i] is Some
            ==> m <= intervals@[i]->0,
{
    let mut best: Option<u64> = None;
    let mut k: usize = 0;
    while k < intervals.len()
        invariant
            k <= intervals@.len(),
            best is None <==> forall|i: int| 0 <= i < k ==> #[trigger] intervals@[i] is None,
            best matches Some(m) ==> exists|i: int| 0 <= i < k && #[trigger] intervals@[i] == Some(m),
            best matches Some(m) ==> forall|i: int| 0 <= i < k && #[trigger] intervals@[i] is Some
                ==> m <= intervals@[i]->0,
        decreases intervals@.len() - k,
    {
        match intervals[k] {
            Some(v) => {
                match best {
                    Some(m) => {
                        if v < m {
                            best = Some(v);
                        }
                    },
                    None => {
                        best = Some(v);
                    },
                }
            },
            None => {},
        }
        assert(intervals@[k as int] == intervals[k as int]);
        k = k + 1;
    }
    best
}

/// Whether any widget asked to be updated continuously.
pub fn any_requests_repaint(requests: &[bool]) -> (r: bool)
    ensures
        r == exists|i: int| 0 <= i < requests@.len() && #[trigger] requests@[i],
{
    let mut k: usize = 0;
    while k < requests.len()
        invariant
            k <= requests@.len(),
            forall|i: int| 0 <= i < k ==> !#[trigger] requests@[i],
        decreases requests@.len() - k,
    {
        if requests[k] {
            return true;
        }
        k = k + 1;
    }
    false
}

} // verus!
