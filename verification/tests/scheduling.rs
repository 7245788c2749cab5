use aethel_gui::app_config::AethelGui;
use aethel_gui::runtime::{
    any_requests_repaint, frame_due, request_frame, respond_to_window_event, shortest_interval, WindowEventKind,
};
use aethel_gui::scheduler::{FrameControl, FrameScheduler, RedrawReason, SchedulerState};

const MS: u64 = 1_000_000;
const SEC: u64 = 1_000_000_000;
const START: u64 = 5 * SEC;

#[test]
fn scheduler_enters_wait_after_clean_redraw() {
    let now = START;
    let mut scheduler = FrameScheduler::new(now);
    scheduler.after_redraw(now + SEC, false);
    assert_eq!(scheduler.state(), SchedulerState::Idle);
    assert!(!scheduler.wants_redraw(now + SEC));
}

#[test]
fn scheduler_keeps_deadline_for_continuous_widget() {
    let now = START;
    let mut scheduler = FrameScheduler::new(now);
    scheduler.after_redraw(now, true);
    assert_eq!(scheduler.state(), SchedulerState::WaitingUntil);
    assert!(!scheduler.wants_redraw(now + 100 * MS));
    assert!(scheduler.wants_redraw(now + 600 * MS));
}

#[test]
fn setting_repaint_interval_does_not_push_due_deadline_forward() {
    let now = START;
    let mut scheduler = FrameScheduler::new(now);
    scheduler.after_redraw_with_interval(now, Some(16 * MS));
    let due = now + 17 * MS;

    scheduler.set_repaint_interval(Some(16 * MS), due);

    assert!(scheduler.wants_redraw(due));
}

#[test]
fn repaint_interval_uses_wait_until_without_polling() {
    let now = START;
    let mut scheduler = FrameScheduler::new(now);
    scheduler.after_redraw_with_interval(now, Some(32 * MS));

    assert!(matches!(scheduler.control_flow(now + MS, false), FrameControl::WaitUntil(_)));
}

#[test]
fn due_repaint_interval_polls_for_redraw_once() {
    let now = START;
    let mut scheduler = FrameScheduler::new(now);
    scheduler.after_redraw_with_interval(now, Some(16 * MS));

    assert_eq!(scheduler.control_flow(now + 17 * MS, false), FrameControl::Poll);
}

#[test]
fn recent_input_lingers_before_idling() {
    let now = START;
    let mut scheduler = FrameScheduler::new(now);
    scheduler.mark_dirty(RedrawReason::Input, now);
    scheduler.after_redraw(now + MS, false);
    assert_eq!(scheduler.state(), SchedulerState::WaitingUntil);
    assert_eq!(scheduler.control_flow(now + 2 * MS, false), FrameControl::WaitUntil(now + 150 * MS));
    assert_eq!(scheduler.control_flow(now + 200 * MS, false), FrameControl::Poll);
}

#[test]
fn idle_scheduler_waits_and_held_mouse_polls() {
    let now = START;
    let mut scheduler = FrameScheduler::new(now);
    scheduler.after_redraw(now + SEC, false);
    assert_eq!(scheduler.control_flow(now + SEC, false), FrameControl::Wait);
    assert_eq!(scheduler.control_flow(now + SEC, true), FrameControl::Poll);
    assert_eq!(scheduler.state(), SchedulerState::Animating);
    assert_eq!(scheduler.stats().wait_transitions, 1);
    assert_eq!(scheduler.stats().poll_transitions, 1);
}

#[test]
fn mark_dirty_makes_every_time_want_a_redraw() {
    let now = START;
    let mut scheduler = FrameScheduler::new(now);
    scheduler.after_redraw(now + SEC, false);
    scheduler.mark_dirty(RedrawReason::Animation, now + 2 * SEC);
    assert!(scheduler.wants_redraw(0));
    assert!(scheduler.wants_redraw(now + 3 * SEC));
    assert_eq!(scheduler.stats().requested_redraws, 2);
}

#[test]
fn window_events_map_to_loop_actions() {
    let r = respond_to_window_event(WindowEventKind::CloseRequested);
    assert!(r.exit && !r.redraw_now && r.dirty.is_none());
    let r = respond_to_window_event(WindowEventKind::Resized);
    assert!(r.resize_surface);
    assert_eq!(r.dirty, Some(RedrawReason::Resize));
    assert!(respond_to_window_event(WindowEventKind::RedrawRequested).redraw_now);
    assert_eq!(respond_to_window_event(WindowEventKind::MouseWheel).dirty, Some(RedrawReason::Input));
    assert_eq!(respond_to_window_event(WindowEventKind::Other).dirty, None);
}

#[test]
fn frame_cap_holds_frames_back() {
    let budget = AethelGui::new().max_fps(60).frame_budget_nanos();
    assert_eq!(budget, Some(16_666_666));
    assert!(!frame_due(START + 10 * MS, START, budget));
    assert!(frame_due(START + 17 * MS, START, budget));
    assert!(!frame_due(START - MS, START, budget));
    assert!(frame_due(START, START, None));
}

#[test]
fn request_frame_asks_for_redraw_exactly_when_polling() {
    let now = START;
    let mut scheduler = FrameScheduler::new(now);
    let (redraw, control) = request_frame(&mut scheduler, None, now, false);
    assert!(redraw);
    assert_eq!(control, FrameControl::Poll);
    scheduler.after_redraw(now + SEC, false);
    let (redraw, control) = request_frame(&mut scheduler, Some(16 * MS), now + SEC, false);
    assert!(!redraw);
    assert_eq!(control, FrameControl::WaitUntil(now + SEC + 16 * MS));
}

#[test]
fn timed_repaint_sleeps_until_its_deadline() {
    let now = START;
    let mut scheduler = FrameScheduler::new(now);
    scheduler.after_redraw_with_interval(now, Some(32 * MS));
    assert_eq!(scheduler.control_flow(now + 31 * MS, false), FrameControl::WaitUntil(now + 32 * MS));
    assert_eq!(scheduler.control_flow(now + 32 * MS, false), FrameControl::Poll);
}

#[test]
fn shortest_requested_interval_wins() {
    assert_eq!(shortest_interval(&[Some(40 * MS), None, Some(16 * MS)]), Some(16 * MS));
    assert_eq!(shortest_interval(&[None, None]), None);
    assert_eq!(shortest_interval(&[]), None);
    assert!(any_requests_repaint(&[false, true]));
    assert!(!any_requests_repaint(&[false, false]));
}
