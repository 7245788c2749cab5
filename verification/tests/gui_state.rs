use std::hash::{Hash, Hasher};
use aethel_gui::app_config::AethelGui;
use aethel_gui::binding::{bool_changed, i32_changed, text_changed, u32_changed};
use aethel_gui::binding::{
    clamp_i32, sanitize_f32_bits, BindingIds, BoolSignal, F32Signal, I32Signal, SelectionSignal, TextSignal,
    U32Signal, VecSignal,
};
use aethel_gui::clip::{ClipStack, ClipMode};
use aethel_gui::combo::{ComboBoxItem, ComboSelection};
use aethel_gui::command::{CommandId, CommandIds, CommandPayload, CommandQueue, UiCommand, UpdateCtx, WidgetId};
use aethel_gui::controller::UiController;
use aethel_gui::interaction::{
    FocusChange, FocusManager, InteractionEventKind, InteractionQueue, WidgetInteractionState,
};
use aethel_gui::style::VisualState;
use aethel_gui::text_cache::{TextCacheBook, TextGeneration, TextKey, TextRunCache};
use aethel_gui::ui::{response_from_payloads, text_payload, Response, UiDiagnostics};
use aethel_gui::z_order::ZOrder;

#[test]
fn bool_signal_generation_changes_only_on_change() {
    let signal = BoolSignal::new(false);
    let start = signal.generation();
    assert!(!signal.set(false));
    assert_eq!(signal.generation(), start);
    assert!(signal.set(true));
    assert!(signal.generation() > start);
}

#[test]
fn f32_signal_sanitizes_nan() {
    let signal = F32Signal::from_bits(1.0f32.to_bits());
    signal.set_bits(f32::NAN.to_bits());
    assert_eq!(f32::from_bits(signal.get_bits()), 0.0);
}

#[test]
fn f32_bits_keep_finite_values() {
    assert_eq!(sanitize_f32_bits(2.5f32.to_bits()), 2.5f32.to_bits());
    assert_eq!(sanitize_f32_bits(f32::INFINITY.to_bits()), 0);
    assert_eq!(sanitize_f32_bits(f32::NEG_INFINITY.to_bits()), 0);
}

#[test]
fn integer_signals_clamp_and_track_changes() {
    let i = I32Signal::new(5);
    assert!(i.set_clamped(100, -10, 10));
    assert_eq!(i.get(), 10);
    assert!(!i.set(10));
    assert_eq!(clamp_i32(-50, -10, 10), -10);
    let u = U32Signal::new(1);
    assert!(u.set_clamped(0, 3, 9));
    assert_eq!(u.get(), 3);
}

#[test]
fn text_and_collection_signals_report_changes() {
    let t = TextSignal::new("a".to_string());
    assert!(!t.set("a".to_string()));
    assert!(t.set("b".to_string()));
    assert_eq!(t.get(), "b");
    let s = SelectionSignal::new(Some(3u32));
    assert!(s.clear());
    assert_eq!(s.get(), None);
    let v = VecSignal::new(vec![1u8]);
    assert!(v.mutate(|items| items.push(2)));
    assert_eq!(v.get(), vec![1, 2]);
}

#[test]
fn binding_ids_are_distinct() {
    let ids = BindingIds::new();
    let a = ids.allocate::<u32>();
    let b = ids.allocate::<u32>();
    assert_ne!(a.raw(), b.raw());
    let cmds = CommandIds::new();
    assert_ne!(cmds.allocate::<()>().raw(), cmds.allocate::<()>().raw());
}

#[test]
fn command_queue_reuses_capacity_after_clear() {
    let mut queue = CommandQueue::with_capacity(1);
    let id = CommandId::<()>::from_raw(7);
    queue.emit_id(id);
    let cap = queue.capacity();
    queue.clear();
    queue.emit_id(id);
    assert_eq!(queue.capacity(), cap);
}

#[test]
fn update_ctx_marks_dirty_when_command_emitted() {
    let mut queue = CommandQueue::new();
    let mut ctx = UpdateCtx::new(&mut queue);
    ctx.emit_id(CommandId::<()>::from_raw(1));
    assert!(ctx.flags().dirty);
    assert_eq!(queue.len(), 1);
}

#[test]
fn command_payloads_round_trip() {
    let mut queue = CommandQueue::new();
    let id = CommandId::<u32>::from_raw(3);
    queue.emit_u32(id, 42);
    queue.emit_text(id, "hi".to_string());
    let commands = queue.commands();
    assert_eq!(commands[0].payload.clone().as_u32(), Some(42));
    assert_eq!(commands[1].payload.as_text(), Some("hi"));
    assert_eq!(commands[0].payload.clone().as_bool(), None);
    let cmd = UiCommand::new(id.erase()).widget(WidgetId(9)).payload(CommandPayload::Index(4));
    assert_eq!(cmd.widget, Some(WidgetId(9)));
    let mut out = Vec::new();
    queue.drain_to(&mut out);
    assert_eq!(out.len(), 2);
    assert!(queue.is_empty());
}

#[test]
fn focus_manager_reports_swap() {
    let mut focus = FocusManager::new();
    let a = focus.allocate();
    let b = focus.allocate();
    assert_eq!(focus.focus(a), FocusChange::Focused(a));
    assert_eq!(focus.focus(b), FocusChange::Swapped { old: a, new: b });
}

#[test]
fn focus_then_blur_restores_nothing_focused() {
    let mut focus = FocusManager::new();
    let a = focus.allocate();
    let b = focus.allocate();
    focus.focus(a);
    assert_eq!(focus.focus(a), FocusChange::Unchanged);
    assert_eq!(focus.blur(b), FocusChange::Unchanged);
    assert_eq!(focus.blur(a), FocusChange::Blurred(a));
    assert_eq!(focus.focused(), None);
    assert_eq!(focus.clear(), FocusChange::Unchanged);
}

#[test]
fn interaction_diff_queues_edges_in_order() {
    let before = WidgetInteractionState::empty();
    let after = WidgetInteractionState { hovered: true, pressed: true, focused: false, dragging: false };
    let mut queue: InteractionQueue<(i32, i32)> = InteractionQueue::new();
    before.diff(after, 7, (1, 2), &mut queue);
    assert_eq!(queue.len(), 2);
    let first = queue.pop().unwrap();
    assert_eq!(first.kind, InteractionEventKind::HoverEnter);
    assert_eq!(first.target, 7);
    assert_eq!(first.point, (1, 2));
    assert_eq!(queue.pop().unwrap().kind, InteractionEventKind::Press);
    after.diff(after, 7, (1, 2), &mut queue);
    assert!(queue.is_empty());
    after.diff(before, 7, (0, 0), &mut queue);
    assert_eq!(queue.pop().unwrap().kind, InteractionEventKind::HoverExit);
    assert_eq!(queue.pop().unwrap().kind, InteractionEventKind::Release);
    assert_eq!(queue.pop(), None);
}

#[test]
fn visual_state_resolves_disabled_first() {
    let state = VisualState { normal: 1, hovered: 2, pressed: 3, disabled: 4 };
    assert_eq!(state.resolve(true, true, false), 4);
}

#[test]
fn visual_state_prefers_pressed_over_hovered() {
    let state = VisualState { normal: 1, hovered: 2, pressed: 3, disabled: 4 };
    assert_eq!(state.resolve(true, true, true), 3);
    assert_eq!(state.resolve(true, false, true), 2);
    assert_eq!(state.resolve(false, false, true), 1);
}

#[test]
fn response_and_diagnostics_start_clear() {
    let r = Response::new(WidgetId(3));
    assert!(!r.clicked() && !r.hovered() && !r.changed());
    assert!(UiDiagnostics::default().is_empty());
    assert_eq!(TextGeneration::zero().next(), TextGeneration(1));
}

#[test]
fn app_config_builder_records_choices() {
    let cfg = AethelGui::new().title("Demo".to_string()).size(800, 600).overlay(true).max_fps(0);
    assert_eq!(cfg.title_str(), "Demo");
    assert_eq!((cfg.width(), cfg.height()), (800, 600));
    assert!(cfg.is_overlay());
    assert_eq!(cfg.target_fps(), Some(1));
    assert_eq!(AethelGui::new().title_str(), "AethelGUI");
}

#[test]
fn controller_actions_share_state() {
    let controller = UiController::new(0u32);
    let mut add = controller.action(|n: &mut u32| *n += 2);
    add.run();
    add.run();
    assert_eq!(controller.read(|n| *n), Some(4));
    assert!(std::sync::Arc::ptr_eq(&controller.handle(), &controller.state));
}

#[test]
fn clip_stack_pop_unwinds_to_token() {
    let mut stack: ClipStack<u8> = ClipStack::new();
    let outer = stack.push_raw(1);
    let _inner = stack.push_raw(2);
    stack.push_raw(3);
    assert_eq!(stack.current(), Some(3));
    stack.pop(outer);
    assert!(stack.is_empty());
    let t = stack.push_raw(9);
    stack.pop(t);
    stack.pop(t);
    assert_eq!(stack.len(), 0);
    assert_eq!(ClipMode::Inherit, ClipMode::Inherit);
}

#[test]
fn clip_stack_keeps_entries_below_token() {
    let mut stack: ClipStack<u8> = ClipStack::with_capacity(4);
    stack.push_raw(1);
    let t = stack.push_raw(2);
    stack.push_raw(3);
    stack.pop(t);
    assert_eq!(stack.len(), 1);
    assert_eq!(stack.current(), Some(1));
}

#[test]
fn combo_items_show_their_text() {
    let s = String::from("Apple");
    assert_eq!(s.display_name(), "Apple");
    assert_eq!(s.value(), "Apple");
    let t: &'static str = "Pear";
    assert_eq!(t.display_name(), "Pear");
}

#[test]
fn combo_single_choice_closes_after_pick() {
    let mut sel = ComboSelection::new();
    assert_eq!(sel.click(true, None), None);
    assert!(sel.open);
    assert_eq!(sel.click(false, Some(2)), Some(2));
    assert!(!sel.open);
    assert_eq!(sel.selected_index, Some(2));
    assert_eq!(sel.changed_index(None, 0), Some(2));
    assert_eq!(sel.changed_index(Some(2), 0), None);
    assert!(!sel.set_selected(5, 3));
    assert!(sel.set_selected(1, 3));
    assert_eq!(sel.selected_index, Some(1));
}

#[test]
fn combo_multi_choice_toggles() {
    let mut sel = ComboSelection::new();
    sel.multi_select = true;
    sel.click(true, None);
    sel.click(false, Some(1));
    sel.click(false, Some(3));
    assert_eq!(sel.selected_items, vec![1, 3]);
    assert!(sel.open);
    sel.click(false, Some(1));
    assert_eq!(sel.selected_items, vec![3]);
    assert_eq!(sel.changed_index(None, 2), Some(3));
    assert_eq!(sel.click(false, None), None);
    assert!(!sel.open);
    assert_eq!(sel.click(false, Some(0)), None);
}

#[test]
fn z_order_brings_panel_to_front() {
    let mut z = ZOrder::new();
    z.register(4);
    z.register(7);
    z.register(4);
    assert_eq!(z.panel_indices(), &[4, 7]);
    z.bring_to_front(4);
    assert_eq!(z.panel_indices(), &[7, 4]);
    z.bring_to_front(9);
    assert_eq!(z.panel_indices(), &[7, 4, 9]);
}

#[test]
fn z_order_raises_first_panel_asking_priority() {
    let mut z = ZOrder::default();
    z.register(0);
    z.register(1);
    z.register(2);
    let priority = vec![false, true, true];
    assert_eq!(z.first_active(&priority), Some(1));
    assert_eq!(z.update(&priority), Some(1));
    assert_eq!(z.panel_indices(), &[0, 2, 1]);
    assert_eq!(z.update(&[false, false, false]), None);
}

#[test]
fn text_cache_book_hits_after_update() {
    let mut book: TextCacheBook<(u32, u32)> = TextCacheBook::new((0, 0));
    let key = TextKey::from_hash(42);
    assert!(book.check_key(2, key));
    assert_eq!(book.len(), 3);
    book.update(2, key, (10, 20));
    assert!(!book.check_key(2, key));
    assert!(book.check_key(2, TextKey::from_hash(43)));
    assert_eq!(book.metrics(2), Some((10, 20)));
    assert_eq!(book.metrics(0), Some((0, 0)));
    assert_eq!(book.metrics(5), None);
    book.invalidate(2);
    assert!(book.check_key(2, key));
    let stats = book.stats();
    assert_eq!((stats.cache_hits, stats.cache_misses, stats.invalidations), (1, 3, 1));
}

#[test]
fn text_run_cache_generation_advances() {
    let mut run = TextRunCache::new(0u8);
    assert!(run.should_shape(TextKey::from_hash(1)));
    run.update(TextKey::from_hash(1), 5);
    assert!(!run.should_shape(TextKey::from_hash(1)));
    assert_eq!(run.generation(), TextGeneration(1));
    run.invalidate();
    assert_eq!(run.generation(), TextGeneration(2));
    assert_eq!(run.metrics(), 5);
}

#[test]
fn payloads_make_responses() {
    let payloads = vec![CommandPayload::Empty, CommandPayload::Text("x".to_string()), CommandPayload::Text("y".to_string())];
    let r = response_from_payloads(WidgetId(5), &payloads);
    assert!(r.clicked && r.changed);
    assert_eq!(r.id, WidgetId(5));
    assert_eq!(text_payload(&payloads), Some("x"));
    let none: Vec<CommandPayload> = vec![CommandPayload::Bool(true)];
    let r = response_from_payloads(WidgetId(1), &none);
    assert!(!r.clicked && r.changed);
    assert_eq!(text_payload(&none), None);
    assert!(!response_from_payloads(WidgetId(1), &[]).changed);
}

#[test]
fn toggling_twice_restores_selection() {
    let mut sel = ComboSelection::new();
    sel.toggle(2);
    sel.toggle(4);
    let before = sel.selected_items.clone();
    sel.toggle(9);
    sel.toggle(9);
    assert_eq!(sel.selected_items, before);
}

#[test]
fn bitset_count_matches_iterated_indices() {
    let mut set = aethel_gui::reuse::BitSet::with_len(200);
    for i in [0usize, 5, 63, 64, 65, 127, 128, 199] {
        set.insert(aethel_gui::reuse::BitIndex(i));
    }
    let mut seen = 0;
    let mut it = set.iter_ones();
    while it.next().is_some() {
        seen += 1;
    }
    assert_eq!(set.count_ones(), seen);
    assert_eq!(seen, 8);
}

fn hello_key(width: f32, height: f32) -> TextKey {
    let mut hasher = std::collections::hash_map::DefaultHasher::new();
    "hello".hash(&mut hasher);
    12.0f32.to_bits().hash(&mut hasher);
    (12.0f32 * 1.2).to_bits().hash(&mut hasher);
    for c in [1.0f32, 1.0, 1.0, 1.0] {
        c.to_bits().hash(&mut hasher);
    }
    width.to_bits().hash(&mut hasher);
    height.to_bits().hash(&mut hasher);
    TextKey::from_hash(hasher.finish())
}

#[test]
fn cache_book_records_hit_and_miss() {
    let mut book: TextCacheBook<(f32, f32, usize)> = TextCacheBook::new((0.0, 0.0, 0));
    let key = hello_key(10.0, 10.0);
    assert!(book.check_key(0, key));
    book.update(0, key, (0.0, 0.0, 0));
    assert!(!book.check_key(0, key));
    assert_eq!(book.stats().cache_misses, 1);
    assert_eq!(book.stats().cache_hits, 1);
}

#[test]
fn store_change_helpers_compare_replaced_and_stored() {
    assert!(bool_changed(false, true));
    assert!(!bool_changed(true, true));
    assert!(u32_changed(1, 2) && !u32_changed(7, 7));
    assert!(i32_changed(-1, 1) && !i32_changed(-3, -3));
    assert!(text_changed(&"a".to_string(), &"b".to_string()));
    assert!(!text_changed(&"same".to_string(), &"same".to_string()));
}

#[test]
fn fresh_frame_scratch_counts_no_allocation() {
    let scratch = aethel_gui::scratch::FrameScratch::new();
    let stats = scratch.stats();
    assert_eq!(stats.total_allocations(), 0);
    assert!(!stats.had_growth());
}
