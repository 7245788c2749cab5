use aethel_gui::color_text::{ColorEdit, ColorFields, PickerAction, PickerDrag, PickerRegion, PickerState};
use aethel_gui::input::{special_key_bit, SpecialKey};
use aethel_gui::text_field::{BoxClick, TextEditState};
use aethel_gui::ui::{reserve_id, UiDiagnostics, WidgetIdSet};

fn keys(list: &[SpecialKey]) -> u32 {
    list.iter().fold(0u32, |m, k| m | special_key_bit(*k))
}

#[test]
fn text_frame_click_inside_focuses_and_types() {
    let mut state = TextEditState::new();
    let out = state.apply_frame(false, BoxClick::Inside(0), None, 0, false, &['h', 'i']);
    assert!(out.focused);
    assert!(out.active);
    assert!(out.changed);
    assert!(!out.submitted);
    assert!(out.caret_moved);
    assert_eq!(state.text(), "hi");
    assert_eq!(state.cursor(), 2);
}

#[test]
fn text_frame_unfocused_takes_signal_value_and_ignores_keys() {
    let mut state = TextEditState::new();
    state.set_text("abcdef");
    state.set_cursor(5);
    let out = state.apply_frame(false, BoxClick::NoClick, Some("xyz"), keys(&[SpecialKey::Backspace]), false, &['q']);
    assert!(!out.focused && !out.active && !out.changed);
    assert_eq!(state.text(), "xyz");
    assert_eq!(state.cursor(), 3);
}

#[test]
fn text_frame_focused_ignores_signal_value() {
    let mut state = TextEditState::new();
    state.set_text("abc");
    let out = state.apply_frame(true, BoxClick::NoClick, Some("zzz"), 0, false, &[]);
    assert!(out.focused && out.active && !out.changed && !out.caret_moved);
    assert_eq!(state.text(), "abc");
}

#[test]
fn text_frame_ctrl_backspace_removes_a_word_and_return_submits() {
    let mut state = TextEditState::new();
    state.set_text("hello big world");
    state.set_cursor(15);
    let out = state.apply_frame(true, BoxClick::NoClick, None, keys(&[SpecialKey::Backspace, SpecialKey::Return]), true, &[]);
    assert_eq!(state.text(), "hello big");
    assert_eq!(state.cursor(), 9);
    assert!(out.changed && out.submitted && out.focused);
}

#[test]
fn text_frame_ctrl_arrows_move_by_words() {
    let mut state = TextEditState::new();
    state.set_text("one two three");
    state.set_cursor(13);
    state.apply_frame(true, BoxClick::NoClick, None, keys(&[SpecialKey::ArrowLeft]), true, &[]);
    assert_eq!(state.cursor(), 7);
    state.set_cursor(0);
    let out = state.apply_frame(true, BoxClick::NoClick, None, keys(&[SpecialKey::ArrowRight]), true, &[]);
    assert_eq!(state.cursor(), 3);
    assert!(!out.changed && out.caret_moved);
}

#[test]
fn text_frame_escape_and_outside_click_blur() {
    let mut state = TextEditState::new();
    let out = state.apply_frame(true, BoxClick::NoClick, None, keys(&[SpecialKey::Escape]), false, &[]);
    assert!(!out.focused && out.active);
    let out = state.apply_frame(true, BoxClick::Outside, None, 0, false, &['a']);
    assert!(!out.focused && !out.active);
    assert_eq!(state.text(), "");
}

#[test]
fn text_frame_respects_the_length_cap() {
    let mut state = TextEditState::new();
    state.set_max_length(2);
    state.apply_frame(true, BoxClick::NoClick, None, keys(&[SpecialKey::CtrlA]), false, &['a', 'b', 'c']);
    assert_eq!(state.text(), "ab");
    assert_eq!(state.cursor(), 2);
}

#[test]
fn color_keys_edit_then_return_reads_the_field() {
    let mut fields = ColorFields::new();
    fields.focus(2);
    let out = fields.apply_keys(keys(&[SpecialKey::Backspace, SpecialKey::Return]), &[]);
    assert_eq!(fields.red.text(), "25");
    assert_eq!(out.edit, ColorEdit::Red(25));
    assert_eq!(out.parsed_field, 2);
    assert!(!out.escape_pending);
    assert_eq!(fields.focused_field, 2);
}

#[test]
fn color_keys_tab_moves_on_and_escape_defocuses() {
    let mut fields = ColorFields::new();
    fields.focus(4);
    let out = fields.apply_keys(keys(&[SpecialKey::Tab]), &['5']);
    assert_eq!(out.edit, ColorEdit::Blue(5));
    assert_eq!(fields.focused_field, 1);
    let out = fields.apply_keys(keys(&[SpecialKey::Escape]), &[]);
    assert_eq!(out.edit, ColorEdit::Hex(255, 0, 0));
    assert_eq!(out.parsed_field, 1);
    assert_eq!(fields.focused_field, 0);
    let out = fields.apply_keys(keys(&[SpecialKey::Return]), &['x']);
    assert_eq!(out.edit, ColorEdit::Unchanged);
    assert_eq!(out.parsed_field, 0);
    assert_eq!(fields.hex.text(), "ff0000");
}

#[test]
fn color_keys_tab_with_escape_leaves_escape_pending() {
    let mut fields = ColorFields::new();
    fields.focus(3);
    let out = fields.apply_keys(keys(&[SpecialKey::Tab, SpecialKey::Escape]), &[]);
    assert!(out.escape_pending);
    assert_eq!(fields.focused_field, 4);
    let (edit, field) = fields.escape();
    assert_eq!(edit, ColorEdit::Blue(0));
    assert_eq!(field, 4);
    assert_eq!(fields.focused_field, 0);
}

#[test]
fn picker_clicks_open_drag_and_close() {
    let mut picker = PickerState::new();
    assert_eq!(picker.click(false, true, PickerRegion::SatVal), PickerAction::Nothing);
    assert_eq!(picker.click(true, false, PickerRegion::Elsewhere), PickerAction::Opened);
    assert_eq!(picker.click(false, true, PickerRegion::Hue), PickerAction::Drag);
    assert_eq!(picker.drag, PickerDrag::Hue);
    picker.track_button(false);
    assert_eq!(picker.drag, PickerDrag::Idle);
    assert_eq!(picker.click(false, true, PickerRegion::Field(3)), PickerAction::FocusField(3));
    assert_eq!(picker.click(false, true, PickerRegion::Elsewhere), PickerAction::Defocus);
    assert_eq!(picker.click(false, false, PickerRegion::Elsewhere), PickerAction::Closed);
    assert!(!picker.open);
}

#[test]
fn widget_keys_are_stable_and_duplicates_rekeyed() {
    let mut ids = WidgetIdSet::new();
    let mut diag = UiDiagnostics::default();
    let mut serial = 0u64;
    let a = reserve_id(&mut ids, &mut diag, &mut serial, 7, "button", "ok");
    let b = reserve_id(&mut ids, &mut diag, &mut serial, 7, "button", "ok");
    assert_ne!(a, b);
    assert_ne!(a.0, 0);
    assert_eq!(diag.duplicate_keys, vec![a]);
    assert_eq!(serial, 1);
    assert_eq!(ids.len(), 2);
    ids.clear();
    let mut diag2 = UiDiagnostics::default();
    let again = reserve_id(&mut ids, &mut diag2, &mut serial, 7, "button", "ok");
    assert_eq!(again, a);
    assert!(diag2.duplicate_keys.is_empty());
    let other = reserve_id(&mut ids, &mut diag2, &mut serial, 8, "button", "ok");
    assert_ne!(other, a);
}
