use aethel_gui::color_text::{
    format_hex_color, format_u8, hex_color, hex_split_ok, next_field, u8_from_text, ColorEdit, ColorFields,
};
use aethel_gui::input::{InputState, MouseButton, MouseButtons, NamedKey, SpecialKey};
use aethel_gui::text_field::{chars_of, string_of, FieldEdit, MiniInput, TextEditState};

#[test]
fn chars_round_trip_through_strings() {
    let chars = chars_of("héllo");
    assert_eq!(chars, vec!['h', 'é', 'l', 'l', 'o']);
    assert_eq!(string_of(&chars), "héllo");
}

#[test]
fn mini_input_edits_at_the_cursor() {
    let mut m = MiniInput::new("abc");
    assert_eq!(m.cursor(), 3);
    m.move_left();
    m.insert('X');
    assert_eq!(m.text(), "abXc");
    assert_eq!(m.cursor(), 3);
    m.backspace();
    assert_eq!(m.text(), "abc");
    m.home();
    m.backspace();
    assert_eq!(m.text(), "abc");
    m.delete();
    assert_eq!(m.text(), "bc");
    m.end();
    m.delete();
    m.move_right();
    assert_eq!(m.cursor(), 2);
    m.apply(FieldEdit::Insert('é'));
    assert_eq!(m.text(), "bcé");
    assert_eq!(m.char_count(), 3);
    m.set("zz");
    assert_eq!((m.text(), m.cursor()), ("zz".to_string(), 2));
    assert!(!m.is_focused());
}

#[test]
fn hex_colors_parse_with_or_without_hashes() {
    assert_eq!(hex_color("#ff8000"), Some((255, 128, 0)));
    assert_eq!(hex_color("##00FF7f"), Some((0, 255, 127)));
    assert_eq!(hex_color("+f+f+f"), Some((15, 15, 15)));
}

#[test]
fn hex_colors_reject_bad_text() {
    assert_eq!(hex_color("ff80"), None);
    assert_eq!(hex_color("ff80000"), None);
    assert_eq!(hex_color("gg0000"), None);
    assert_eq!(hex_color("-10000"), None);
    assert_eq!(hex_color("++0000"), None);
    assert_eq!(hex_color(""), None);
    assert_eq!(hex_color("éaaaa"), None);
}

#[test]
fn hex_split_refuses_cut_characters() {
    assert!(hex_split_ok("#ff8000"));
    assert!(hex_split_ok("short"));
    assert!(hex_split_ok("éaaaa"));
    assert!(!hex_split_ok("a€bc"));
}

#[test]
fn channel_values_parse_like_u8() {
    assert_eq!(u8_from_text("255"), Some(255));
    assert_eq!(u8_from_text("+7"), Some(7));
    assert_eq!(u8_from_text("007"), Some(7));
    assert_eq!(u8_from_text("256"), None);
    assert_eq!(u8_from_text("99999999999"), None);
    assert_eq!(u8_from_text(""), None);
    assert_eq!(u8_from_text("+"), None);
    assert_eq!(u8_from_text("-1"), None);
    assert_eq!(u8_from_text(" 1"), None);
    assert_eq!(u8_from_text("1a"), None);
}

#[test]
fn colors_format_as_text() {
    assert_eq!(format_hex_color(0, 255, 0), "00ff00");
    assert_eq!(format_hex_color(171, 205, 239), "abcdef");
    assert_eq!(format_u8(0), "0");
    assert_eq!(format_u8(42), "42");
    assert_eq!(format_u8(255), "255");
    assert_eq!(format_u8(100), "100");
}

#[test]
fn focused_rgb_field_does_not_block_hex_refresh() {
    let mut fields = ColorFields::new();
    fields.focused_field = 2;
    fields.refresh(0, 255, 0);

    assert_eq!(fields.hex.text(), "00ff00");
    assert_eq!(fields.green.text(), "255");
    assert_eq!(fields.blue.text(), "0");
    assert_eq!(fields.red.text(), "255");
}

#[test]
fn color_fields_parse_the_focused_field() {
    let mut fields = ColorFields::new();
    assert_eq!(fields.parse(), ColorEdit::Unchanged);
    fields.focus(1);
    assert!(fields.hex.is_focused());
    assert!(fields.can_parse());
    fields.edit_focused(FieldEdit::Backspace);
    fields.edit_focused(FieldEdit::Insert('8'));
    assert_eq!(fields.hex.text(), "ff0008");
    assert_eq!(fields.parse(), ColorEdit::Hex(255, 0, 8));
    fields.focus(next_field(1));
    fields.edit_focused(FieldEdit::Insert('9'));
    assert_eq!(fields.parse(), ColorEdit::Unchanged);
    fields.edit_focused(FieldEdit::Home);
    fields.edit_focused(FieldEdit::Delete);
    fields.edit_focused(FieldEdit::Delete);
    assert_eq!(fields.red.text(), "59");
    assert_eq!(fields.parse(), ColorEdit::Red(59));
    fields.defocus_all();
    assert_eq!(fields.focused_field, 0);
    assert!(!fields.red.is_focused());
    assert_eq!(next_field(4), 1);
    assert_eq!(next_field(0), 1);
}

#[test]
fn text_edit_respects_max_length() {
    let mut t = TextEditState::new();
    t.set_max_length(2);
    assert!(t.insert_ch('a'));
    assert!(t.insert_ch('b'));
    assert!(!t.insert_ch('c'));
    assert_eq!(t.text(), "ab");
    assert!(t.del_before());
    assert!(!t.del_after());
    assert_eq!(t.text(), "a");
}

#[test]
fn text_edit_moves_and_deletes_by_word() {
    let mut t = TextEditState::new();
    t.set_text("hello big world");
    assert_eq!(t.cursor(), 0);
    t.move_word_right();
    assert_eq!(t.cursor(), 5);
    t.move_word_right();
    assert_eq!(t.cursor(), 9);
    t.move_word_right();
    assert_eq!(t.cursor(), 15);
    t.move_word_left();
    assert_eq!(t.cursor(), 9);
    t.move_word_left();
    assert_eq!(t.cursor(), 5);
    t.move_end();
    assert_eq!(t.del_word_before(), 6);
    assert_eq!(t.text(), "hello big");
    assert_eq!(t.cursor(), 9);
    assert_eq!(t.del_word_before(), 4);
    assert_eq!(t.text(), "hello");
    t.move_home();
    assert_eq!(t.del_word_before(), 0);
}

#[test]
fn text_edit_display_masks_and_placeholds() {
    let mut t = TextEditState::new();
    assert_eq!(t.display_text(false, false, "Search"), Some("Search".to_string()));
    assert_eq!(t.display_text(false, true, "Search"), None);
    t.set_text("abc");
    assert_eq!(t.display_text(true, true, "Search"), Some("***".to_string()));
    assert_eq!(t.display_text(false, true, "Search"), Some("abc".to_string()));
    t.set_cursor(99);
    assert_eq!(t.cursor(), 3);
    t.sync_text("a");
    assert_eq!(t.cursor(), 1);
}

#[test]
fn mouse_buttons_track_independent_buttons() {
    let mut buttons = MouseButtons::default();
    buttons.insert(MouseButton::Left);
    buttons.insert(MouseButton::Right);
    assert!(buttons.contains(MouseButton::Left));
    assert!(buttons.contains(MouseButton::Right));
    buttons.remove(MouseButton::Left);
    assert!(!buttons.contains(MouseButton::Left));
    assert!(buttons.contains(MouseButton::Right));
}

#[test]
fn untracked_buttons_are_ignored() {
    let mut buttons = MouseButtons::new();
    buttons.insert(MouseButton::Other(2));
    buttons.insert(MouseButton::Other(3));
    assert!(buttons.contains(MouseButton::Other(2)));
    assert!(!buttons.contains(MouseButton::Other(3)));
    buttons.remove(MouseButton::Other(2));
    assert!(buttons.is_empty());
}

#[test]
fn key_bit_tracks_pressed_key() {
    let mut input = InputState::new();
    input.mark_key(SpecialKey::Backspace);
    assert!(input.is_key_pressed(SpecialKey::Backspace));
    input.end_frame();
    assert!(!input.is_key_pressed(SpecialKey::Backspace));
}

#[test]
fn typed_text_drops_control_characters_and_ctrl_text() {
    let mut input = InputState::new();
    input.push_text("a\u{8}b\n");
    assert_eq!(input.chars_this_frame, vec!['a', 'b']);
    assert!(input.any_key_pressed());
    input.set_modifiers(true, false, false);
    input.push_text("c");
    assert_eq!(input.chars_this_frame.len(), 2);
    input.handle_ctrl_character("V");
    assert!(input.is_key_pressed(SpecialKey::CtrlV));
    input.handle_ctrl_character("q");
    input.handle_named_key(NamedKey::Enter);
    assert!(input.is_key_pressed(SpecialKey::Return));
    input.handle_named_key(NamedKey::Other);
    input.end_frame();
    assert!(!input.any_key_pressed());
}

#[test]
fn buttons_press_release_and_end_drags() {
    let mut input = InputState::new();
    input.press(MouseButton::Left);
    assert!(input.lmb.held && input.lmb.just_pressed);
    assert!(input.is_mouse_down(MouseButton::Left));
    input.begin_drag(3);
    assert!(input.is_dragging(3));
    input.release(MouseButton::Right);
    assert!(input.is_dragging(3));
    input.release(MouseButton::Left);
    assert!(!input.is_dragging(3));
    assert!(input.lmb.just_released && !input.lmb.held);
    input.end_frame();
    assert!(!input.lmb.just_released);
}

#[test]
fn shown_colors_read_back() {
    for v in 0..=255u8 {
        assert_eq!(u8_from_text(&format_u8(v)), Some(v));
    }
    for (r, g, b) in [(0u8, 0u8, 0u8), (255, 128, 1), (18, 52, 86), (171, 205, 239)] {
        let text = format_hex_color(r, g, b);
        assert!(hex_split_ok(&text));
        assert_eq!(hex_color(&text), Some((r, g, b)));
    }
}

#[test]
fn backspace_undoes_typing() {
    let mut m = MiniInput::new("hello");
    m.move_left();
    m.move_left();
    m.insert('x');
    m.backspace();
    assert_eq!(m.text(), "hello");
    assert_eq!(m.cursor(), 3);
    m.insert('y');
    m.move_left();
    m.delete();
    assert_eq!(m.text(), "hello");
}

#[test]
fn button_reports_edges_and_clicks() {
    let held = aethel_gui::input::MouseButtonState { held: true, just_pressed: true, just_released: false };
    let released = aethel_gui::input::MouseButtonState { held: false, just_pressed: false, just_released: true };
    let mut b = aethel_gui::widget_state::ButtonState::new();
    let e = b.update(true, held);
    assert!(e.hover_enter && e.press && !e.click);
    assert!(b.pressed);
    let e = b.update(true, released);
    assert!(!e.hover_enter && e.release && e.click);
    assert!(b.emits_click(released));
    let e = b.update(false, released);
    assert!(e.hover_exit && !e.click);
    b.enabled = false;
    let e = b.update(true, held);
    assert!(!e.press && !b.hovered);
}

#[test]
fn checkbox_flips_on_press() {
    let press = aethel_gui::input::MouseButtonState { held: true, just_pressed: true, just_released: false };
    let mut c = aethel_gui::widget_state::CheckState::new(false);
    assert!(c.click(true, press));
    assert!(c.checked);
    assert!(!c.click(false, press));
    assert!(c.click(true, press));
    assert!(!c.checked);
    assert!(!c.set_checked(false));
    assert!(c.set_checked(true));
}

#[test]
fn key_press_types_text_and_marks_keys() {
    let mut input = InputState::new();
    input.key_press(Some("x"), Some("x"), NamedKey::Other);
    assert_eq!(input.chars_this_frame, vec!['x']);
    assert_eq!(input.special_keys_this_frame, 0);
    input.key_press(None, None, NamedKey::Enter);
    assert!(input.is_key_pressed(SpecialKey::Return));
    input.set_modifiers(true, false, false);
    input.key_press(Some("c"), Some("c"), NamedKey::Other);
    assert!(input.is_key_pressed(SpecialKey::CtrlC));
    assert!(input.is_key_pressed(SpecialKey::Return));
    assert_eq!(input.chars_this_frame, vec!['x']);
}
