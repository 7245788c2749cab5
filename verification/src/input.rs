//! Pointer button and special-key bookkeeping.
use vstd::prelude::*;
use crate::bits::word_bit;
use crate::text_field::chars_of;

verus! {

/// Editing and navigation keys tracked as bits of a frame mask.
#[derive(Debug, Clone, Copy, PartialEq, Eq, Hash, Structural)]
pub enum SpecialKey {
    Backspace,
    Delete,
    ArrowLeft,
    ArrowRight,
    ArrowUp,
    ArrowDown,
    Home,
    End,
    Return,
    Escape,
    Tab,
    CtrlA,
    CtrlC,
    CtrlV,
    CtrlX,
    CtrlZ,
}

/// The position of `key` in the frame mask, in declaration order.
pub open spec fn special_key_index(key: SpecialKey) -> u32 {
    match key {
        SpecialKey::Backspace => 0,
        SpecialKey::Delete => 1,
        SpecialKey::ArrowLeft => 2,
        SpecialKey::ArrowRight => 3,
        SpecialKey::ArrowUp => 4,
        SpecialKey::ArrowDown => 5,
        SpecialKey::Home => 6,
        SpecialKey::End => 7,
        SpecialKey::Return => 8,
        SpecialKey::Escape => 9,
        SpecialKey::Tab => 10,
        SpecialKey::CtrlA => 11,
        SpecialKey::CtrlC => 12,
        SpecialKey::CtrlV => 13,
        SpecialKey::CtrlX => 14,
        SpecialKey::CtrlZ => 15,
    }
}

/// The mask bit of `key`.
pub fn special_key_bit(key: SpecialKey) -> (r: u32)
    ensures
        r == 1u32 << special_key_index(key),
{
    let index: u32 = match key {
        SpecialKey::Backspace => 0,
        SpecialKey::Delete => 1,
        SpecialKey::ArrowLeft => 2,
        SpecialKey::ArrowRight => 3,
        SpecialKey::ArrowUp => 4,
        SpecialKey::ArrowDown => 5,
        SpecialKey::Home => 6,
        SpecialKey::End => 7,
        SpecialKey::Return => 8,
        SpecialKey::Escape => 9,
        SpecialKey::Tab => 10,
        SpecialKey::CtrlA => 11,
        SpecialKey::CtrlC => 12,
        SpecialKey::CtrlV => 13,
        SpecialKey::CtrlX => 14,
        SpecialKey::CtrlZ => 15,
    };
    1u32 << index
}

/// Distinct keys have distinct bits.
pub proof fn lemma_special_key_bits_distinct(a: SpecialKey, b: SpecialKey)
    requires
        a != b,
    ensures
        (1u32 << special_key_index(a)) != (1u32 << special_key_index(b)),
{
    let x = special_key_index(a);
    let y = special_key_index(b);
    assert(x != y);
    assert(x < 16 && y < 16 && x != y ==> (1u32 << x) != (1u32 << y)) by (bit_vector);
}

/// A pointer button, as the windowing layer names it.
#[derive(Debug, Clone, Copy, PartialEq, Eq, Hash, Structural)]
pub enum MouseButton {
    Left,
    Right,
    Middle,
    Back,
    Forward,
    Other(u16),
}

/// Bit position of a tracked button; `None` for `Other(n)` with `n >= 3`.
pub open spec fn mouse_button_index(button: MouseButton) -> Option<u8> {
    match button {
        MouseButton::Left => Some(0u8),
        MouseButton::Right => Some(1u8),
        MouseButton::Middle => Some(2u8),
        MouseButton::Back => Some(3u8),
        MouseButton::Forward => Some(4u8),
        MouseButton::Other(i) => if i < 3 { Some((5 + i) as u8) } else { None },
    }
}

/// The bit of a tracked button.
pub fn mouse_button_bit(button: MouseButton) -> (r: Option<u8>)
    ensures
        r == match mouse_button_index(button) {
            Some(i) => Some(1u8 << i),
            None => None::<u8>,
        },
{
    match button {
        MouseButton::Left => Some(1u8 << 0u8),
        MouseButton::Right => Some(1u8 << 1u8),
        MouseButton::Middle => Some(1u8 << 2u8),
        MouseButton::Back => Some(1u8 << 3u8),
        MouseButton::Forward => Some(1u8 << 4u8),
        MouseButton::Other(idx) => {
            if idx < 3 {
                let shift: u8 = 5u8 + (idx as u8);
                Some(1u8 << shift)
            } else {
                None
            }
        },
    }
}

/// Held state and this frame's edges of one button.
#[derive(Debug, Clone, Copy, PartialEq, Eq, Structural)]
pub struct MouseButtonState {
    pub held: bool,
    pub just_pressed: bool,
    pub just_released: bool,
}

impl Default for MouseButtonState {
    fn default() -> (r: Self)
        ensures
            r == (MouseButtonState { held: false, just_pressed: false, just_released: false }),
    {
        MouseButtonState { held: false, just_pressed: false, just_released: false }
    }
}

impl MouseButtonState {
    pub fn press(&mut self)
        ensures
            *final(self) == (MouseButtonState { held: true, just_pressed: true, ..*old(self) }),
    {
        self.held = true;
        self.just_pressed = true;
    }

    pub fn release(&mut self)
        ensures
            *final(self) == (MouseButtonState { held: false, just_released: true, ..*old(self) }),
    {
        self.held = false;
        self.just_released = true;
    }

    /// Clears the edges; the held state stays.
    pub fn end_frame(&mut self)
        ensures
            *final(self) == (MouseButtonState { just_pressed: false, just_released: false, ..*old(self) }),
    {
        self.just_pressed = false;
        self.just_released = false;
    }
}

/// The set of tracked buttons that are down.
#[derive(Debug, Clone, Copy, PartialEq, Eq, Structural)]
pub struct MouseButtons {
    bits: u8,
}

impl MouseButtons {
    /// `button` is tracked and down.
    pub closed spec fn holds(self, button: MouseButton) -> bool {
        match mouse_button_index(button) {
            Some(i) => word_bit(self.bits as u64, i as int),
            None => false,
        }
    }

    /// No button down.
    pub closed spec fn none_held(self) -> bool {
        self.bits == 0
    }

    pub fn new() -> (r: Self)
        ensures
            r.none_held(),
            forall|b: MouseButton| !#[trigger] r.holds(b),
    {
        let r = MouseButtons { bits: 0 };
        assert forall|b: MouseButton| !#[trigger] r.holds(b) by {
            if let Some(i) = mouse_button_index(b) {
                crate::bits::lemma_zero_word(i as int);
            }
        }
        r
    }

    pub fn contains(self, button: MouseButton) -> (r: bool)
        ensures
            r == self.holds(button),
    {
        match mouse_button_bit(button) {
            Some(bit) => {
                proof {
                    let i = mouse_button_index(button)->0;
                    let w = self.bits;
                    assert(i < 8 ==> ((w & (1u8 << i)) != 0) == (((w as u64) >> (i as u64)) & 1u64 == 1u64)) by (bit_vector);
                }
                self.bits & bit != 0
            },
            None => false,
        }
    }

    /// Marks `button` down; untracked buttons are ignored.
    pub fn insert(&mut self, button: MouseButton)
        ensures
            forall|b: MouseButton| #[trigger] final(self).holds(b) == (old(self).holds(b) || (b == button && mouse_button_index(b) is Some)),
    {
        match mouse_button_bit(button) {
            Some(bit) => {
                let w = self.bits;
                self.bits = w | bit;
                proof {
                    let i = mouse_button_index(button)->0;
                    assert forall|b: MouseButton| #[trigger] self.holds(b) == (old(self).holds(b) || (b == button && mouse_button_index(b) is Some)) by {
                        if let Some(j) = mouse_button_index(b) {
                            assert(i < 8 && j < 8 ==> ((((w | (1u8 << i)) as u64) >> (j as u64)) & 1u64 == 1u64) == (i == j || ((w as u64) >> (j as u64)) & 1u64 == 1u64)) by (bit_vector);
                            if i == j {
                                assert(b == button);
                            }
                        }
                    }
                }
            },
            None => {},
        }
    }

    /// Marks `button` up; untracked buttons are ignored.
    pub fn remove(&mut self, button: MouseButton)
        ensures
            forall|b: MouseButton| #[trigger] final(self).holds(b) == (old(self).holds(b) && b != button),
    {
        match mouse_button_bit(button) {
            Some(bit) => {
                let w = self.bits;
                self.bits = w & !bit;
                proof {
                    let i = mouse_button_index(button)->0;
                    assert forall|b: MouseButton| #[trigger] self.holds(b) == (old(self).holds(b) && b != button) by {
                        if let Some(j) = mouse_button_index(b) {
                            assert(i < 8 && j < 8 ==> ((((w & !(1u8 << i)) as u64) >> (j as u64)) & 1u64 == 1u64) == (i != j && ((w as u64) >> (j as u64)) & 1u64 == 1u64)) by (bit_vector);
                            if i == j {
                                assert(b == button);
                            }
                        }
                    }
                }
            },
            None => {},
        }
    }

    /// No button is down.
    pub fn is_empty(self) -> (r: bool)
        ensures
            r == self.none_held(),
            r == forall|b: MouseButton| !#[trigger] self.holds(b),
    {
        proof {
            let w = self.bits as u64;
            if self.bits == 0 {
                assert forall|b: MouseButton| !#[trigger] self.holds(b) by {
                    if let Some(i) = mouse_button_index(b) {
                        crate::bits::lemma_zero_word(i as int);
                    }
                }
            } else {
                crate::bits::lemma_nonzero_has_bit(w);
                let j = w.trailing_zeros() as int;
                let jj = j as u64;
                assert(w < 256 && jj < 64 && (w >> jj) & 1u64 == 1u64 ==> jj < 8) by (bit_vector);
                let b = if j == 0 {
                    MouseButton::Left
                } else if j == 1 {
                    MouseButton::Right
                } else if j == 2 {
                    MouseButton::Middle
                } else if j == 3 {
                    MouseButton::Back
                } else if j == 4 {
                    MouseButton::Forward
                } else {
                    MouseButton::Other((j - 5) as u16)
                };
                assert(mouse_button_index(b) == Some(j as u8));
                assert(self.holds(b));
            }
        }
        self.bits == 0
    }
}

impl Default for MouseButtons {
    fn default() -> (r: Self)
        ensures
            r.none_held(),
            forall|b: MouseButton| !#[trigger] r.holds(b),
    {
        Self::new()
    }
}

/// A key the windowing layer names; the ones the library does not track
/// are `Other`.
#[derive(Debug, Clone, Copy, PartialEq, Eq, Structural)]
pub enum NamedKey {
    Backspace,
    Delete,
    ArrowLeft,
    ArrowRight,
    ArrowUp,
    ArrowDown,
    Home,
    End,
    Enter,
    Escape,
    Tab,
    Other,
}

/// The special key a named key marks, if any.
pub open spec fn named_key_special(key: NamedKey) -> Option<SpecialKey> {
    match key {
        NamedKey::Backspace => Some(SpecialKey::Backspace),
        NamedKey::Delete => Some(SpecialKey::Delete),
        NamedKey::ArrowLeft => Some(SpecialKey::ArrowLeft),
        NamedKey::ArrowRight => Some(SpecialKey::ArrowRight),
        NamedKey::ArrowUp => Some(SpecialKey::ArrowUp),
        NamedKey::ArrowDown => Some(SpecialKey::ArrowDown),
        NamedKey::Home => Some(SpecialKey::Home),
        NamedKey::End => Some(SpecialKey::End),
        NamedKey::Enter => Some(SpecialKey::Return),
        NamedKey::Escape => Some(SpecialKey::Escape),
        NamedKey::Tab => Some(SpecialKey::Tab),
        NamedKey::Other => None,
    }
}

/// A control code: Unicode's C0 and C1 ranges, as `char::is_control`
/// documents.
pub open spec fn is_control_char(c: char) -> bool {
    (c as u32) <= 0x1f || (0x7f <= (c as u32) && (c as u32) <= 0x9f)
}

/// `c` with an ASCII capital made small.
pub open spec fn ascii_lower(c: char) -> char {
    if 'A' <= c && c <= 'Z' {
        ((c as u32) + 32) as char
    } else {
        c
    }
}

/// The shortcut that Ctrl with the text `s` marks, going by its first
/// character without regard to ASCII case.
pub open spec fn ctrl_shortcut(s: Seq<char>) -> Option<SpecialKey> {
    let c = if s.len() == 0 { ' ' } else { ascii_lower(s[0]) };
    if c == 'a' {
        Some(SpecialKey::CtrlA)
    } else if c == 'c' {
        Some(SpecialKey::CtrlC)
    } else if c == 'v' {
        Some(SpecialKey::CtrlV)
    } else if c == 'x' {
        Some(SpecialKey::CtrlX)
    } else if c == 'z' {
        Some(SpecialKey::CtrlZ)
    } else {
        None
    }
}

/// The characters of `s` that are not control codes, in order.
pub open spec fn printable_chars(s: Seq<char>) -> Seq<char>
    decreases s.len(),
{
    if s.len() == 0 {
        s
    } else if is_control_char(s.last()) {
        printable_chars(s.drop_last())
    } else {
        printable_chars(s.drop_last()).push(s.last())
    }
}

/// The key mask after a key press on `mask`: with Ctrl held, the shortcut
/// of the key's `character` (if it has one), then the special key `named`
/// stands for (if any).
pub open spec fn pressed_mask(mask: u32, ctrl: bool, character: Option<Seq<char>>, named: NamedKey) -> u32 {
    let m1 = if ctrl && character is Some {
        match ctrl_shortcut(character->0) {
            Some(k) => mask | (1u32 << special_key_index(k)),
            None => mask,
        }
    } else {
        mask
    };
    match named_key_special(named) {
        Some(k) => m1 | (1u32 << special_key_index(k)),
        None => m1,
    }
}

/// A mask that holds one key's bit holds no other key: for a special key
/// `s`, exactly the key at `s`'s position is in `1 << position(s)`; and the
/// mask of a lone named key press is the bit of the key it names.
pub proof fn lemma_single_key_mask()
    ensures
        forall|s: SpecialKey, k: SpecialKey| #[trigger] key_in_mask(1u32 << special_key_index(s), k) == (s == k),
        forall|n: NamedKey| #[trigger] pressed_mask(0, false, None, n) == match named_key_special(n) {
            Some(s) => 1u32 << special_key_index(s),
            None => 0u32,
        },
{
    assert forall|s: SpecialKey, k: SpecialKey| #[trigger] key_in_mask(1u32 << special_key_index(s), k) == (s == k) by {
        let i = special_key_index(s);
        let j = special_key_index(k);
        assert(i < 16 && j < 16);
        assert(((1u32 << i) & (1u32 << j) != 0) == (i == j)) by (bit_vector)
            requires i < 16, j < 16;
    }
    assert forall|n: NamedKey| #[trigger] pressed_mask(0, false, None, n) == match named_key_special(n) {
        Some(s) => 1u32 << special_key_index(s),
        None => 0u32,
    } by {
        if let Some(s) = named_key_special(n) {
            let i = special_key_index(s);
            assert(i < 16);
            assert(0u32 | (1u32 << i) == 1u32 << i) by (bit_vector);
        }
    }
}

/// Every key position is below 16.
proof fn lemma_special_key_index_small()
    ensures
        forall|k: SpecialKey| #[trigger] special_key_index(k) < 16,
{
}

/// A mask with a bit OR-ed in keeps every bit it had.
proof fn lemma_marked_keys_kept(m: u32, b: u32)
    ensures
        m & !(m | b) == 0,
        m | 0u32 == m,
{
    assert(m & !(m | b) == 0) by (bit_vector);
    assert(m | 0u32 == m) by (bit_vector);
}

/// Whether `key`'s bit is set in `mask`.
pub open spec fn key_in_mask(mask: u32, key: SpecialKey) -> bool {
    mask & (1u32 << special_key_index(key)) != 0
}

fn is_control(c: char) -> (r: bool)
    ensures
        r == is_control_char(c),
{
    let v = c as u32;
    v <= 0x1f || (0x7f <= v && v <= 0x9f)
}

/// The keyboard and button side of a frame's input: which buttons are
/// down and what changed this frame, the text typed, the special keys
/// pressed, the modifiers, and which widget is being dragged. Pointer
/// positions are kept by the caller.
pub struct InputState {
    pub mouse_down: MouseButtons,
    pub lmb: MouseButtonState,
    pub rmb: MouseButtonState,
    pub drag_widget: Option<usize>,
    pub chars_this_frame: Vec<char>,
    pub special_keys_this_frame: u32,
    pub ctrl: bool,
    pub shift: bool,
    pub alt: bool,
}

impl InputState {
    pub fn new() -> (r: Self)
        ensures
            r.mouse_down.none_held(),
            forall|b: MouseButton| !#[trigger] r.mouse_down.holds(b),
            r.lmb == (MouseButtonState { held: false, just_pressed: false, just_released: false }),
            r.rmb == (MouseButtonState { held: false, just_pressed: false, just_released: false }),
            (r.drag_widget is None),
            r.chars_this_frame@ == Seq::<char>::empty(),
            r.special_keys_this_frame == 0,
            !r.ctrl && !r.shift && !r.alt,
    {
        InputState {
            mouse_down: MouseButtons::new(),
            lmb: MouseButtonState::default(),
            rmb: MouseButtonState::default(),
            drag_widget: None,
            chars_this_frame: Vec::new(),
            special_keys_this_frame: 0,
            ctrl: false,
            shift: false,
            alt: false,
        }
    }

    pub fn is_mouse_down(&self, button: MouseButton) -> (r: bool)
        ensures
            r == self.mouse_down.holds(button),
    {
        self.mouse_down.contains(button)
    }

    pub fn is_key_pressed(&self, key: SpecialKey) -> (r: bool)
        ensures
            r == key_in_mask(self.special_keys_this_frame, key),
    {
        self.special_keys_this_frame & special_key_bit(key) != 0
    }

    /// A special key or a character arrived this frame.
    pub fn any_key_pressed(&self) -> (r: bool)
        ensures
            r == (self.special_keys_this_frame != 0 || self.chars_this_frame@.len() > 0),
    {
        self.special_keys_this_frame != 0 || self.chars_this_frame.len() > 0
    }

    /// Sets `key`'s bit; the other bits stay.
    pub fn mark_key(&mut self, key: SpecialKey)
        ensures
            final(self).special_keys_this_frame == old(self).special_keys_this_frame | (1u32 << special_key_index(key)),
            key_in_mask(final(self).special_keys_this_frame, key),
            forall|k: SpecialKey| key_in_mask(old(self).special_keys_this_frame, k) ==> #[trigger] key_in_mask(final(self).special_keys_this_frame, k),
            final(self).chars_this_frame == old(self).chars_this_frame,
            final(self).mouse_down == old(self).mouse_down,
            final(self).lmb == old(self).lmb && final(self).rmb == old(self).rmb,
            final(self).drag_widget == old(self).drag_widget,
            final(self).ctrl == old(self).ctrl && final(self).shift == old(self).shift && final(self).alt == old(self).alt,
    {
        let old_mask = self.special_keys_this_frame;
        let bit = special_key_bit(key);
        self.special_keys_this_frame = old_mask | bit;
        proof {
            let i = special_key_index(key);
            assert(i < 16 ==> (old_mask | (1u32 << i)) & (1u32 << i) != 0) by (bit_vector);
            assert forall|k: SpecialKey| key_in_mask(old_mask, k) implies #[trigger] key_in_mask(self.special_keys_this_frame, k) by {
                let j = special_key_index(k);
                assert(j < 16 && i < 16 && old_mask & (1u32 << j) != 0 ==> (old_mask | (1u32 << i)) & (1u32 << j) != 0) by (bit_vector);
            }
        }
    }

    /// A button went down.
    pub fn press(&mut self, button: MouseButton)
        ensures
            forall|b: MouseButton| #[trigger] final(self).mouse_down.holds(b) == (old(self).mouse_down.holds(b) || (b == button && mouse_button_index(b) is Some)),
            final(self).lmb == if button == MouseButton::Left { (MouseButtonState { held: true, just_pressed: true, ..old(self).lmb }) } else { old(self).lmb },
            final(self).rmb == if button == MouseButton::Right { (MouseButtonState { held: true, just_pressed: true, ..old(self).rmb }) } else { old(self).rmb },
            final(self).drag_widget == old(self).drag_widget,
            final(self).chars_this_frame == old(self).chars_this_frame,
            final(self).special_keys_this_frame == old(self).special_keys_this_frame,
    {
        self.mouse_down.insert(button);
        match button {
            MouseButton::Left => self.lmb.press(),
            MouseButton::Right => self.rmb.press(),
            _ => {},
        }
    }

    /// A button went up; releasing the left button ends any drag.
    pub fn release(&mut self, button: MouseButton)
        ensures
            forall|b: MouseButton| #[trigger] final(self).mouse_down.holds(b) == (old(self).mouse_down.holds(b) && b != button),
            final(self).lmb == if button == MouseButton::Left { (MouseButtonState { held: false, just_released: true, ..old(self).lmb }) } else { old(self).lmb },
            final(self).rmb == if button == MouseButton::Right { (MouseButtonState { held: false, just_released: true, ..old(self).rmb }) } else { old(self).rmb },
            final(self).drag_widget == if button == MouseButton::Left { None } else { old(self).drag_widget },
            final(self).chars_this_frame == old(self).chars_this_frame,
            final(self).special_keys_this_frame == old(self).special_keys_this_frame,
    {
        self.mouse_down.remove(button);
        match button {
            MouseButton::Left => {
                self.lmb.release();
                self.drag_widget = None;
            },
            MouseButton::Right => self.rmb.release(),
            _ => {},
        }
    }

    pub fn set_modifiers(&mut self, ctrl: bool, shift: bool, alt: bool)
        ensures
            final(self).ctrl == ctrl && final(self).shift == shift && final(self).alt == alt,
            final(self).chars_this_frame == old(self).chars_this_frame,
            final(self).special_keys_this_frame == old(self).special_keys_this_frame,
            final(self).mouse_down == old(self).mouse_down,
            final(self).drag_widget == old(self).drag_widget,
    {
        self.ctrl = ctrl;
        self.shift = shift;
        self.alt = alt;
    }

    /// Starts dragging `widget_idx`.
    pub fn begin_drag(&mut self, widget_idx: usize)
        ensures
            final(self).drag_widget == Some(widget_idx),
            final(self).chars_this_frame == old(self).chars_this_frame,
            final(self).special_keys_this_frame == old(self).special_keys_this_frame,
            final(self).mouse_down == old(self).mouse_down,
    {
        self.drag_widget = Some(widget_idx);
    }

    pub fn is_dragging(&self, widget_idx: usize) -> (r: bool)
        ensures
            r == (self.drag_widget == Some(widget_idx)),
    {
        match self.drag_widget {
            Some(w) => w == widget_idx,
            None => false,
        }
    }

    /// Text typed with a key press; without Ctrl its printable characters
    /// are kept for this frame.
    pub fn push_text(&mut self, text: &str)
        ensures
            final(self).chars_this_frame@ == if old(self).ctrl {
                old(self).chars_this_frame@
            } else {
                old(self).chars_this_frame@ + printable_chars(text@)
            },
            final(self).special_keys_this_frame == old(self).special_keys_this_frame,
            final(self).ctrl == old(self).ctrl,
            final(self).shift == old(self).shift && final(self).alt == old(self).alt,
            final(self).mouse_down == old(self).mouse_down,
            final(self).drag_widget == old(self).drag_widget,
    {
        if self.ctrl {
            return;
        }
        let chars = chars_of(text);
        let ghost start = self.chars_this_frame@;
        let mut i: usize = 0;
        while i < chars.len()
            invariant
                i <= chars@.len(),
                chars@ == text@,
                self.chars_this_frame@ == start + printable_chars(chars@.take(i as int)),
                self.special_keys_this_frame == old(self).special_keys_this_frame,
                self.ctrl == old(self).ctrl,
                self.shift == old(self).shift && self.alt == old(self).alt,
                self.mouse_down == old(self).mouse_down,
                self.drag_widget == old(self).drag_widget,
            decreases chars@.len() - i,
        {
            let c = chars[i];
            proof {
                let p = chars@.take(i + 1);
                assert(p.drop_last() =~= chars@.take(i as int));
                assert(p.last() == c);
            }
            if !is_control(c) {
                self.chars_this_frame.push(c);
            }
            i = i + 1;
            assert(self.chars_this_frame@ =~= start + printable_chars(chars@.take(i as int)));
        }
        assert(chars@.take(chars@.len() as int) =~= chars@);
    }

    /// Ctrl with the character key `character`: marks the matching
    /// shortcut, if there is one.
    pub fn handle_ctrl_character(&mut self, character: &str)
        ensures
            final(self).special_keys_this_frame == match ctrl_shortcut(character@) {
                Some(k) => old(self).special_keys_this_frame | (1u32 << special_key_index(k)),
                None => old(self).special_keys_this_frame,
            },
            final(self).chars_this_frame == old(self).chars_this_frame,
            final(self).ctrl == old(self).ctrl,
            final(self).shift == old(self).shift && final(self).alt == old(self).alt,
            final(self).mouse_down == old(self).mouse_down,
            final(self).drag_widget == old(self).drag_widget,
    {
        let chars = chars_of(character);
        let first = if chars.len() == 0 {
            ' '
        } else {
            let c = chars[0];
            if 'A' <= c && c <= 'Z' {
                let lower = (c as u32 + 32) as u8;
                lower as char
            } else {
                c
            }
        };
        if first == 'a' {
            self.mark_key(SpecialKey::CtrlA);
        } else if first == 'c' {
            self.mark_key(SpecialKey::CtrlC);
        } else if first == 'v' {
            self.mark_key(SpecialKey::CtrlV);
        } else if first == 'x' {
            self.mark_key(SpecialKey::CtrlX);
        } else if first == 'z' {
            self.mark_key(SpecialKey::CtrlZ);
        }
    }

    /// A named key went down: marks its special key, if it has one.
    pub fn handle_named_key(&mut self, key: NamedKey)
        ensures
            final(self).special_keys_this_frame == match named_key_special(key) {
                Some(k) => old(self).special_keys_this_frame | (1u32 << special_key_index(k)),
                None => old(self).special_keys_this_frame,
            },
            final(self).chars_this_frame == old(self).chars_this_frame,
            final(self).ctrl == old(self).ctrl,
            final(self).shift == old(self).shift && final(self).alt == old(self).alt,
            final(self).mouse_down == old(self).mouse_down,
            final(self).drag_widget == old(self).drag_widget,
    {
        match key {
            NamedKey::Backspace => self.mark_key(SpecialKey::Backspace),
            NamedKey::Delete => self.mark_key(SpecialKey::Delete),
            NamedKey::ArrowLeft => self.mark_key(SpecialKey::ArrowLeft),
            NamedKey::ArrowRight => self.mark_key(SpecialKey::ArrowRight),
            NamedKey::ArrowUp => self.mark_key(SpecialKey::ArrowUp),
            NamedKey::ArrowDown => self.mark_key(SpecialKey::ArrowDown),
            NamedKey::Home => self.mark_key(SpecialKey::Home),
            NamedKey::End => self.mark_key(SpecialKey::End),
            NamedKey::Enter => self.mark_key(SpecialKey::Return),
            NamedKey::Escape => self.mark_key(SpecialKey::Escape),
            NamedKey::Tab => self.mark_key(SpecialKey::Tab),
            NamedKey::Other => {},
        }
    }

    /// A key press: its text is typed (unless Ctrl is held), with Ctrl held
    /// its character's shortcut is marked, and a special key is marked.
    /// `character` is the pressed key's character, when it is one.
    pub fn key_press(&mut self, text: Option<&str>, character: Option<&str>, named: NamedKey)
        ensures
            final(self).chars_this_frame@ == match text {
                Some(t) if !old(self).ctrl => old(self).chars_this_frame@ + printable_chars(t@),
                _ => old(self).chars_this_frame@,
            },
            final(self).special_keys_this_frame == pressed_mask(
                old(self).special_keys_this_frame,
                old(self).ctrl,
                match character { Some(c) => Some(c@), None => None },
                named,
            ),
            old(self).special_keys_this_frame & !final(self).special_keys_this_frame == 0,
            forall|k: SpecialKey| key_in_mask(old(self).special_keys_this_frame, k)
                ==> #[trigger] key_in_mask(final(self).special_keys_this_frame, k),
            named_key_special(named) matches Some(k) ==> key_in_mask(final(self).special_keys_this_frame, k),
            old(self).ctrl && character is Some && ctrl_shortcut(character->0@) is Some
                ==> key_in_mask(final(self).special_keys_this_frame, ctrl_shortcut(character->0@)->0),
            final(self).ctrl == old(self).ctrl && final(self).shift == old(self).shift && final(self).alt == old(self).alt,
            final(self).mouse_down == old(self).mouse_down,
            final(self).drag_widget == old(self).drag_widget,
    {
        let m0 = self.special_keys_this_frame;
        match text {
            Some(t) => self.push_text(t),
            None => {},
        }
        if self.ctrl {
            match character {
                Some(c) => self.handle_ctrl_character(c),
                None => {},
            }
        }
        let m1 = self.special_keys_this_frame;
        self.handle_named_key(named);
        let m2 = self.special_keys_this_frame;
        proof {
            let b1: u32 = if old(self).ctrl && character is Some && ctrl_shortcut(character->0@) is Some {
                1u32 << special_key_index(ctrl_shortcut(character->0@)->0)
            } else {
                0u32
            };
            let b2: u32 = match named_key_special(named) {
                Some(k) => 1u32 << special_key_index(k),
                None => 0u32,
            };
            lemma_marked_keys_kept(m0, b1);
            lemma_marked_keys_kept(m1, b2);
            assert(m1 == m0 | b1);
            assert(m2 == m1 | b2);
            lemma_special_key_index_small();
            assert(m0 & !m2 == 0) by (bit_vector)
                requires m0 & !m1 == 0, m1 & !m2 == 0;
            assert forall|k: SpecialKey| key_in_mask(m0, k) implies #[trigger] key_in_mask(m2, k) by {
                let i = special_key_index(k);
                let b = 1u32 << i;
                assert((m0 & b) != 0 ==> (m2 & b) != 0) by (bit_vector)
                    requires m0 & !m2 == 0;
            }
            if let Some(k) = named_key_special(named) {
                let i = special_key_index(k);
                let b = 1u32 << i;
                assert(i < 16);
                assert(m2 == m1 | b);
                assert((m1 | b) & b != 0) by (bit_vector)
                    requires b == 1u32 << i, i < 16;
            }
            if old(self).ctrl && character is Some && ctrl_shortcut(character->0@) is Some {
                let k = ctrl_shortcut(character->0@)->0;
                let i = special_key_index(k);
                let b = 1u32 << i;
                assert(i < 16);
                assert(m1 == m0 | b);
                assert((m2 & b) != 0) by (bit_vector)
                    requires b == 1u32 << i, i < 16, m1 == m0 | b, m1 & !m2 == 0;
                assert(key_in_mask(m2, k));
            }
        }
    }

    /// Forgets this frame's text, keys and button edges; held buttons,
    /// modifiers and the drag stay.
    pub fn end_frame(&mut self)
        ensures
            final(self).chars_this_frame@ == Seq::<char>::empty(),
            final(self).special_keys_this_frame == 0,
            final(self).lmb == (MouseButtonState { just_pressed: false, just_released: false, ..old(self).lmb }),
            final(self).rmb == (MouseButtonState { just_pressed: false, just_released: false, ..old(self).rmb }),
            final(self).mouse_down == old(self).mouse_down,
            final(self).drag_widget == old(self).drag_widget,
            final(self).ctrl == old(self).ctrl && final(self).shift == old(self).shift && final(self).alt == old(self).alt,
    {
        self.chars_this_frame.clear();
        self.special_keys_this_frame = 0;
        self.lmb.end_frame();
        self.rmb.end_frame();
    }
}

} // verus!
