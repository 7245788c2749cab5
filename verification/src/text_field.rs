//! The one-line text fields of the colour picker: a character buffer with
//! a cursor, and the parsers and formatters for the colour values typed
//! into them.
use vstd::prelude::*;
use crate::alloc_ops::string_push;
use crate::input::{key_in_mask, lemma_single_key_mask, pressed_mask, special_key_bit, NamedKey, SpecialKey};

verus! {

broadcast use vstd::string::axiom_spec_iter;

/// The characters of `s`, in order.
pub fn chars_of(s: &str) -> (r: Vec<char>)
    ensures
        r@ == s@,
{
    let mut v: Vec<char> = Vec::new();
    for c in it: s.chars()
        invariant
            v@ == it.seq().take(it.index() as int),
    {
        v.push(c);
    }
    v
}

/// A string holding `chars`.
pub fn string_of(chars: &[char]) -> (r: String)
    ensures
        r@ == chars@,
{
    let mut s = String::new();
    let mut i: usize = 0;
    while i < chars.len()
        invariant
            i <= chars@.len(),
            s@ == chars@.take(i as int),
        decreases chars@.len() - i,
    {
        string_push(&mut s, chars[i]);
        i = i + 1;
        assert(s@ =~= chars@.take(i as int));
    }
    assert(chars@.take(chars@.len() as int) =~= chars@);
    s
}

/// One keystroke's worth of editing.
#[derive(Debug, Clone, Copy, PartialEq, Eq, Structural)]
pub enum FieldEdit {
    Insert(char),
    Backspace,
    Delete,
    Left,
    Right,
    Home,
    End,
}

/// The text after `edit` on text `t` with the cursor at `c`.
pub open spec fn edited_text(t: Seq<char>, c: nat, edit: FieldEdit) -> Seq<char> {
    match edit {
        FieldEdit::Insert(ch) => t.insert(c as int, ch),
        FieldEdit::Backspace => if c > 0 { t.remove(c - 1) } else { t },
        FieldEdit::Delete => if c < t.len() { t.remove(c as int) } else { t },
        _ => t,
    }
}

/// The cursor after `edit` on text `t` with the cursor at `c`.
pub open spec fn edited_cursor(t: Seq<char>, c: nat, edit: FieldEdit) -> nat {
    match edit {
        FieldEdit::Insert(_) => c + 1,
        FieldEdit::Backspace => if c > 0 { (c - 1) as nat } else { c },
        FieldEdit::Delete => c,
        FieldEdit::Left => if c > 0 { (c - 1) as nat } else { 0 },
        FieldEdit::Right => if c < t.len() { c + 1 } else { c },
        FieldEdit::Home => 0,
        FieldEdit::End => t.len(),
    }
}

/// A single-line text field: its characters, a cursor between them, and
/// whether it has keyboard focus.
#[derive(Clone)]
pub struct MiniInput {
    text: Vec<char>,
    cursor: usize,
    focused: bool,
}

impl MiniInput {
    pub closed spec fn text_view(self) -> Seq<char> {
        self.text@
    }

    pub closed spec fn cursor_pos(self) -> nat {
        self.cursor as nat
    }

    pub closed spec fn has_focus(self) -> bool {
        self.focused
    }

    /// The cursor never passes the end of the text.
    pub closed spec fn wf(self) -> bool {
        self.cursor <= self.text@.len()
    }

    /// A field holding `s`, cursor at the end, without focus.
    pub fn new(s: &str) -> (r: Self)
        ensures
            r.wf(),
            r.text_view() == s@,
            r.cursor_pos() == s@.len(),
            !r.has_focus(),
    {
        let text = chars_of(s);
        let cursor = text.len();
        MiniInput { text, cursor, focused: false }
    }

    /// An empty field without focus.
    pub fn empty() -> (r: Self)
        ensures
            r.wf(),
            r.text_view() == Seq::<char>::empty(),
            r.cursor_pos() == 0,
            !r.has_focus(),
    {
        MiniInput { text: Vec::new(), cursor: 0, focused: false }
    }

    /// Replaces the text with `s` and puts the cursor at its end.
    pub fn set(&mut self, s: &str)
        ensures
            final(self).wf(),
            final(self).text_view() == s@,
            final(self).cursor_pos() == s@.len(),
            final(self).has_focus() == old(self).has_focus(),
    {
        self.text = chars_of(s);
        self.cursor = self.text.len();
    }

    pub fn char_count(&self) -> (r: usize)
        ensures
            r == self.text_view().len(),
    {
        self.text.len()
    }

    pub fn cursor(&self) -> (r: usize)
        ensures
            r == self.cursor_pos(),
    {
        self.cursor
    }

    pub fn is_focused(&self) -> (r: bool)
        ensures
            r == self.has_focus(),
    {
        self.focused
    }

    pub fn set_focused(&mut self, focused: bool)
        ensures
            final(self).has_focus() == focused,
            final(self).text_view() == old(self).text_view(),
            final(self).cursor_pos() == old(self).cursor_pos(),
            old(self).wf() ==> final(self).wf(),
    {
        self.focused = focused;
    }

    /// The text as a `String`.
    pub fn text(&self) -> (r: String)
        ensures
            r@ == self.text_view(),
    {
        string_of(self.text.as_slice())
    }

    /// Inserts `ch` at the cursor and moves the cursor past it.
    pub fn insert(&mut self, ch: char)
        requires
            old(self).wf(),
            old(self).text_view().len() < usize::MAX,
        ensures
            final(self).wf(),
            final(self).text_view() == old(self).text_view().insert(old(self).cursor_pos() as int, ch),
            final(self).cursor_pos() == old(self).cursor_pos() + 1,
            final(self).has_focus() == old(self).has_focus(),
    {
        self.text.insert(self.cursor, ch);
        self.cursor = self.cursor + 1;
    }

    /// Removes the character before the cursor; nothing at the start.
    pub fn backspace(&mut self)
        requires
            old(self).wf(),
        ensures
            final(self).wf(),
            old(self).cursor_pos() == 0 ==> *final(self) == *old(self),
            old(self).cursor_pos() > 0 ==> {
                &&& final(self).text_view() == old(self).text_view().remove(old(self).cursor_pos() - 1)
                &&& final(self).cursor_pos() == old(self).cursor_pos() - 1
            },
            final(self).has_focus() == old(self).has_focus(),
    {
        if self.cursor == 0 {
            return;
        }
        self.text.remove(self.cursor - 1);
        self.cursor = self.cursor - 1;
    }

    /// Removes the character after the cursor; nothing at the end.
    pub fn delete(&mut self)
        requires
            old(self).wf(),
        ensures
            final(self).wf(),
            old(self).cursor_pos() == old(self).text_view().len() ==> *final(self) == *old(self),
            old(self).cursor_pos() < old(self).text_view().len() ==> {
                &&& final(self).text_view() == old(self).text_view().remove(old(self).cursor_pos() as int)
                &&& final(self).cursor_pos() == old(self).cursor_pos()
            },
            final(self).has_focus() == old(self).has_focus(),
    {
        let n = self.text.len();
        if self.cursor >= n {
            return;
        }
        self.text.remove(self.cursor);
    }

    pub fn move_left(&mut self)
        requires
            old(self).wf(),
        ensures
            final(self).wf(),
            final(self).text_view() == old(self).text_view(),
            final(self).cursor_pos() == if old(self).cursor_pos() > 0 {
                old(self).cursor_pos() - 1
            } else {
                0
            },
            final(self).has_focus() == old(self).has_focus(),
    {
        if self.cursor > 0 {
            self.cursor = self.cursor - 1;
        }
    }

    pub fn move_right(&mut self)
        requires
            old(self).wf(),
        ensures
            final(self).wf(),
            final(self).text_view() == old(self).text_view(),
            final(self).cursor_pos() == if old(self).cursor_pos() < old(self).text_view().len() {
                old(self).cursor_pos() + 1
            } else {
                old(self).cursor_pos()
            },
            final(self).has_focus() == old(self).has_focus(),
    {
        let n = self.text.len();
        if self.cursor < n {
            self.cursor = self.cursor + 1;
        }
    }

    pub fn home(&mut self)
        ensures
            final(self).wf(),
            final(self).text_view() == old(self).text_view(),
            final(self).cursor_pos() == 0,
            final(self).has_focus() == old(self).has_focus(),
    {
        self.cursor = 0;
    }

    pub fn end(&mut self)
        ensures
            final(self).wf(),
            final(self).text_view() == old(self).text_view(),
            final(self).cursor_pos() == old(self).text_view().len(),
            final(self).has_focus() == old(self).has_focus(),
    {
        self.cursor = self.text.len();
    }

    /// Applies one keystroke.
    pub fn apply(&mut self, edit: FieldEdit)
        requires
            old(self).wf(),
            old(self).text_view().len() < usize::MAX,
        ensures
            final(self).wf(),
            final(self).text_view() == edited_text(old(self).text_view(), old(self).cursor_pos(), edit),
            final(self).cursor_pos() == edited_cursor(old(self).text_view(), old(self).cursor_pos(), edit),
            final(self).has_focus() == old(self).has_focus(),
    {
        match edit {
            FieldEdit::Insert(ch) => self.insert(ch),
            FieldEdit::Backspace => self.backspace(),
            FieldEdit::Delete => self.delete(),
            FieldEdit::Left => self.move_left(),
            FieldEdit::Right => self.move_right(),
            FieldEdit::Home => self.home(),
            FieldEdit::End => self.end(),
        }
    }
}


/// Where Ctrl+Left puts a cursor at `c`: on the nearest space before it,
/// or at the start.
pub open spec fn word_left(t: Seq<char>, c: nat) -> nat
    decreases c,
{
    if c == 0 {
        0
    } else if c <= t.len() && t[c - 1] == ' ' {
        (c - 1) as nat
    } else {
        word_left(t, (c - 1) as nat)
    }
}

/// Where Ctrl+Right puts a cursor at `c`: on the next space after it, or
/// at the end.
pub open spec fn word_right(t: Seq<char>, c: nat) -> nat
    decreases t.len() - c,
{
    if c >= t.len() {
        c
    } else if c + 1 < t.len() && t[c + 1 as int] == ' ' {
        c + 1
    } else {
        word_right(t, c + 1)
    }
}

/// What the pointer did to a text box this frame. A press inside carries
/// the character index under the pointer, which the caller finds from the
/// laid-out glyph positions.
#[derive(Debug, Clone, Copy, PartialEq, Eq, Structural)]
pub enum BoxClick {
    NoClick,
    Inside(usize),
    Outside,
}

/// What one frame did to a text box, besides its text and cursor.
#[derive(Debug, Clone, Copy, PartialEq, Eq, Structural)]
pub struct TextFrameOutcome {
    /// Whether the box has focus after the frame.
    pub focused: bool,
    /// Whether the box had focus while the keys were read.
    pub active: bool,
    /// Whether an edit changed the text (the change callbacks fire).
    pub changed: bool,
    /// Whether Return was pressed while the box had focus.
    pub submitted: bool,
    /// Whether the caret moved or was placed, so that its blink restarts and
    /// the view scrolls to it.
    pub caret_moved: bool,
}

/// The text and cursor once a value from a bound signal is taken over:
/// only while the box is not focused.
pub open spec fn synced(t: Seq<char>, c: nat, focused: bool, signal: Option<Seq<char>>) -> (Seq<char>, nat) {
    if !focused && signal is Some {
        let v = signal->0;
        (v, if c <= v.len() { c } else { v.len() })
    } else {
        (t, c)
    }
}

/// `chars` typed one by one at the cursor; a character is dropped while
/// the text already holds `limit` characters.
pub open spec fn typed(t: Seq<char>, c: nat, chars: Seq<char>, limit: Option<usize>) -> (Seq<char>, nat)
    decreases chars.len(),
{
    if chars.len() == 0 {
        (t, c)
    } else {
        let prev = typed(t, c, chars.drop_last(), limit);
        if limit is Some && prev.0.len() >= limit->0 {
            prev
        } else {
            (edited_text(prev.0, prev.1, FieldEdit::Insert(chars.last())), prev.1 + 1)
        }
    }
}

/// The editing keys of a frame, in the order a text box handles them:
/// Ctrl+A (caret to the end), Backspace (a word with Ctrl), Delete.
pub open spec fn key_edits(t: Seq<char>, c: nat, keys: u32, ctrl: bool) -> (Seq<char>, nat) {
    let c1 = if key_in_mask(keys, SpecialKey::CtrlA) { t.len() } else { c };
    let (t2, c2) = if !key_in_mask(keys, SpecialKey::Backspace) {
        (t, c1)
    } else if ctrl {
        (t.take(word_left(t, c1) as int) + t.skip(c1 as int), word_left(t, c1))
    } else {
        (edited_text(t, c1, FieldEdit::Backspace), edited_cursor(t, c1, FieldEdit::Backspace))
    };
    (if key_in_mask(keys, SpecialKey::Delete) { edited_text(t2, c2, FieldEdit::Delete) } else { t2 }, c2)
}

/// The navigation keys of a frame, in the order a text box handles them:
/// Left and Right (by words with Ctrl), Home, End. The new cursor.
pub open spec fn key_moves(t: Seq<char>, c: nat, keys: u32, ctrl: bool) -> nat {
    let c4 = if !key_in_mask(keys, SpecialKey::ArrowLeft) {
        c
    } else if ctrl {
        word_left(t, c)
    } else {
        edited_cursor(t, c, FieldEdit::Left)
    };
    let c5 = if !key_in_mask(keys, SpecialKey::ArrowRight) {
        c4
    } else if ctrl {
        word_right(t, c4)
    } else {
        edited_cursor(t, c4, FieldEdit::Right)
    };
    let c6 = if key_in_mask(keys, SpecialKey::Home) { 0 } else { c5 };
    if key_in_mask(keys, SpecialKey::End) { t.len() } else { c6 }
}

/// The editing keys, then the navigation keys.
pub open spec fn keyed(t: Seq<char>, c: nat, keys: u32, ctrl: bool) -> (Seq<char>, nat) {
    let e = key_edits(t, c, keys, ctrl);
    (e.0, key_moves(e.0, e.1, keys, ctrl))
}

/// Whether a key of the mask moves the caret or edits around it.
pub open spec fn caret_keys(keys: u32) -> bool {
    ||| key_in_mask(keys, SpecialKey::CtrlA)
    ||| key_in_mask(keys, SpecialKey::Backspace)
    ||| key_in_mask(keys, SpecialKey::Delete)
    ||| key_in_mask(keys, SpecialKey::ArrowLeft)
    ||| key_in_mask(keys, SpecialKey::ArrowRight)
    ||| key_in_mask(keys, SpecialKey::Home)
    ||| key_in_mask(keys, SpecialKey::End)
}

/// One frame of a text box whose text is `t`, cursor `c` and cap `limit`:
/// a bound value is taken over while unfocused; a press inside focuses the
/// box and puts the caret under the pointer, a press outside blurs it;
/// while focused the typed characters go in, then the keys of `keyed` act,
/// Return submits and Escape blurs. The new text, cursor and outcome.
pub open spec fn text_frame(
    t: Seq<char>,
    c: nat,
    limit: Option<usize>,
    focused: bool,
    click: BoxClick,
    signal: Option<Seq<char>>,
    keys: u32,
    ctrl: bool,
    chars: Seq<char>,
) -> (Seq<char>, nat, TextFrameOutcome) {
    let s = synced(t, c, focused, signal);
    let active = match click {
        BoxClick::NoClick => focused,
        BoxClick::Inside(_) => true,
        BoxClick::Outside => false,
    };
    let c0 = match click {
        BoxClick::Inside(i) => if i <= s.0.len() { i as nat } else { s.0.len() },
        _ => s.1,
    };
    if !active {
        (s.0, c0, TextFrameOutcome {
            focused: false,
            active: false,
            changed: false,
            submitted: false,
            caret_moved: false,
        })
    } else {
        let ty = typed(s.0, c0, chars, limit);
        let k = keyed(ty.0, ty.1, keys, ctrl);
        (k.0, k.1, TextFrameOutcome {
            focused: !key_in_mask(keys, SpecialKey::Escape),
            active: true,
            changed: ty.0.len() > s.0.len() || k.0.len() < ty.0.len(),
            submitted: key_in_mask(keys, SpecialKey::Return),
            caret_moved: click is Inside || chars.len() > 0 || caret_keys(keys),
        })
    }
}

/// The characters of `o`'s string, if it has one.
pub open spec fn opt_chars(o: Option<&str>) -> Option<Seq<char>> {
    match o {
        Some(s) => Some(s@),
        None => None,
    }
}

/// The editing state of a text box: its characters, the cursor and an
/// optional cap on the number of characters.
pub struct TextEditState {
    text: Vec<char>,
    cursor: usize,
    max_length: Option<usize>,
}

impl TextEditState {
    pub closed spec fn text_view(self) -> Seq<char> {
        self.text@
    }

    pub closed spec fn cursor_pos(self) -> nat {
        self.cursor as nat
    }

    pub closed spec fn limit(self) -> Option<usize> {
        self.max_length
    }

    pub closed spec fn wf(self) -> bool {
        self.cursor <= self.text@.len()
    }

    /// Empty, cursor at the start, no cap.
    pub fn new() -> (r: Self)
        ensures
            r.wf(),
            r.text_view() == Seq::<char>::empty(),
            r.cursor_pos() == 0,
            r.limit() is None,
    {
        TextEditState { text: Vec::new(), cursor: 0, max_length: None }
    }

    pub fn set_max_length(&mut self, n: usize)
        ensures
            final(self).limit() == Some(n),
            final(self).text_view() == old(self).text_view(),
            final(self).cursor_pos() == old(self).cursor_pos(),
            old(self).wf() ==> final(self).wf(),
    {
        self.max_length = Some(n);
    }

    /// Replaces the text; the cursor goes to the start.
    pub fn set_text(&mut self, t: &str)
        ensures
            final(self).wf(),
            final(self).text_view() == t@,
            final(self).cursor_pos() == 0,
            final(self).limit() == old(self).limit(),
    {
        self.text = chars_of(t);
        self.cursor = 0;
    }

    /// Replaces the text with a value from outside while the box is not
    /// being edited; the cursor stays where it was if it still fits.
    pub fn sync_text(&mut self, t: &str)
        ensures
            final(self).wf(),
            final(self).text_view() == t@,
            final(self).cursor_pos() == if old(self).cursor_pos() <= t@.len() { old(self).cursor_pos() } else { t@.len() },
            final(self).limit() == old(self).limit(),
    {
        self.text = chars_of(t);
        if self.cursor > self.text.len() {
            self.cursor = self.text.len();
        }
    }

    pub fn text(&self) -> (r: String)
        ensures
            r@ == self.text_view(),
    {
        string_of(self.text.as_slice())
    }

    pub fn char_count(&self) -> (r: usize)
        ensures
            r == self.text_view().len(),
    {
        self.text.len()
    }

    pub fn cursor(&self) -> (r: usize)
        ensures
            r == self.cursor_pos(),
    {
        self.cursor
    }

    /// Puts the cursor at `i`, or at the end when `i` is past it.
    pub fn set_cursor(&mut self, i: usize)
        ensures
            final(self).wf(),
            final(self).cursor_pos() == if i <= old(self).text_view().len() { i as nat } else { old(self).text_view().len() },
            final(self).text_view() == old(self).text_view(),
            final(self).limit() == old(self).limit(),
    {
        if i <= self.text.len() {
            self.cursor = i;
        } else {
            self.cursor = self.text.len();
        }
    }

    /// Types `ch` at the cursor unless the cap is reached; `true` when the
    /// text changed.
    pub fn insert_ch(&mut self, ch: char) -> (changed: bool)
        requires
            old(self).wf(),
            old(self).text_view().len() < usize::MAX,
        ensures
            final(self).wf(),
            final(self).limit() == old(self).limit(),
            changed == !(old(self).limit() matches Some(m) && old(self).text_view().len() >= m),
            changed ==> final(self).text_view() == old(self).text_view().insert(old(self).cursor_pos() as int, ch)
                && final(self).cursor_pos() == old(self).cursor_pos() + 1,
            !changed ==> final(self).text_view() == old(self).text_view() && final(self).cursor_pos() == old(self).cursor_pos(),
    {
        match self.max_length {
            Some(m) => {
                if self.text.len() >= m {
                    return false;
                }
            },
            None => {},
        }
        self.text.insert(self.cursor, ch);
        self.cursor = self.cursor + 1;
        true
    }

    /// Deletes the character before the cursor; `true` when there was one.
    pub fn del_before(&mut self) -> (changed: bool)
        requires
            old(self).wf(),
        ensures
            final(self).wf(),
            final(self).limit() == old(self).limit(),
            changed == (old(self).cursor_pos() > 0),
            changed ==> final(self).text_view() == old(self).text_view().remove(old(self).cursor_pos() - 1)
                && final(self).cursor_pos() == old(self).cursor_pos() - 1,
            !changed ==> final(self).text_view() == old(self).text_view() && final(self).cursor_pos() == old(self).cursor_pos(),
    {
        if self.cursor == 0 {
            return false;
        }
        self.text.remove(self.cursor - 1);
        self.cursor = self.cursor - 1;
        true
    }

    /// Deletes the character after the cursor; `true` when there was one.
    pub fn del_after(&mut self) -> (changed: bool)
        requires
            old(self).wf(),
        ensures
            final(self).wf(),
            final(self).limit() == old(self).limit(),
            changed == (old(self).cursor_pos() < old(self).text_view().len()),
            changed ==> final(self).text_view() == old(self).text_view().remove(old(self).cursor_pos() as int),
            !changed ==> final(self).text_view() == old(self).text_view(),
            final(self).cursor_pos() == old(self).cursor_pos(),
    {
        if self.cursor >= self.text.len() {
            return false;
        }
        self.text.remove(self.cursor);
        true
    }

    /// Ctrl+Backspace: deletes back to and including the nearest space
    /// before the cursor, or to the start. Returns how many characters went.
    pub fn del_word_before(&mut self) -> (removed: usize)
        requires
            old(self).wf(),
        ensures
            final(self).wf(),
            final(self).limit() == old(self).limit(),
            final(self).cursor_pos() == word_left(old(self).text_view(), old(self).cursor_pos()),
            final(self).text_view() == old(self).text_view().take(final(self).cursor_pos() as int)
                + old(self).text_view().skip(old(self).cursor_pos() as int),
            removed == old(self).cursor_pos() - final(self).cursor_pos(),
    {
        let ghost t0 = self.text@;
        let ghost c0 = self.cursor as nat;
        let mut removed: usize = 0;
        while self.cursor > 0
            invariant
                self.wf(),
                self.max_length == old(self).max_length,
                t0 == old(self).text_view(),
                c0 == old(self).cursor_pos(),
                self.cursor <= c0,
                removed == c0 - self.cursor,
                word_left(t0, c0) == word_left(t0, self.cursor as nat),
                self.text@ == t0.take(self.cursor as int) + t0.skip(c0 as int),
                c0 <= t0.len(),
            decreases self.cursor,
        {
            let c = self.cursor;
            let prev = self.text[c - 1];
            assert(prev == t0[c - 1]);
            self.text.remove(c - 1);
            self.cursor = c - 1;
            removed = removed + 1;
            assert(self.text@ =~= t0.take(self.cursor as int) + t0.skip(c0 as int));
            if prev == ' ' {
                assert(word_left(t0, c as nat) == c - 1);
                return removed;
            }
        }
        removed
    }

    /// Ctrl+Left.
    pub fn move_word_left(&mut self)
        requires
            old(self).wf(),
        ensures
            final(self).wf(),
            final(self).limit() == old(self).limit(),
            final(self).text_view() == old(self).text_view(),
            final(self).cursor_pos() == word_left(old(self).text_view(), old(self).cursor_pos()),
    {
        let ghost c0 = self.cursor as nat;
        while self.cursor > 0
            invariant
                self.wf(),
                self.text@ == old(self).text_view(),
                self.max_length == old(self).max_length,
                c0 == old(self).cursor_pos(),
                word_left(self.text@, c0) == word_left(self.text@, self.cursor as nat),
            decreases self.cursor,
        {
            self.cursor = self.cursor - 1;
            if self.text[self.cursor] == ' ' {
                return;
            }
        }
    }

    /// Ctrl+Right.
    pub fn move_word_right(&mut self)
        requires
            old(self).wf(),
        ensures
            final(self).wf(),
            final(self).limit() == old(self).limit(),
            final(self).text_view() == old(self).text_view(),
            final(self).cursor_pos() == word_right(old(self).text_view(), old(self).cursor_pos()),
    {
        let ghost c0 = self.cursor as nat;
        let n = self.text.len();
        while self.cursor < n
            invariant
                self.wf(),
                n == self.text@.len(),
                self.text@ == old(self).text_view(),
                self.max_length == old(self).max_length,
                c0 == old(self).cursor_pos(),
                word_right(self.text@, c0) == word_right(self.text@, self.cursor as nat),
            decreases n - self.cursor,
        {
            self.cursor = self.cursor + 1;
            if self.cursor < n && self.text[self.cursor] == ' ' {
                return;
            }
        }
    }

    pub fn move_left(&mut self)
        requires
            old(self).wf(),
        ensures
            final(self).wf(),
            final(self).limit() == old(self).limit(),
            final(self).text_view() == old(self).text_view(),
            final(self).cursor_pos() == if old(self).cursor_pos() > 0 { (old(self).cursor_pos() - 1) as nat } else { 0 },
    {
        if self.cursor > 0 {
            self.cursor = self.cursor - 1;
        }
    }

    pub fn move_right(&mut self)
        requires
            old(self).wf(),
        ensures
            final(self).wf(),
            final(self).limit() == old(self).limit(),
            final(self).text_view() == old(self).text_view(),
            final(self).cursor_pos() == if old(self).cursor_pos() < old(self).text_view().len() { old(self).cursor_pos() + 1 } else { old(self).cursor_pos() },
    {
        if self.cursor < self.text.len() {
            self.cursor = self.cursor + 1;
        }
    }

    /// Home.
    pub fn move_home(&mut self)
        ensures
            final(self).wf(),
            final(self).limit() == old(self).limit(),
            final(self).text_view() == old(self).text_view(),
            final(self).cursor_pos() == 0,
    {
        self.cursor = 0;
    }

    /// End, and Ctrl+A.
    pub fn move_end(&mut self)
        ensures
            final(self).wf(),
            final(self).limit() == old(self).limit(),
            final(self).text_view() == old(self).text_view(),
            final(self).cursor_pos() == old(self).text_view().len(),
    {
        self.cursor = self.text.len();
    }

    /// Whether `key` is in the frame's key mask.
    fn pressed(keys: u32, key: SpecialKey) -> (r: bool)
        ensures
            r == key_in_mask(keys, key),
    {
        keys & special_key_bit(key) != 0
    }

    /// Types `chars` one by one at the cursor (see `typed`).
    fn type_chars(&mut self, chars: &[char])
        requires
            old(self).wf(),
            old(self).text_view().len() + chars@.len() < usize::MAX,
        ensures
            final(self).wf(),
            final(self).limit() == old(self).limit(),
            (final(self).text_view(), final(self).cursor_pos())
                == typed(old(self).text_view(), old(self).cursor_pos(), chars@, old(self).limit()),
    {
        let ghost t0 = self.text@;
        let ghost c0 = self.cursor as nat;
        let mut i: usize = 0;
        while i < chars.len()
            invariant
                self.wf(),
                self.max_length == old(self).max_length,
                t0 == old(self).text_view(),
                c0 == old(self).cursor_pos(),
                i <= chars@.len(),
                t0.len() + chars@.len() < usize::MAX,
                (self.text@, self.cursor as nat) == typed(t0, c0, chars@.take(i as int), self.max_length),
                self.text@.len() <= t0.len() + i,
            decreases chars@.len() - i,
        {
            proof {
                assert(chars@.take(i + 1).drop_last() =~= chars@.take(i as int));
                assert(chars@.take(i + 1).last() == chars@[i as int]);
            }
            let _ = self.insert_ch(chars[i]);
            i = i + 1;
        }
        proof {
            assert(chars@.take(chars@.len() as int) =~= chars@);
        }
    }

    /// Ctrl+A, Backspace and Delete of the key mask (see `key_edits`).
    fn edit_keys(&mut self, keys: u32, ctrl: bool)
        requires
            old(self).wf(),
        ensures
            final(self).wf(),
            final(self).limit() == old(self).limit(),
            (final(self).text_view(), final(self).cursor_pos())
                == key_edits(old(self).text_view(), old(self).cursor_pos(), keys, ctrl),
    {
        if Self::pressed(keys, SpecialKey::CtrlA) {
            self.move_end();
        }
        if Self::pressed(keys, SpecialKey::Backspace) {
            if ctrl {
                let _ = self.del_word_before();
            } else {
                let _ = self.del_before();
            }
        }
        if Self::pressed(keys, SpecialKey::Delete) {
            let _ = self.del_after();
        }
    }

    /// Left, Right, Home and End of the key mask (see `key_moves`).
    fn move_keys(&mut self, keys: u32, ctrl: bool)
        requires
            old(self).wf(),
        ensures
            final(self).wf(),
            final(self).limit() == old(self).limit(),
            final(self).text_view() == old(self).text_view(),
            final(self).cursor_pos() == key_moves(old(self).text_view(), old(self).cursor_pos(), keys, ctrl),
    {
        if Self::pressed(keys, SpecialKey::ArrowLeft) {
            if ctrl {
                self.move_word_left();
            } else {
                self.move_left();
            }
        }
        if Self::pressed(keys, SpecialKey::ArrowRight) {
            if ctrl {
                self.move_word_right();
            } else {
                self.move_right();
            }
        }
        if Self::pressed(keys, SpecialKey::Home) {
            self.move_home();
        }
        if Self::pressed(keys, SpecialKey::End) {
            self.move_end();
        }
    }

    /// One frame of the text box: `focused` is its focus before the frame,
    /// `click` what the pointer did, `signal_text` the value of a bound
    /// signal, `keys` the frame's key mask with `ctrl` held or not, and
    /// `chars` the characters typed. See `text_frame`.
    pub fn apply_frame(
        &mut self,
        focused: bool,
        click: BoxClick,
        signal_text: Option<&str>,
        keys: u32,
        ctrl: bool,
        chars: &[char],
    ) -> (r: TextFrameOutcome)
        requires
            old(self).wf(),
            old(self).text_view().len() + chars@.len() < usize::MAX,
            signal_text matches Some(v) ==> v@.len() + chars@.len() < usize::MAX,
        ensures
            final(self).wf(),
            final(self).limit() == old(self).limit(),
            (final(self).text_view(), final(self).cursor_pos(), r) == text_frame(
                old(self).text_view(),
                old(self).cursor_pos(),
                old(self).limit(),
                focused,
                click,
                opt_chars(signal_text),
                keys,
                ctrl,
                chars@,
            ),
    {
        if !focused {
            match signal_text {
                Some(v) => self.sync_text(v),
                None => {},
            }
        }
        let ghost s = synced(old(self).text_view(), old(self).cursor_pos(), focused, opt_chars(signal_text));
        assert(self.text@ == s.0 && self.cursor as nat == s.1);
        let active = match click {
            BoxClick::NoClick => focused,
            BoxClick::Inside(i) => {
                self.set_cursor(i);
                true
            },
            BoxClick::Outside => false,
        };
        if !active {
            return TextFrameOutcome {
                focused: false,
                active: false,
                changed: false,
                submitted: false,
                caret_moved: false,
            };
        }
        let start_len = self.text.len();
        self.type_chars(chars);
        let typed_len = self.text.len();
        self.edit_keys(keys, ctrl);
        self.move_keys(keys, ctrl);
        let caret_moved = match click {
            BoxClick::Inside(_) => true,
            _ => false,
        } || chars.len() > 0 || Self::pressed(keys, SpecialKey::CtrlA) || Self::pressed(keys, SpecialKey::Backspace)
            || Self::pressed(keys, SpecialKey::Delete) || Self::pressed(keys, SpecialKey::ArrowLeft)
            || Self::pressed(keys, SpecialKey::ArrowRight) || Self::pressed(keys, SpecialKey::Home)
            || Self::pressed(keys, SpecialKey::End);
        TextFrameOutcome {
            focused: !Self::pressed(keys, SpecialKey::Escape),
            active: true,
            changed: typed_len > start_len || self.text.len() < typed_len,
            submitted: Self::pressed(keys, SpecialKey::Return),
            caret_moved,
        }
    }

    /// What the box shows: the text, or as many `*` in password mode; an
    /// empty box shows the placeholder unless it has focus, and then
    /// nothing.
    pub fn display_text(&self, password: bool, focused: bool, placeholder: &str) -> (r: Option<String>)
        ensures
            self.text_view().len() > 0 && password ==> (r matches Some(s) && s@ == Seq::new(self.text_view().len(), |i: int| '*')),
            self.text_view().len() > 0 && !password ==> (r matches Some(s) && s@ == self.text_view()),
            self.text_view().len() == 0 && !focused ==> (r matches Some(s) && s@ == placeholder@),
            self.text_view().len() == 0 && focused ==> r is None,
    {
        if self.text.len() > 0 {
            if password {
                let mut stars = String::new();
                let mut i: usize = 0;
                while i < self.text.len()
                    invariant
                        i <= self.text@.len(),
                        stars@ == Seq::new(i as nat, |k: int| '*'),
                    decreases self.text@.len() - i,
                {
                    string_push(&mut stars, '*');
                    i = i + 1;
                    assert(stars@ =~= Seq::new(i as nat, |k: int| '*'));
                }
                Some(stars)
            } else {
                Some(self.text())
            }
        } else if !focused {
            Some(placeholder.to_owned())
        } else {
            None
        }
    }
}

/// A well-formed field's cursor lies within its text.
pub proof fn lemma_mini_input_cursor_in_text(m: MiniInput)
    requires
        m.wf(),
    ensures
        m.cursor_pos() <= m.text_view().len(),
{
}

/// The key mask of a frame in which only the named key `k` was pressed.
pub open spec fn only_pressed(k: NamedKey) -> u32 {
    pressed_mask(0, false, None, k)
}

/// What one named key does to a focused text box in a frame with nothing
/// else pressed and nothing typed, for every text and caret: Delete removes
/// the character after the caret and leaves the caret; Backspace removes
/// the one before it and steps back; Home and End put the caret at the
/// start and the end; Left and Right move it one place, stopping at the
/// ends. Only Delete and Backspace change the text, and neither removes any
/// character but the one next to the caret.
pub proof fn lemma_named_keys_edit_as_named(t: Seq<char>, c: nat, limit: Option<usize>)
    requires
        c <= t.len(),
    ensures
        ({
            let f = text_frame(t, c, limit, true, BoxClick::NoClick, None, only_pressed(NamedKey::Delete), false, Seq::empty());
            &&& f.0 == (if c < t.len() { t.remove(c as int) } else { t })
            &&& f.1 == c
            &&& forall|i: int| 0 <= i < c ==> f.0[i] == t[i]
        }),
        ({
            let f = text_frame(t, c, limit, true, BoxClick::NoClick, None, only_pressed(NamedKey::Backspace), false, Seq::empty());
            &&& f.0 == (if c > 0 { t.remove(c - 1) } else { t })
            &&& f.1 == (if c > 0 { (c - 1) as nat } else { 0 })
            &&& forall|i: int| c <= i < t.len() ==> f.0[i - (t.len() - f.0.len())] == t[i]
        }),
        text_frame(t, c, limit, true, BoxClick::NoClick, None, only_pressed(NamedKey::Home), false, Seq::empty()).0 == t,
        text_frame(t, c, limit, true, BoxClick::NoClick, None, only_pressed(NamedKey::Home), false, Seq::empty()).1 == 0,
        text_frame(t, c, limit, true, BoxClick::NoClick, None, only_pressed(NamedKey::End), false, Seq::empty()).0 == t,
        text_frame(t, c, limit, true, BoxClick::NoClick, None, only_pressed(NamedKey::End), false, Seq::empty()).1 == t.len(),
        text_frame(t, c, limit, true, BoxClick::NoClick, None, only_pressed(NamedKey::ArrowLeft), false, Seq::empty()).0 == t,
        text_frame(t, c, limit, true, BoxClick::NoClick, None, only_pressed(NamedKey::ArrowLeft), false, Seq::empty()).1
            == (if c > 0 { (c - 1) as nat } else { 0 }),
        text_frame(t, c, limit, true, BoxClick::NoClick, None, only_pressed(NamedKey::ArrowRight), false, Seq::empty()).0 == t,
        text_frame(t, c, limit, true, BoxClick::NoClick, None, only_pressed(NamedKey::ArrowRight), false, Seq::empty()).1
            == (if c < t.len() { c + 1 } else { c }),
{
    lemma_single_key_mask();
    let e = Seq::<char>::empty();
    assert(typed(t, c, e, limit) == (t, c));
}

/// Backspace undoes a typed character: typing `ch` and then deleting
/// backwards gives the text and cursor back.
pub proof fn lemma_backspace_undoes_insert(t: Seq<char>, c: nat, ch: char)
    requires
        c <= t.len(),
    ensures
        edited_text(edited_text(t, c, FieldEdit::Insert(ch)), c + 1, FieldEdit::Backspace) == t,
        edited_cursor(edited_text(t, c, FieldEdit::Insert(ch)), c + 1, FieldEdit::Backspace) == c,
{
    assert(t.insert(c as int, ch).remove(c as int) =~= t);
}

/// Delete undoes a typed character once the cursor is moved back over it.
pub proof fn lemma_delete_after_left_undoes_insert(t: Seq<char>, c: nat, ch: char)
    requires
        c <= t.len(),
    ensures
        edited_text(edited_text(t, c, FieldEdit::Insert(ch)), c, FieldEdit::Delete) == t,
{
    assert(t.insert(c as int, ch).remove(c as int) =~= t);
}

} // verus!
