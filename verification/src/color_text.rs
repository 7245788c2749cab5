//! The colour picker's text side: parsing what was typed into its hex and
//! channel fields, and writing a colour back into them. The colour itself
//! is kept by the caller; here it is three bytes.
use vstd::prelude::*;
use vstd::utf8::{encode_utf8, is_continuation_byte};
use crate::text_field::{FieldEdit, MiniInput, edited_cursor, edited_text, lemma_mini_input_cursor_in_text, string_of};
use crate::input::{key_in_mask, special_key_bit, SpecialKey};

verus! {

/// The value of an ASCII hex digit, either case.
pub open spec fn hex_digit_value(b: u8) -> Option<u8> {
    if 0x30 <= b <= 0x39 {
        Some((b - 0x30) as u8)
    } else if 0x61 <= b <= 0x66 {
        Some((b - 0x61 + 10) as u8)
    } else if 0x41 <= b <= 0x46 {
        Some((b - 0x41 + 10) as u8)
    } else {
        None
    }
}

/// A two-byte base-16 field read as a `u8`: an optional `+` and then the
/// digits, which must not run out.
pub open spec fn hex_pair_value(a: u8, b: u8) -> Option<u8> {
    if a == 0x2b {
        hex_digit_value(b)
    } else {
        match (hex_digit_value(a), hex_digit_value(b)) {
            (Some(x), Some(y)) => Some((x * 16 + y) as u8),
            _ => None,
        }
    }
}

/// How many `#` bytes stand at `s[i..]`'s start.
pub open spec fn hashes_from(s: Seq<u8>, i: int) -> nat
    decreases s.len() - i,
{
    if 0 <= i < s.len() && s[i] == 0x23 {
        1 + hashes_from(s, i + 1)
    } else {
        0
    }
}

/// `s` with every leading `#` removed.
pub open spec fn without_leading_hashes(s: Seq<u8>) -> Seq<u8> {
    s.skip(hashes_from(s, 0) as int)
}

/// The colour a hex field holds: after the leading `#`s, exactly six
/// bytes, read as three base-16 pairs.
pub open spec fn hex_color_value(s: Seq<u8>) -> Option<(u8, u8, u8)> {
    let t = without_leading_hashes(s);
    if t.len() != 6 {
        None
    } else {
        match (hex_pair_value(t[0], t[1]), hex_pair_value(t[2], t[3]), hex_pair_value(t[4], t[5])) {
            (Some(r), Some(g), Some(b)) => Some((r, g, b)),
            _ => None,
        }
    }
}

/// Whether the six bytes of a hex field split into pairs at character
/// boundaries; cutting a character in two is refused.
pub open spec fn hex_split_is_clean(s: Seq<u8>) -> bool {
    let t = without_leading_hashes(s);
    t.len() == 6 ==> !is_continuation_byte(t[2]) && !is_continuation_byte(t[4])
}

pub open spec fn is_decimal_digit(b: u8) -> bool {
    0x30 <= b <= 0x39
}

/// The number that a run of decimal digits spells.
pub open spec fn decimal_value(s: Seq<u8>) -> nat
    decreases s.len(),
{
    if s.len() == 0 {
        0
    } else {
        decimal_value(s.drop_last()) * 10 + (s.last() - 0x30) as nat
    }
}

pub open spec fn all_decimal(s: Seq<u8>) -> bool {
    forall|i: int| 0 <= i < s.len() ==> is_decimal_digit(#[trigger] s[i])
}

/// What follows an optional leading `+`.
pub open spec fn unsigned_digits(s: Seq<u8>) -> Seq<u8> {
    if s.len() > 0 && s[0] == 0x2b {
        s.skip(1)
    } else {
        s
    }
}

/// A channel field read as a `u8`: an optional `+`, then one or more
/// decimal digits spelling at most 255.
pub open spec fn u8_text_value(s: Seq<u8>) -> Option<u8> {
    let digits = unsigned_digits(s);
    if digits.len() > 0 && all_decimal(digits) && decimal_value(digits) <= 255 {
        Some(decimal_value(digits) as u8)
    } else {
        None
    }
}

proof fn lemma_decimal_prefix_le(s: Seq<u8>, k: int)
    requires
        0 <= k <= s.len(),
        forall|i: int| 0 <= i < s.len() ==> is_decimal_digit(#[trigger] s[i]),
    ensures
        decimal_value(s.take(k)) <= decimal_value(s),
    decreases s.len(),
{
    if k == s.len() {
        assert(s.take(k) =~= s);
    } else {
        let p = s.drop_last();
        assert forall|i: int| 0 <= i < p.len() implies is_decimal_digit(#[trigger] p[i]) by {
            assert(p[i] == s[i]);
        }
        lemma_decimal_prefix_le(p, k);
        assert(p.take(k) =~= s.take(k));
    }
}

fn hex_digit(b: u8) -> (r: Option<u8>)
    ensures
        r == hex_digit_value(b),
{
    if 0x30 <= b && b <= 0x39 {
        Some(b - 0x30)
    } else if 0x61 <= b && b <= 0x66 {
        Some(b - 0x61 + 10)
    } else if 0x41 <= b && b <= 0x46 {
        Some(b - 0x41 + 10)
    } else {
        None
    }
}

fn hex_pair(a: u8, b: u8) -> (r: Option<u8>)
    ensures
        r == hex_pair_value(a, b),
{
    if a == 0x2b {
        hex_digit(b)
    } else {
        match (hex_digit(a), hex_digit(b)) {
            (Some(x), Some(y)) => Some(x * 16 + y),
            _ => None,
        }
    }
}

/// Where a hex field's text starts once its leading `#`s are skipped.
fn skip_hashes(bytes: &[u8]) -> (r: usize)
    ensures
        r == hashes_from(bytes@, 0),
        r <= bytes@.len(),
{
    let mut i: usize = 0;
    while i < bytes.len() && bytes[i] == 0x23
        invariant
            i <= bytes@.len(),
            hashes_from(bytes@, 0) == i + hashes_from(bytes@, i as int),
        decreases bytes@.len() - i,
    {
        i = i + 1;
    }
    i
}

/// Whether `hex_color` may be called on `text`.
pub fn hex_split_ok(text: &str) -> (r: bool)
    ensures
        r == hex_split_is_clean(encode_utf8(text@)),
{
    let bytes = text.as_bytes();
    let start = skip_hashes(bytes);
    if bytes.len() - start != 6 {
        return true;
    }
    let b2 = bytes[start + 2];
    let b4 = bytes[start + 4];
    !(0x80 <= b2 && b2 <= 0xbf) && !(0x80 <= b4 && b4 <= 0xbf)
}

/// Reads a hex colour such as `#ff8000` or `FF8000`. The text must not put
/// a multi-byte character across a pair boundary.
pub fn hex_color(text: &str) -> (r: Option<(u8, u8, u8)>)
    requires
        hex_split_is_clean(encode_utf8(text@)),
    ensures
        r == hex_color_value(encode_utf8(text@)),
{
    let bytes = text.as_bytes();
    let start = skip_hashes(bytes);
    if bytes.len() - start != 6 {
        return None;
    }
    let ghost t = without_leading_hashes(bytes@);
    assert(t[0] == bytes@[start as int] && t[5] == bytes@[start + 5]);
    match (
        hex_pair(bytes[start], bytes[start + 1]),
        hex_pair(bytes[start + 2], bytes[start + 3]),
        hex_pair(bytes[start + 4], bytes[start + 5]),
    ) {
        (Some(r), Some(g), Some(b)) => Some((r, g, b)),
        _ => None,
    }
}

/// Reads a channel value written in decimal, as `str::parse::<u8>` does.
pub fn u8_from_text(text: &str) -> (r: Option<u8>)
    ensures
        r == u8_text_value(encode_utf8(text@)),
{
    let bytes = text.as_bytes();
    let n = bytes.len();
    let start: usize = if n > 0 && bytes[0] == 0x2b { 1 } else { 0 };
    let ghost digits = unsigned_digits(bytes@);
    assert(digits =~= bytes@.skip(start as int));
    if start == n {
        return None;
    }
    let mut acc: u32 = 0;
    let mut i: usize = start;
    while i < n
        invariant
            start <= i <= n,
            n == bytes@.len(),
            bytes@ == encode_utf8(text@),
            digits == bytes@.skip(start as int),
            digits == unsigned_digits(bytes@),
            digits.len() == n - start,
            acc <= 255,
            acc == decimal_value(digits.take(i - start)),
            forall|j: int| 0 <= j < i - start ==> is_decimal_digit(#[trigger] digits[j]),
        decreases n - i,
    {
        let b = bytes[i];
        if !(0x30 <= b && b <= 0x39) {
            assert(digits[i - start] == b);
            assert(!is_decimal_digit(digits[i - start]));
            return None;
        }
        proof {
            let p = digits.take(i - start + 1);
            assert(p.drop_last() =~= digits.take(i - start));
            assert(p.last() == b);
            assert(decimal_value(p) == decimal_value(digits.take(i - start)) * 10 + (b - 0x30));
        }
        acc = acc * 10 + (b - 0x30) as u32;
        i = i + 1;
        assert(acc == decimal_value(digits.take(i - start)));
        if acc > 255 {
            proof {
                if all_decimal(digits) {
                    lemma_decimal_prefix_le(digits, i - start);
                }
            }
            return None;
        }
    }
    assert(digits.take(n - start) =~= digits);
    Some(acc as u8)
}

/// The lowercase hex digit for `n`, which is below 16.
pub open spec fn hex_char(n: u8) -> char {
    if n < 10 {
        ((0x30 + n) as u8) as char
    } else {
        ((0x61 + n - 10) as u8) as char
    }
}

pub open spec fn decimal_char(n: u8) -> char {
    ((0x30 + n) as u8) as char
}

/// `v` as two lowercase hex digits, as `{:02x}` writes it.
pub open spec fn hex_byte_text(v: u8) -> Seq<char> {
    seq![hex_char(v / 16), hex_char(v % 16)]
}

/// A colour as six lowercase hex digits.
pub open spec fn hex_color_text(r: u8, g: u8, b: u8) -> Seq<char> {
    hex_byte_text(r) + hex_byte_text(g) + hex_byte_text(b)
}

/// `v` in decimal without leading zeros.
pub open spec fn decimal_text(v: nat) -> Seq<char>
    decreases v,
{
    if v < 10 {
        seq![decimal_char(v as u8)]
    } else {
        decimal_text(v / 10).push(decimal_char((v % 10) as u8))
    }
}

fn hex_digit_char(n: u8) -> (c: char)
    requires
        n < 16,
    ensures
        c == hex_char(n),
{
    if n < 10 {
        (0x30 + n) as char
    } else {
        (0x61 + n - 10) as char
    }
}

fn decimal_digit_char(n: u8) -> (c: char)
    requires
        n < 10,
    ensures
        c == decimal_char(n),
{
    (0x30 + n) as char
}

/// The six hex digits of a colour, lowercase.
pub fn format_hex_color(r: u8, g: u8, b: u8) -> (s: String)
    ensures
        s@ == hex_color_text(r, g, b),
{
    let mut v: Vec<char> = Vec::new();
    v.push(hex_digit_char(r / 16));
    v.push(hex_digit_char(r % 16));
    v.push(hex_digit_char(g / 16));
    v.push(hex_digit_char(g % 16));
    v.push(hex_digit_char(b / 16));
    v.push(hex_digit_char(b % 16));
    assert(v@ =~= hex_color_text(r, g, b));
    string_of(v.as_slice())
}

/// `v` in decimal, as `u8::to_string` writes it.
pub fn format_u8(v: u8) -> (s: String)
    ensures
        s@ == decimal_text(v as nat),
{
    let mut out: Vec<char> = Vec::new();
    if v >= 100 {
        out.push(decimal_digit_char(v / 100));
        out.push(decimal_digit_char((v / 10) % 10));
        out.push(decimal_digit_char(v % 10));
        proof {
            reveal_with_fuel(decimal_text, 3);
            assert((v / 10) as nat / 10 == v / 100);
        }
    } else if v >= 10 {
        out.push(decimal_digit_char(v / 10));
        out.push(decimal_digit_char(v % 10));
        proof {
            reveal_with_fuel(decimal_text, 2);
        }
    } else {
        out.push(decimal_digit_char(v));
    }
    assert(out@ =~= decimal_text(v as nat));
    string_of(out.as_slice())
}

/// `v` in decimal, as `u64::to_string` writes it.
pub fn format_u64(v: u64) -> (s: String)
    ensures
        s@ == decimal_text(v as nat),
{
    let digits = decimal_chars(v);
    string_of(digits.as_slice())
}

fn decimal_chars(v: u64) -> (r: Vec<char>)
    ensures
        r@ == decimal_text(v as nat),
    decreases v,
{
    if v < 10 {
        let mut r: Vec<char> = Vec::new();
        r.push(decimal_digit_char(v as u8));
        assert(r@ =~= decimal_text(v as nat));
        r
    } else {
        let mut r = decimal_chars(v / 10);
        r.push(decimal_digit_char((v % 10) as u8));
        r
    }
}

/// Every character is ASCII.
pub open spec fn all_ascii(chars: Seq<char>) -> bool {
    forall|i: int| 0 <= i < chars.len() ==> (#[trigger] chars[i] as u32) < 0x80
}

proof fn lemma_encode_ascii(chars: Seq<char>)
    requires
        all_ascii(chars),
    ensures
        encode_utf8(chars) == Seq::new(chars.len(), |i: int| (chars[i] as u32) as u8),
    decreases chars.len(),
{
    if chars.len() > 0 {
        let rest = chars.drop_first();
        assert(all_ascii(rest)) by {
            assert forall|i: int| 0 <= i < rest.len() implies (#[trigger] rest[i] as u32) < 0x80 by {
                assert(rest[i] == chars[i + 1]);
            }
        }
        lemma_encode_ascii(rest);
        let c = chars[0] as u32;
        assert(c < 0x80);
        assert(c < 0x80 ==> (c & 0x7f) as u8 == c as u8) by (bit_vector);
        assert(encode_utf8(chars) =~= Seq::new(chars.len(), |i: int| (chars[i] as u32) as u8));
    }
}

proof fn lemma_hex_char(n: u8)
    requires
        n < 16,
    ensures
        (hex_char(n) as u32) < 0x80,
        hex_digit_value(((hex_char(n) as u32) as u8)) == Some(n),
        ((hex_char(n) as u32) as u8) != 0x2b,
        ((hex_char(n) as u32) as u8) != 0x23,
        !is_continuation_byte(((hex_char(n) as u32) as u8)),
{
}

proof fn lemma_decimal_char(n: u8)
    requires
        n < 10,
    ensures
        (decimal_char(n) as u32) < 0x80,
        ((decimal_char(n) as u32) as u8) == 0x30 + n,
{
}

proof fn lemma_decimal_text(v: nat)
    ensures
        all_ascii(decimal_text(v)),
        decimal_text(v).len() > 0,
        decimal_value(Seq::new(decimal_text(v).len(), |i: int| (decimal_text(v)[i] as u32) as u8)) == v,
        all_decimal(Seq::new(decimal_text(v).len(), |i: int| (decimal_text(v)[i] as u32) as u8)),
    decreases v,
{
    let t = decimal_text(v);
    let bytes = Seq::new(t.len(), |i: int| (t[i] as u32) as u8);
    if v < 10 {
        lemma_decimal_char(v as u8);
        assert(t =~= seq![decimal_char(v as u8)]);
        assert(bytes.drop_last() =~= Seq::<u8>::empty());
        assert(bytes.last() == 0x30 + v as u8);
        assert(decimal_value(bytes.drop_last()) == 0);
        assert(decimal_value(bytes) == v);
    } else {
        lemma_decimal_text(v / 10);
        let p = decimal_text(v / 10);
        let pb = Seq::new(p.len(), |i: int| (p[i] as u32) as u8);
        lemma_decimal_char((v % 10) as u8);
        assert(t == p.push(decimal_char((v % 10) as u8)));
        assert(bytes.drop_last() =~= pb);
        assert(bytes.last() == 0x30 + (v % 10) as u8);
        assert(decimal_value(bytes) == decimal_value(pb) * 10 + (v % 10));
        assert(v == (v / 10) * 10 + v % 10);
        assert(all_ascii(t)) by {
            assert forall|i: int| 0 <= i < t.len() implies (#[trigger] t[i] as u32) < 0x80 by {
                if i < p.len() {
                    assert(t[i] == p[i]);
                }
            }
        }
        assert(all_decimal(bytes)) by {
            assert forall|i: int| 0 <= i < bytes.len() implies is_decimal_digit(#[trigger] bytes[i]) by {
                if i < p.len() {
                    assert(bytes[i] == pb[i]);
                }
            }
        }
    }
}

/// The decimal text that `refresh` writes for a channel reads back as the
/// same value.
pub proof fn lemma_decimal_text_reads_back(v: u8)
    ensures
        u8_text_value(encode_utf8(decimal_text(v as nat))) == Some(v),
{
    let t = decimal_text(v as nat);
    lemma_decimal_text(v as nat);
    lemma_encode_ascii(t);
    let bytes = encode_utf8(t);
    assert(bytes[0] != 0x2b) by {
        if v < 10 {
            lemma_decimal_char(v);
        } else {
            reveal_with_fuel(decimal_text, 3);
        }
        assert(is_decimal_digit(bytes[0]));
    }
    assert(unsigned_digits(bytes) == bytes);
}

/// The hex text that `refresh` writes reads back as the same colour, and it
/// can always be split into pairs.
pub proof fn lemma_hex_text_reads_back(r: u8, g: u8, b: u8)
    ensures
        hex_split_is_clean(encode_utf8(hex_color_text(r, g, b))),
        hex_color_value(encode_utf8(hex_color_text(r, g, b))) == Some((r, g, b)),
{
    let t = hex_color_text(r, g, b);
    lemma_hex_char(r / 16);
    lemma_hex_char(r % 16);
    lemma_hex_char(g / 16);
    lemma_hex_char(g % 16);
    lemma_hex_char(b / 16);
    lemma_hex_char(b % 16);
    assert(t =~= seq![hex_char(r / 16), hex_char(r % 16), hex_char(g / 16), hex_char(g % 16), hex_char(b / 16), hex_char(b % 16)]);
    assert(all_ascii(t));
    lemma_encode_ascii(t);
    let bytes = encode_utf8(t);
    assert(hashes_from(bytes, 0) == 0);
    assert(without_leading_hashes(bytes) =~= bytes);
}

/// What a parsed field asks of the colour.
#[derive(Debug, Clone, Copy, PartialEq, Eq, Structural)]
pub enum ColorEdit {
    Hex(u8, u8, u8),
    Red(u8),
    Green(u8),
    Blue(u8),
    Unchanged,
}

/// What parsing field `field` (hex, red, green, blue as 1 to 4) holding
/// `text` asks of the colour.
pub open spec fn field_value(field: usize, text: Seq<char>) -> ColorEdit {
    if field == 1 {
        match hex_color_value(encode_utf8(text)) {
            Some((r, g, b)) => ColorEdit::Hex(r, g, b),
            None => ColorEdit::Unchanged,
        }
    } else if field == 2 {
        match u8_text_value(encode_utf8(text)) {
            Some(v) => ColorEdit::Red(v),
            None => ColorEdit::Unchanged,
        }
    } else if field == 3 {
        match u8_text_value(encode_utf8(text)) {
            Some(v) => ColorEdit::Green(v),
            None => ColorEdit::Unchanged,
        }
    } else if field == 4 {
        match u8_text_value(encode_utf8(text)) {
            Some(v) => ColorEdit::Blue(v),
            None => ColorEdit::Unchanged,
        }
    } else {
        ColorEdit::Unchanged
    }
}

/// A field's text and cursor after `chars` are typed at the cursor.
pub open spec fn field_typed(t: Seq<char>, c: nat, chars: Seq<char>) -> (Seq<char>, nat)
    decreases chars.len(),
{
    if chars.len() == 0 {
        (t, c)
    } else {
        let p = field_typed(t, c, chars.drop_last());
        (edited_text(p.0, p.1, FieldEdit::Insert(chars.last())), edited_cursor(p.0, p.1, FieldEdit::Insert(chars.last())))
    }
}

/// Typing adds one character per key and leaves the cursor in the text.
pub proof fn lemma_field_typed_len(t: Seq<char>, c: nat, chars: Seq<char>)
    requires
        c <= t.len(),
    ensures
        field_typed(t, c, chars).0.len() == t.len() + chars.len(),
        field_typed(t, c, chars).1 <= field_typed(t, c, chars).0.len(),
    decreases chars.len(),
{
    if chars.len() > 0 {
        lemma_field_typed_len(t, c, chars.drop_last());
    }
}

/// `edit` applied to text and cursor `p` when `pressed`.
pub open spec fn field_step(p: (Seq<char>, nat), pressed: bool, edit: FieldEdit) -> (Seq<char>, nat) {
    if pressed {
        (edited_text(p.0, p.1, edit), edited_cursor(p.0, p.1, edit))
    } else {
        p
    }
}

/// A focused field's text and cursor after a frame: `chars` typed, then
/// Backspace, Delete, Left, Right, Home and End as the key mask has them.
pub open spec fn field_keys(t: Seq<char>, c: nat, keys: u32, chars: Seq<char>) -> (Seq<char>, nat) {
    let p0 = field_typed(t, c, chars);
    let p1 = field_step(p0, key_in_mask(keys, SpecialKey::Backspace), FieldEdit::Backspace);
    let p2 = field_step(p1, key_in_mask(keys, SpecialKey::Delete), FieldEdit::Delete);
    let p3 = field_step(p2, key_in_mask(keys, SpecialKey::ArrowLeft), FieldEdit::Left);
    let p4 = field_step(p3, key_in_mask(keys, SpecialKey::ArrowRight), FieldEdit::Right);
    let p5 = field_step(p4, key_in_mask(keys, SpecialKey::Home), FieldEdit::Home);
    field_step(p5, key_in_mask(keys, SpecialKey::End), FieldEdit::End)
}

/// What a frame's keys ask of the picker's fields beyond their texts: the
/// edit read from the field that had focus (when Return, Tab or Escape was
/// pressed) and that field's number, 0 when nothing was read; and whether
/// Escape is still to be handled, after Tab moved the focus, by
/// [`ColorFields::escape`] once the fields show the edited colour.
#[derive(Debug, Clone, Copy, PartialEq, Eq, Structural)]
pub struct ColorKeys {
    pub edit: ColorEdit,
    pub parsed_field: usize,
    pub escape_pending: bool,
}

/// The picker's four text fields and which of them has focus: 0 for none,
/// then hex, red, green and blue as 1 to 4.
#[derive(Clone)]
pub struct ColorFields {
    pub hex: MiniInput,
    pub red: MiniInput,
    pub green: MiniInput,
    pub blue: MiniInput,
    pub focused_field: usize,
}

/// The field that Tab moves to from `field`.
pub open spec fn next_field_spec(field: usize) -> usize {
    if field == 1 {
        2
    } else if field == 2 {
        3
    } else if field == 3 {
        4
    } else {
        1
    }
}

/// Tab moves the focus one field on in the order hex, red, green, blue:
/// from field `f` in 1 to 3 to `f + 1`, from blue or from no field to hex.
/// So four Tabs from any field come back to it, visiting every field once.
pub proof fn lemma_tab_visits_fields_in_order(f: usize)
    ensures
        1 <= f <= 3 ==> next_field_spec(f) == f + 1,
        !(1 <= f <= 3) ==> next_field_spec(f) == 1,
        1 <= next_field_spec(f) <= 4,
        1 <= f <= 4 ==> next_field_spec(next_field_spec(next_field_spec(next_field_spec(f)))) == f,
        1 <= f <= 4 ==> next_field_spec(f) != f && next_field_spec(next_field_spec(f)) != f
            && next_field_spec(next_field_spec(next_field_spec(f))) != f,
{
}

pub fn next_field(field: usize) -> (r: usize)
    ensures
        r == next_field_spec(field),
{
    match field {
        1 => 2,
        2 => 3,
        3 => 4,
        _ => 1,
    }
}

impl ColorFields {
    pub open spec fn wf(self) -> bool {
        &&& self.hex.wf()
        &&& self.red.wf()
        &&& self.green.wf()
        &&& self.blue.wf()
    }

    /// The field numbered `field`, if there is one.
    pub open spec fn field(self, field: usize) -> Option<MiniInput> {
        if field == 1 {
            Some(self.hex)
        } else if field == 2 {
            Some(self.red)
        } else if field == 3 {
            Some(self.green)
        } else if field == 4 {
            Some(self.blue)
        } else {
            None
        }
    }

    /// Whether `parse` may be called: a focused hex field must split cleanly.
    pub open spec fn parse_ok(self) -> bool {
        self.focused_field == 1 ==> hex_split_is_clean(encode_utf8(self.hex.text_view()))
    }

    /// What the focused field asks for.
    pub open spec fn parse_spec(self) -> ColorEdit {
        if self.focused_field == 1 {
            match hex_color_value(encode_utf8(self.hex.text_view())) {
                Some((r, g, b)) => ColorEdit::Hex(r, g, b),
                None => ColorEdit::Unchanged,
            }
        } else if self.focused_field == 2 {
            match u8_text_value(encode_utf8(self.red.text_view())) {
                Some(v) => ColorEdit::Red(v),
                None => ColorEdit::Unchanged,
            }
        } else if self.focused_field == 3 {
            match u8_text_value(encode_utf8(self.green.text_view())) {
                Some(v) => ColorEdit::Green(v),
                None => ColorEdit::Unchanged,
            }
        } else if self.focused_field == 4 {
            match u8_text_value(encode_utf8(self.blue.text_view())) {
                Some(v) => ColorEdit::Blue(v),
                None => ColorEdit::Unchanged,
            }
        } else {
            ColorEdit::Unchanged
        }
    }

    /// The fields of a fresh picker, showing pure red, none focused.
    pub fn new() -> (r: Self)
        ensures
            r.wf(),
            r.hex.text_view() == "ff0000"@,
            r.red.text_view() == "255"@,
            r.green.text_view() == "0"@,
            r.blue.text_view() == "0"@,
            r.focused_field == 0,
            !r.hex.has_focus() && !r.red.has_focus() && !r.green.has_focus() && !r.blue.has_focus(),
    {
        ColorFields {
            hex: MiniInput::new("ff0000"),
            red: MiniInput::new("255"),
            green: MiniInput::new("0"),
            blue: MiniInput::new("0"),
            focused_field: 0,
        }
    }

    /// Reads the focused field. The colour is left to the caller.
    pub fn parse(&self) -> (r: ColorEdit)
        requires
            self.parse_ok(),
        ensures
            r == self.parse_spec(),
    {
        if self.focused_field == 1 {
            let text = self.hex.text();
            match hex_color(text.as_str()) {
                Some((r, g, b)) => ColorEdit::Hex(r, g, b),
                None => ColorEdit::Unchanged,
            }
        } else if self.focused_field == 2 {
            let text = self.red.text();
            match u8_from_text(text.as_str()) {
                Some(v) => ColorEdit::Red(v),
                None => ColorEdit::Unchanged,
            }
        } else if self.focused_field == 3 {
            let text = self.green.text();
            match u8_from_text(text.as_str()) {
                Some(v) => ColorEdit::Green(v),
                None => ColorEdit::Unchanged,
            }
        } else if self.focused_field == 4 {
            let text = self.blue.text();
            match u8_from_text(text.as_str()) {
                Some(v) => ColorEdit::Blue(v),
                None => ColorEdit::Unchanged,
            }
        } else {
            ColorEdit::Unchanged
        }
    }

    /// Whether `parse` may be called now.
    pub fn can_parse(&self) -> (r: bool)
        ensures
            r == self.parse_ok(),
    {
        if self.focused_field == 1 {
            let text = self.hex.text();
            hex_split_ok(text.as_str())
        } else {
            true
        }
    }

    /// Shows the colour `(r, g, b)` in every field but the focused one, so
    /// that what is being typed is not overwritten.
    pub fn refresh(&mut self, r: u8, g: u8, b: u8)
        ensures
            old(self).wf() ==> final(self).wf(),
            final(self).focused_field == old(self).focused_field,
            final(self).red.text_view() == if old(self).focused_field == 2 {
                old(self).red.text_view()
            } else {
                decimal_text(r as nat)
            },
            final(self).green.text_view() == if old(self).focused_field == 3 {
                old(self).green.text_view()
            } else {
                decimal_text(g as nat)
            },
            final(self).blue.text_view() == if old(self).focused_field == 4 {
                old(self).blue.text_view()
            } else {
                decimal_text(b as nat)
            },
            final(self).hex.text_view() == if old(self).focused_field == 1 {
                old(self).hex.text_view()
            } else {
                hex_color_text(r, g, b)
            },
            old(self).focused_field == 1 ==> final(self).hex == old(self).hex,
            old(self).focused_field == 2 ==> final(self).red == old(self).red,
            old(self).focused_field == 3 ==> final(self).green == old(self).green,
            old(self).focused_field == 4 ==> final(self).blue == old(self).blue,
            final(self).hex.has_focus() == old(self).hex.has_focus(),
            final(self).red.has_focus() == old(self).red.has_focus(),
            final(self).green.has_focus() == old(self).green.has_focus(),
            final(self).blue.has_focus() == old(self).blue.has_focus(),
    {
        if self.focused_field != 2 {
            let t = format_u8(r);
            self.red.set(t.as_str());
        }
        if self.focused_field != 3 {
            let t = format_u8(g);
            self.green.set(t.as_str());
        }
        if self.focused_field != 4 {
            let t = format_u8(b);
            self.blue.set(t.as_str());
        }
        if self.focused_field != 1 {
            let t = format_hex_color(r, g, b);
            self.hex.set(t.as_str());
        }
    }

    /// Gives `field` the focus and puts its cursor at the end. The other
    /// fields keep their own focus flags.
    pub fn focus(&mut self, field: usize)
        requires
            old(self).wf(),
        ensures
            final(self).wf(),
            final(self).focused_field == field,
            final(self).field(field) matches Some(m) ==> {
                &&& m.has_focus()
                &&& m.text_view() == old(self).field(field)->0.text_view()
                &&& m.cursor_pos() == m.text_view().len()
            },
            field != 1 ==> final(self).hex == old(self).hex,
            field != 2 ==> final(self).red == old(self).red,
            field != 3 ==> final(self).green == old(self).green,
            field != 4 ==> final(self).blue == old(self).blue,
    {
        self.focused_field = field;
        if field == 1 {
            self.hex.set_focused(true);
            self.hex.end();
        } else if field == 2 {
            self.red.set_focused(true);
            self.red.end();
        } else if field == 3 {
            self.green.set_focused(true);
            self.green.end();
        } else if field == 4 {
            self.blue.set_focused(true);
            self.blue.end();
        }
    }

    /// No field has focus any more.
    pub fn defocus_all(&mut self)
        ensures
            final(self).focused_field == 0,
            !final(self).hex.has_focus() && !final(self).red.has_focus(),
            !final(self).green.has_focus() && !final(self).blue.has_focus(),
            final(self).hex.text_view() == old(self).hex.text_view(),
            final(self).red.text_view() == old(self).red.text_view(),
            final(self).green.text_view() == old(self).green.text_view(),
            final(self).blue.text_view() == old(self).blue.text_view(),
            final(self).hex.cursor_pos() == old(self).hex.cursor_pos(),
            final(self).red.cursor_pos() == old(self).red.cursor_pos(),
            final(self).green.cursor_pos() == old(self).green.cursor_pos(),
            final(self).blue.cursor_pos() == old(self).blue.cursor_pos(),
            old(self).wf() ==> final(self).wf(),
    {
        self.focused_field = 0;
        self.hex.set_focused(false);
        self.red.set_focused(false);
        self.green.set_focused(false);
        self.blue.set_focused(false);
    }

    /// Shows the colour `(r, g, b)` in every field but field `skip`, so that
    /// the field just read keeps its text as typed.
    pub fn refresh_except(&mut self, skip: usize, r: u8, g: u8, b: u8)
        ensures
            old(self).wf() ==> final(self).wf(),
            final(self).focused_field == old(self).focused_field,
            final(self).red == if skip == 2 { old(self).red } else { final(self).red },
            final(self).green == if skip == 3 { old(self).green } else { final(self).green },
            final(self).blue == if skip == 4 { old(self).blue } else { final(self).blue },
            final(self).hex == if skip == 1 { old(self).hex } else { final(self).hex },
            skip != 2 ==> final(self).red.text_view() == decimal_text(r as nat),
            skip != 3 ==> final(self).green.text_view() == decimal_text(g as nat),
            skip != 4 ==> final(self).blue.text_view() == decimal_text(b as nat),
            skip != 1 ==> final(self).hex.text_view() == hex_color_text(r, g, b),
            skip != 2 ==> final(self).red.cursor_pos() == final(self).red.text_view().len(),
            skip != 3 ==> final(self).green.cursor_pos() == final(self).green.text_view().len(),
            skip != 4 ==> final(self).blue.cursor_pos() == final(self).blue.text_view().len(),
            skip != 1 ==> final(self).hex.cursor_pos() == final(self).hex.text_view().len(),
            final(self).hex.has_focus() == old(self).hex.has_focus(),
            final(self).red.has_focus() == old(self).red.has_focus(),
            final(self).green.has_focus() == old(self).green.has_focus(),
            final(self).blue.has_focus() == old(self).blue.has_focus(),
    {
        if skip != 2 {
            let t = format_u8(r);
            self.red.set(t.as_str());
        }
        if skip != 3 {
            let t = format_u8(g);
            self.green.set(t.as_str());
        }
        if skip != 4 {
            let t = format_u8(b);
            self.blue.set(t.as_str());
        }
        if skip != 1 {
            let t = format_hex_color(r, g, b);
            self.hex.set(t.as_str());
        }
    }

    fn pressed(keys: u32, key: SpecialKey) -> (r: bool)
        ensures
            r == key_in_mask(keys, key),
    {
        keys & special_key_bit(key) != 0
    }

    /// Types `chars` into the focused field.
    fn type_focused(&mut self, chars: &[char])
        requires
            old(self).wf(),
            old(self).field(old(self).focused_field) matches Some(m) ==> m.text_view().len() + chars@.len() < usize::MAX,
        ensures
            final(self).wf(),
            final(self).focused_field == old(self).focused_field,
            old(self).field(old(self).focused_field) matches Some(m) ==> {
                let n = final(self).field(old(self).focused_field)->0;
                &&& (n.text_view(), n.cursor_pos()) == field_typed(m.text_view(), m.cursor_pos(), chars@)
                &&& n.has_focus() == m.has_focus()
            },
            old(self).field(old(self).focused_field) is None ==> *final(self) == *old(self),
            old(self).focused_field != 1 ==> final(self).hex == old(self).hex,
            old(self).focused_field != 2 ==> final(self).red == old(self).red,
            old(self).focused_field != 3 ==> final(self).green == old(self).green,
            old(self).focused_field != 4 ==> final(self).blue == old(self).blue,
    {
        let f = self.focused_field;
        let ghost m = old(self).field(f);
        proof {
            if m is Some {
                lemma_mini_input_cursor_in_text(m->0);
            }
        }
        let mut i: usize = 0;
        while i < chars.len()
            invariant
                self.wf(),
                self.focused_field == f,
                f == old(self).focused_field,
                m == old(self).field(f),
                i <= chars@.len(),
                m matches Some(m0) ==> {
                    let n = self.field(f)->0;
                    &&& m0.text_view().len() + chars@.len() < usize::MAX
                    &&& m0.cursor_pos() <= m0.text_view().len()
                    &&& (n.text_view(), n.cursor_pos()) == field_typed(m0.text_view(), m0.cursor_pos(), chars@.take(i as int))
                    &&& n.has_focus() == m0.has_focus()
                },
                m is None ==> *self == *old(self),
                f != 1 ==> self.hex == old(self).hex,
                f != 2 ==> self.red == old(self).red,
                f != 3 ==> self.green == old(self).green,
                f != 4 ==> self.blue == old(self).blue,
            decreases chars@.len() - i,
        {
            proof {
                assert(chars@.take(i + 1).drop_last() =~= chars@.take(i as int));
                assert(chars@.take(i + 1).last() == chars@[i as int]);
                if m is Some {
                    lemma_field_typed_len(m->0.text_view(), m->0.cursor_pos(), chars@.take(i as int));
                }
            }
            self.edit_focused(FieldEdit::Insert(chars[i]));
            i = i + 1;
        }
        proof {
            assert(chars@.take(chars@.len() as int) =~= chars@);
        }
    }

    /// Applies `edit`, which types nothing, to the focused field when
    /// `pressed` (see `field_step`).
    fn edit_focused_if(&mut self, pressed: bool, edit: FieldEdit)
        requires
            old(self).wf(),
            !(edit is Insert),
            old(self).field(old(self).focused_field) matches Some(m) ==> m.text_view().len() < usize::MAX,
        ensures
            final(self).wf(),
            final(self).focused_field == old(self).focused_field,
            old(self).field(old(self).focused_field) matches Some(m) ==> {
                let n = final(self).field(old(self).focused_field)->0;
                &&& (n.text_view(), n.cursor_pos()) == field_step((m.text_view(), m.cursor_pos()), pressed, edit)
                &&& n.text_view().len() <= m.text_view().len()
                &&& n.has_focus() == m.has_focus()
            },
            old(self).field(old(self).focused_field) is None ==> *final(self) == *old(self),
            old(self).focused_field != 1 ==> final(self).hex == old(self).hex,
            old(self).focused_field != 2 ==> final(self).red == old(self).red,
            old(self).focused_field != 3 ==> final(self).green == old(self).green,
            old(self).focused_field != 4 ==> final(self).blue == old(self).blue,
    {
        proof {
            if old(self).field(old(self).focused_field) is Some {
                lemma_mini_input_cursor_in_text(old(self).field(old(self).focused_field)->0);
            }
        }
        if pressed {
            self.edit_focused(edit);
        }
    }

    /// One frame's keys for the fields, when one has focus: the typed
    /// characters and the editing keys go to it (see `field_keys`); Return
    /// or Tab reads it, and Tab then moves the focus on (`next_field_spec`);
    /// Escape reads it and takes the focus away, or, after Tab, is left
    /// pending. With no field focused nothing happens.
    pub fn apply_keys(&mut self, keys: u32, chars: &[char]) -> (r: ColorKeys)
        requires
            old(self).wf(),
            old(self).field(old(self).focused_field) matches Some(m) ==> m.text_view().len() + chars@.len() < usize::MAX,
            old(self).focused_field == 1 && (key_in_mask(keys, SpecialKey::Return) || key_in_mask(keys, SpecialKey::Tab)
                || key_in_mask(keys, SpecialKey::Escape)) ==> hex_split_is_clean(encode_utf8(
                field_keys(old(self).hex.text_view(), old(self).hex.cursor_pos(), keys, chars@).0)),
        ensures
            final(self).wf(),
            ({
                let f = old(self).focused_field;
                let tab = key_in_mask(keys, SpecialKey::Tab);
                let esc = key_in_mask(keys, SpecialKey::Escape);
                let reads = key_in_mask(keys, SpecialKey::Return) || tab || esc;
                let edited = match old(self).field(f) {
                    Some(m) => field_keys(m.text_view(), m.cursor_pos(), keys, chars@).0,
                    None => Seq::<char>::empty(),
                };
                if f == 0 {
                    &&& *final(self) == *old(self)
                    &&& r == (ColorKeys { edit: ColorEdit::Unchanged, parsed_field: 0, escape_pending: false })
                } else {
                    &&& r.edit == (if reads { field_value(f, edited) } else { ColorEdit::Unchanged })
                    &&& r.parsed_field == (if reads { f } else { 0 })
                    &&& r.escape_pending == (tab && esc)
                    &&& final(self).focused_field == (if tab { next_field_spec(f) } else if esc { 0 } else { f })
                    &&& (old(self).field(f) matches Some(m) ==> {
                        let n = final(self).field(f)->0;
                        &&& (n.text_view(), n.cursor_pos()) == field_keys(m.text_view(), m.cursor_pos(), keys, chars@)
                    })
                    &&& (forall|g: usize| 1 <= g <= 4 && g != f ==>
                        (#[trigger] final(self).field(g))->0.text_view() == old(self).field(g)->0.text_view())
                    &&& (tab ==> (final(self).field(next_field_spec(f)) matches Some(n) && n.has_focus()
                        && n.cursor_pos() == n.text_view().len()))
                    &&& (!tab && esc ==> !final(self).hex.has_focus() && !final(self).red.has_focus()
                        && !final(self).green.has_focus() && !final(self).blue.has_focus())
                }
            }),
    {
        let f = self.focused_field;
        if f == 0 {
            return ColorKeys { edit: ColorEdit::Unchanged, parsed_field: 0, escape_pending: false };
        }
        proof {
            if old(self).field(f) is Some {
                lemma_mini_input_cursor_in_text(old(self).field(f)->0);
                lemma_field_typed_len(old(self).field(f)->0.text_view(), old(self).field(f)->0.cursor_pos(), chars@);
            }
        }
        self.type_focused(chars);
        self.edit_focused_if(Self::pressed(keys, SpecialKey::Backspace), FieldEdit::Backspace);
        self.edit_focused_if(Self::pressed(keys, SpecialKey::Delete), FieldEdit::Delete);
        self.edit_focused_if(Self::pressed(keys, SpecialKey::ArrowLeft), FieldEdit::Left);
        self.edit_focused_if(Self::pressed(keys, SpecialKey::ArrowRight), FieldEdit::Right);
        self.edit_focused_if(Self::pressed(keys, SpecialKey::Home), FieldEdit::Home);
        self.edit_focused_if(Self::pressed(keys, SpecialKey::End), FieldEdit::End);
        let ghost mid = *self;
        proof {
            if old(self).field(f) is Some {
                let m = old(self).field(f)->0;
                assert((mid.field(f)->0.text_view(), mid.field(f)->0.cursor_pos())
                    == field_keys(m.text_view(), m.cursor_pos(), keys, chars@));
            }
            assert(next_field_spec(f) != f);
        }
        let tab = Self::pressed(keys, SpecialKey::Tab);
        let esc = Self::pressed(keys, SpecialKey::Escape);
        let reads = Self::pressed(keys, SpecialKey::Return) || tab || esc;
        let edit = if reads { self.parse() } else { ColorEdit::Unchanged };
        proof {
            if reads {
                assert(edit == mid.parse_spec());
                if old(self).field(f) is Some {
                    assert(edit == field_value(f, mid.field(f)->0.text_view()));
                } else {
                    assert(edit == ColorEdit::Unchanged);
                }
            }
        }
        if tab {
            self.focus(next_field(f));
        } else if esc {
            self.defocus_all();
        }
        ColorKeys { edit, parsed_field: if reads { f } else { 0 }, escape_pending: tab && esc }
    }

    /// Escape on the fields: reads the focused field and takes the focus
    /// away. The edit and the number of the field read (0 for none).
    pub fn escape(&mut self) -> (r: (ColorEdit, usize))
        requires
            old(self).wf(),
            old(self).parse_ok(),
        ensures
            r.0 == old(self).parse_spec(),
            r.1 == old(self).focused_field,
            final(self).focused_field == 0,
            !final(self).hex.has_focus() && !final(self).red.has_focus(),
            !final(self).green.has_focus() && !final(self).blue.has_focus(),
            final(self).hex.text_view() == old(self).hex.text_view(),
            final(self).red.text_view() == old(self).red.text_view(),
            final(self).green.text_view() == old(self).green.text_view(),
            final(self).blue.text_view() == old(self).blue.text_view(),
            final(self).wf(),
    {
        let edit = self.parse();
        let f = self.focused_field;
        self.defocus_all();
        (edit, f)
    }

    /// Applies a keystroke to the focused field; nothing when none has
    /// focus.
    pub fn edit_focused(&mut self, edit: FieldEdit)
        requires
            old(self).wf(),
            old(self).field(old(self).focused_field) matches Some(m) ==> m.text_view().len() < usize::MAX,
        ensures
            final(self).wf(),
            final(self).focused_field == old(self).focused_field,
            old(self).field(old(self).focused_field) matches Some(m) ==> {
                let n = final(self).field(old(self).focused_field)->0;
                &&& n.text_view() == edited_text(m.text_view(), m.cursor_pos(), edit)
                &&& n.cursor_pos() == edited_cursor(m.text_view(), m.cursor_pos(), edit)
                &&& n.has_focus() == m.has_focus()
            },
            old(self).focused_field != 1 ==> final(self).hex == old(self).hex,
            old(self).focused_field != 2 ==> final(self).red == old(self).red,
            old(self).focused_field != 3 ==> final(self).green == old(self).green,
            old(self).focused_field != 4 ==> final(self).blue == old(self).blue,
    {
        if self.focused_field == 1 {
            self.hex.apply(edit);
        } else if self.focused_field == 2 {
            self.red.apply(edit);
        } else if self.focused_field == 3 {
            self.green.apply(edit);
        } else if self.focused_field == 4 {
            self.blue.apply(edit);
        }
    }
}

/// Where a press landed inside the open picker's popup: the
/// saturation/value square, the hue bar, the title bar, one of the four
/// fields (1 to 4), or anywhere else in it.
#[derive(Debug, Clone, Copy, PartialEq, Eq, Structural)]
pub enum PickerRegion {
    SatVal,
    Hue,
    Header,
    Field(usize),
    Elsewhere,
}

/// What the pointer is dragging in the picker.
#[derive(Debug, Clone, Copy, PartialEq, Eq, Structural)]
pub enum PickerDrag {
    Idle,
    SatVal,
    Hue,
    Window,
}

/// What a press asks of the picker's fields. Every action but `Nothing`
/// and `Opened` first reads the focused field into the colour.
#[derive(Debug, Clone, Copy, PartialEq, Eq, Structural)]
pub enum PickerAction {
    /// The press changes nothing.
    Nothing,
    /// The popup opened.
    Opened,
    /// The popup closed: read the focused field, then take the focus away.
    Closed,
    /// A drag started: read the focused field.
    Drag,
    /// Read the focused field, then give the focus to this field.
    FocusField(usize),
    /// Read the focused field, then take the focus away.
    Defocus,
}

/// Whether the picker's popup is open and what is being dragged.
#[derive(Debug, Clone, Copy, PartialEq, Eq, Structural)]
pub struct PickerState {
    pub open: bool,
    pub drag: PickerDrag,
}

impl PickerState {
    /// Closed, nothing dragged.
    pub fn new() -> (r: Self)
        ensures
            r == (PickerState { open: false, drag: PickerDrag::Idle }),
    {
        PickerState { open: false, drag: PickerDrag::Idle }
    }

    /// A press of the primary button: on the picker's button it opens or
    /// closes the popup; with the popup open, a press outside it closes it
    /// and ends any drag, and a press inside starts a drag on the square,
    /// the hue bar or the title bar, focuses the field under it, or takes
    /// the focus from the fields.
    pub fn click(&mut self, on_button: bool, in_popup: bool, region: PickerRegion) -> (r: PickerAction)
        ensures
            on_button ==> final(self).open == !old(self).open && final(self).drag == old(self).drag
                && r == (if old(self).open { PickerAction::Closed } else { PickerAction::Opened }),
            !on_button && !old(self).open ==> *final(self) == *old(self) && r == PickerAction::Nothing,
            !on_button && old(self).open && !in_popup ==> *final(self) == (PickerState { open: false, drag: PickerDrag::Idle })
                && r == PickerAction::Closed,
            !on_button && old(self).open && in_popup ==> final(self).open && match region {
                PickerRegion::SatVal => final(self).drag == PickerDrag::SatVal && r == PickerAction::Drag,
                PickerRegion::Hue => final(self).drag == PickerDrag::Hue && r == PickerAction::Drag,
                PickerRegion::Header => final(self).drag == PickerDrag::Window && r == PickerAction::Drag,
                PickerRegion::Field(i) => final(self).drag == old(self).drag && r == PickerAction::FocusField(i),
                PickerRegion::Elsewhere => final(self).drag == old(self).drag && r == PickerAction::Defocus,
            },
    {
        if on_button {
            self.open = !self.open;
            return if self.open { PickerAction::Opened } else { PickerAction::Closed };
        }
        if !self.open {
            return PickerAction::Nothing;
        }
        if !in_popup {
            self.open = false;
            self.drag = PickerDrag::Idle;
            return PickerAction::Closed;
        }
        match region {
            PickerRegion::SatVal => {
                self.drag = PickerDrag::SatVal;
                PickerAction::Drag
            },
            PickerRegion::Hue => {
                self.drag = PickerDrag::Hue;
                PickerAction::Drag
            },
            PickerRegion::Header => {
                self.drag = PickerDrag::Window;
                PickerAction::Drag
            },
            PickerRegion::Field(i) => PickerAction::FocusField(i),
            PickerRegion::Elsewhere => PickerAction::Defocus,
        }
    }

    /// The primary button's state this frame: with the popup open, a
    /// released button ends the drag.
    pub fn track_button(&mut self, down: bool)
        ensures
            final(self).open == old(self).open,
            final(self).drag == if old(self).open && !down { PickerDrag::Idle } else { old(self).drag },
    {
        if self.open && !down {
            self.drag = PickerDrag::Idle;
        }
    }
}

/// Fields that show the colour `(r, g, b)`, as `refresh` leaves the ones
/// without focus, read back as that colour when one of them is parsed.
pub proof fn lemma_shown_color_parses_back(f: ColorFields, r: u8, g: u8, b: u8)
    requires
        f.hex.text_view() == hex_color_text(r, g, b),
        f.red.text_view() == decimal_text(r as nat),
        f.green.text_view() == decimal_text(g as nat),
        f.blue.text_view() == decimal_text(b as nat),
    ensures
        f.parse_ok(),
        f.focused_field == 1 ==> f.parse_spec() == ColorEdit::Hex(r, g, b),
        f.focused_field == 2 ==> f.parse_spec() == ColorEdit::Red(r),
        f.focused_field == 3 ==> f.parse_spec() == ColorEdit::Green(g),
        f.focused_field == 4 ==> f.parse_spec() == ColorEdit::Blue(b),
{
    lemma_hex_text_reads_back(r, g, b);
    lemma_decimal_text_reads_back(r);
    lemma_decimal_text_reads_back(g);
    lemma_decimal_text_reads_back(b);
}

} // verus!
