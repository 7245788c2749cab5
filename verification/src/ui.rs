//! What the immediate-style builder reports back to application code.
use vstd::prelude::*;
use std::collections::HashSet;
use vstd::string::StringExecFns;
use crate::alloc_ops::string_push;
use crate::color_text::{decimal_text, format_u64};
use crate::command::{CommandPayload, WidgetId};

verus! {

broadcast use vstd::std_specs::hash::group_hash_axioms;

/// How a widget responded this frame.
#[derive(Debug, Clone, Copy, PartialEq, Eq, Structural)]
pub struct Response {
    pub id: WidgetId,
    pub hovered: bool,
    pub active: bool,
    pub focused: bool,
    pub clicked: bool,
    pub changed: bool,
}

impl Response {
    /// A response with every flag false.
    pub fn new(id: WidgetId) -> (r: Self)
        ensures
            r == (Response { id, hovered: false, active: false, focused: false, clicked: false, changed: false }),
    {
        Response { id, hovered: false, active: false, focused: false, clicked: false, changed: false }
    }

    pub fn clicked(self) -> (r: bool)
        ensures
            r == self.clicked,
    {
        self.clicked
    }

    pub fn hovered(self) -> (r: bool)
        ensures
            r == self.hovered,
    {
        self.hovered
    }

    pub fn active(self) -> (r: bool)
        ensures
            r == self.active,
    {
        self.active
    }

    pub fn focused(self) -> (r: bool)
        ensures
            r == self.focused,
    {
        self.focused
    }

    pub fn changed(self) -> (r: bool)
        ensures
            r == self.changed,
    {
        self.changed
    }
}

/// Problems found while rebuilding the immediate UI.
#[derive(Debug, Clone, PartialEq, Eq)]
pub struct UiDiagnostics {
    pub duplicate_keys: Vec<WidgetId>,
    pub type_mismatches: Vec<WidgetId>,
}

impl Default for UiDiagnostics {
    fn default() -> (r: Self)
        ensures
            r.duplicate_keys@ == Seq::<WidgetId>::empty(),
            r.type_mismatches@ == Seq::<WidgetId>::empty(),
    {
        UiDiagnostics { duplicate_keys: Vec::new(), type_mismatches: Vec::new() }
    }
}

impl UiDiagnostics {
    pub fn is_empty(&self) -> (r: bool)
        ensures
            r == (self.duplicate_keys@.len() == 0 && self.type_mismatches@.len() == 0),
    {
        self.duplicate_keys.len() == 0 && self.type_mismatches.len() == 0
    }
}

/// The `DefaultHasher` hash of `parent`, then `kind`, then `key`, each
/// hashed as `Hash` writes it.
pub uninterp spec fn widget_key_hash(parent: u64, kind: Seq<char>, key: Seq<char>) -> u64;

/// `DefaultHasher::new()` fed `parent`, `kind` and `key` through their
/// `Hash` impls, then `finish`. A `DefaultHasher` made by `new` always
/// starts from the same keys, so the result is a function of the three
/// values (`widget_key_hash`); what it is, is not stated.
#[verifier::external_body]
fn hash_parts(parent: u64, kind: &str, key: &str) -> (h: u64)
    ensures
        h == widget_key_hash(parent, kind@, key@),
{
    let mut hasher = std::collections::hash_map::DefaultHasher::new();
    std::hash::Hash::hash(&parent, &mut hasher);
    std::hash::Hash::hash(kind, &mut hasher);
    std::hash::Hash::hash(key, &mut hasher);
    std::hash::Hasher::finish(&hasher)
}

/// A hash as a widget number: 0 is kept for "no widget", so it becomes 1.
pub open spec fn nonzero_id(h: u64) -> usize {
    if h as usize == 0 { 1 } else { h as usize }
}

/// The id a widget of `kind` keyed `key` under `parent` asks for first.
pub open spec fn key_candidate(parent: u64, kind: Seq<char>, key: Seq<char>) -> usize {
    nonzero_id(widget_key_hash(parent, kind, key))
}

/// The key tried for a duplicate: `key`, `#`, then `serial` in decimal.
pub open spec fn duplicate_key_text(key: Seq<char>, serial: u64) -> Seq<char> {
    key + seq!['#'] + decimal_text(serial as nat)
}

/// The id tried for a duplicate key with serial `serial`.
pub open spec fn retry_candidate(parent: u64, kind: Seq<char>, key: Seq<char>, serial: u64) -> usize {
    nonzero_id(widget_key_hash(parent, kind, duplicate_key_text(key, serial)))
}

/// The serial `k` steps after `s`, wrapping past `u64::MAX` to 0.
pub open spec fn serial_after(s: u64, k: nat) -> u64
    decreases k,
{
    if k == 0 {
        s
    } else {
        let p = serial_after(s, (k - 1) as nat);
        if p == u64::MAX { 0 } else { (p + 1) as u64 }
    }
}

/// How many serials there are: a retry loop that sees every one of them
/// taken has wrapped all the way round.
pub open spec fn serial_count() -> nat {
    0x1_0000_0000_0000_0000
}

/// The widget ids given out in the current frame.
pub struct WidgetIdSet {
    ids: HashSet<usize>,
}

impl View for WidgetIdSet {
    type V = Set<usize>;

    closed spec fn view(&self) -> Set<usize> {
        self.ids@
    }
}

impl WidgetIdSet {
    /// The set is finite.
    pub closed spec fn wf(&self) -> bool {
        self.ids@.finite()
    }

    pub fn new() -> (r: Self)
        ensures
            r.wf(),
            r@ == Set::<usize>::empty(),
    {
        WidgetIdSet { ids: HashSet::new() }
    }

    pub fn contains(&self, id: usize) -> (r: bool)
        ensures
            r == self@.contains(id),
    {
        self.ids.contains(&id)
    }

    pub fn len(&self) -> (r: usize)
        ensures
            r == self@.len(),
    {
        self.ids.len()
    }

    /// Forgets every id, for a new frame.
    pub fn clear(&mut self)
        ensures
            final(self).wf(),
            final(self)@ == Set::<usize>::empty(),
    {
        self.ids.clear();
    }

    fn insert(&mut self, id: usize)
        requires
            old(self).wf(),
        ensures
            final(self).wf(),
            final(self)@ == old(self)@.insert(id),
    {
        let _ = self.ids.insert(id);
    }
}

/// A finite set of widget numbers that holds every number from 1 up has
/// at least `usize::MAX` members.
proof fn lemma_full_id_set(s: Set<usize>)
    requires
        s.finite(),
        forall|x: usize| 1 <= x ==> s.contains(x),
    ensures
        s.len() >= usize::MAX,
{
    let f = |x: usize| x as int;
    let si = s.map(f);
    vstd::set_lib::lemma_map_size_bound(s, si, f);
    let r = vstd::set_lib::set_int_range(1, usize::MAX + 1);
    vstd::set_lib::lemma_int_range(1, usize::MAX + 1);
    assert forall|i: int| r.contains(i) implies si.contains(i) by {
        let x = i as usize;
        assert(s.contains(x));
        assert(f(x) == i);
    }
    vstd::set_lib::lemma_len_subset(r, si);
}

/// The smallest widget number from 1 up that `ids` does not hold.
fn first_free_id(ids: &WidgetIdSet) -> (id: usize)
    requires
        ids.wf(),
        ids@.len() < usize::MAX,
    ensures
        id != 0,
        !ids@.contains(id),
        forall|x: usize| 1 <= x < id ==> ids@.contains(x),
{
    let mut c: usize = 1;
    while ids.contains(c)
        invariant
            ids.wf(),
            ids@.len() < usize::MAX,
            1 <= c,
            forall|x: usize| 1 <= x < c ==> ids@.contains(x),
        decreases usize::MAX - c,
    {
        proof {
            if c == usize::MAX {
                lemma_full_id_set(ids@);
            }
        }
        c = c + 1;
    }
    c
}

/// `key`, `#` and `serial` in decimal.
fn duplicate_key(key: &str, serial: u64) -> (r: String)
    ensures
        r@ == duplicate_key_text(key@, serial),
{
    let mut s = key.to_owned();
    string_push(&mut s, '#');
    let digits = format_u64(serial);
    s.append(digits.as_str());
    s
}

/// The id for a widget of `kind` keyed `key` under the parent hash
/// `parent`, unused so far this frame, and marks it used. The same key in
/// the same place gives the same id in every frame. A key already used is
/// reported in `diag` and tried again as `key#serial` with the next serials
/// until a free id turns up; should every serial's id be taken, the
/// smallest free number is used.
pub fn reserve_id(
    ids: &mut WidgetIdSet,
    diag: &mut UiDiagnostics,
    serial: &mut u64,
    parent: u64,
    kind: &str,
    key: &str,
) -> (id: WidgetId)
    requires
        old(ids).wf(),
        old(ids)@.len() < usize::MAX,
    ensures
        final(ids).wf(),
        id.0 != 0,
        !old(ids)@.contains(id.0),
        final(ids)@ == old(ids)@.insert(id.0),
        final(diag).type_mismatches@ == old(diag).type_mismatches@,
        !old(ids)@.contains(key_candidate(parent, kind@, key@)) ==> {
            &&& id.0 == key_candidate(parent, kind@, key@)
            &&& final(diag).duplicate_keys@ == old(diag).duplicate_keys@
            &&& *final(serial) == *old(serial)
        },
        old(ids)@.contains(key_candidate(parent, kind@, key@)) ==> {
            &&& final(diag).duplicate_keys@ == old(diag).duplicate_keys@.push(WidgetId(key_candidate(parent, kind@, key@)))
            &&& ((exists|j: nat| #![trigger serial_after(*old(serial), j)]
                1 <= j <= serial_count() && *final(serial) == serial_after(*old(serial), j)
                && id.0 == retry_candidate(parent, kind@, key@, *final(serial))
                && forall|k: nat| 1 <= k < j ==> old(ids)@.contains(#[trigger] retry_candidate(parent, kind@, key@, serial_after(*old(serial), k))))
            || (forall|k: nat| 1 <= k <= serial_count() ==> old(ids)@.contains(#[trigger] retry_candidate(parent, kind@, key@, serial_after(*old(serial), k)))))
        },
{
    let h = hash_parts(parent, kind, key);
    let hid: usize = #[verifier::truncate] (h as usize);
    let first: usize = if hid == 0 { 1 } else { hid };
    if !ids.contains(first) {
        ids.insert(first);
        return WidgetId(first);
    }
    diag.duplicate_keys.push(WidgetId(first));
    let ghost s0 = *serial;
    let mut tries: u128 = 0;
    while tries < 0x1_0000_0000_0000_0000
        invariant
            ids.wf(),
            *ids == *old(ids),
            tries <= serial_count(),
            *serial == serial_after(s0, tries as nat),
            s0 == *old(serial),
            first == key_candidate(parent, kind@, key@),
            old(ids)@.contains(first),
            diag.type_mismatches@ == old(diag).type_mismatches@,
            diag.duplicate_keys@ == old(diag).duplicate_keys@.push(WidgetId(first)),
            forall|k: nat| 1 <= k <= tries ==> old(ids)@.contains(#[trigger] retry_candidate(parent, kind@, key@, serial_after(s0, k))),
        decreases serial_count() - tries,
    {
        let next: u64 = if *serial == u64::MAX { 0 } else { *serial + 1 };
        *serial = next;
        tries = tries + 1;
        assert(*serial == serial_after(s0, tries as nat));
        let retry = duplicate_key(key, *serial);
        let h2 = hash_parts(parent, kind, retry.as_str());
        let hid2: usize = #[verifier::truncate] (h2 as usize);
        let cand: usize = if hid2 == 0 { 1 } else { hid2 };
        if !ids.contains(cand) {
            ids.insert(cand);
            assert(serial_after(s0, tries as nat) == *serial);
            return WidgetId(cand);
        }
    }
    let c = first_free_id(ids);
    ids.insert(c);
    WidgetId(c)
}

/// Whether `p` is the payload of a plain click.
pub open spec fn is_click(p: CommandPayload) -> bool {
    p matches CommandPayload::Empty
}

/// The response of widget `id` to the payloads its commands carried this
/// frame: clicked when one was a plain click, changed when one carried a
/// value.
pub fn response_from_payloads(id: WidgetId, payloads: &[CommandPayload]) -> (r: Response)
    ensures
        r.id == id,
        r.clicked == exists|i: int| 0 <= i < payloads@.len() && is_click(#[trigger] payloads@[i]),
        r.changed == exists|i: int| 0 <= i < payloads@.len() && !is_click(#[trigger] payloads@[i]),
        !r.hovered && !r.active && !r.focused,
{
    let mut response = Response::new(id);
    let mut i: usize = 0;
    while i < payloads.len()
        invariant
            i <= payloads@.len(),
            response.id == id,
            !response.hovered && !response.active && !response.focused,
            response.clicked == exists|j: int| 0 <= j < i && is_click(#[trigger] payloads@[j]),
            response.changed == exists|j: int| 0 <= j < i && !is_click(#[trigger] payloads@[j]),
        decreases payloads@.len() - i,
    {
        match &payloads[i] {
            CommandPayload::Empty => {
                response.clicked = true;
            },
            _ => {
                response.changed = true;
            },
        }
        i = i + 1;
    }
    response
}

/// The text of the first text payload, if any.
pub fn text_payload(payloads: &[CommandPayload]) -> (r: Option<&str>)
    ensures
        r matches Some(t) ==> exists|i: int|
            0 <= i < payloads@.len() && (#[trigger] payloads@[i] matches CommandPayload::Text(s) && s@ == t@)
            && forall|j: int| 0 <= j < i ==> !(#[trigger] payloads@[j] is Text),
        r is None ==> forall|j: int| 0 <= j < payloads@.len() ==> !(#[trigger] payloads@[j] is Text),
{
    let mut i: usize = 0;
    while i < payloads.len()
        invariant
            i <= payloads@.len(),
            forall|j: int| 0 <= j < i ==> !(#[trigger] payloads@[j] is Text),
        decreases payloads@.len() - i,
    {
        match &payloads[i] {
            CommandPayload::Text(text) => {
                return Some(text.as_str());
            },
            _ => {},
        }
        i = i + 1;
    }
    None
}

} // verus!
