//! What a combo box needs of the items it lists.
use vstd::prelude::*;

verus! {

/// An item a combo box can list: the text it shows and the value it
/// reports when chosen.
pub trait ComboBoxItem: Send + Sync + Clone + 'static {
    fn display_name(&self) -> String;

    fn value(&self) -> String;
}

impl ComboBoxItem for String {
    /// The string itself.
    fn display_name(&self) -> (r: String)
        ensures
            r@ == self@,
    {
        self.clone()
    }

    /// The string itself.
    fn value(&self) -> (r: String)
        ensures
            r@ == self@,
    {
        self.clone()
    }
}

impl ComboBoxItem for &'static str {
    /// The text, owned.
    fn display_name(&self) -> (r: String)
        ensures
            r@ == (*self)@,
    {
        (*self).to_owned()
    }

    /// The text, owned.
    fn value(&self) -> (r: String)
        ensures
            r@ == (*self)@,
    {
        (*self).to_owned()
    }
}

/// The first position of `i` in `s`, when it occurs.
pub open spec fn first_index(s: Seq<usize>, i: usize) -> Option<nat>
    decreases s.len(),
{
    if s.len() == 0 {
        None
    } else if s[0] == i {
        Some(0)
    } else {
        match first_index(s.drop_first(), i) {
            Some(k) => Some(k + 1),
            None => None,
        }
    }
}

pub(crate) proof fn lemma_first_index(s: Seq<usize>, p: usize)
    ensures
        first_index(s, p) matches Some(k) ==> k < s.len() && s[k as int] == p
            && forall|j: int| 0 <= j < k ==> s[j] != p,
        first_index(s, p) is None ==> !s.contains(p),
    decreases s.len(),
{
    if s.len() > 0 {
        lemma_first_index(s.drop_first(), p);
        if s[0] != p {
            if first_index(s.drop_first(), p) is None {
                assert forall|j: int| 0 <= j < s.len() implies s[j] != p by {
                    if j > 0 {
                        assert(s[j] == s.drop_first()[j - 1]);
                    }
                }
            } else {
                let k = first_index(s.drop_first(), p)->0;
                assert forall|j: int| 0 <= j < k + 1 implies s[j] != p by {
                    if j > 0 {
                        assert(s[j] == s.drop_first()[j - 1]);
                    }
                }
            }
        }
    }
}

/// A multi-selection after clicking item `i`: its first occurrence is
/// dropped if it was chosen, and it is appended otherwise.
pub open spec fn toggled(s: Seq<usize>, i: usize) -> Seq<usize> {
    match first_index(s, i) {
        Some(k) => s.remove(k as int),
        None => s.push(i),
    }
}

/// What a combo box has chosen and whether its list is open. Items are
/// named by index; where the pointer is, is the caller's to find out.
#[derive(Debug, Clone)]
pub struct ComboSelection {
    pub open: bool,
    pub multi_select: bool,
    pub selected_index: Option<usize>,
    pub selected_items: Vec<usize>,
}

impl ComboSelection {
    /// Closed, single-choice, nothing chosen.
    pub fn new() -> (r: Self)
        ensures
            !r.open && !r.multi_select,
            r.selected_index is None,
            r.selected_items@ == Seq::<usize>::empty(),
    {
        ComboSelection { open: false, multi_select: false, selected_index: None, selected_items: Vec::new() }
    }

    /// Chooses item `index` of `len` items; an index past the end is
    /// ignored. `true` when the choice was made.
    pub fn set_selected(&mut self, index: usize, len: usize) -> (r: bool)
        ensures
            r == (index < len),
            final(self).selected_index == if index < len { Some(index) } else { old(self).selected_index },
            final(self).selected_items == old(self).selected_items,
            final(self).open == old(self).open,
            final(self).multi_select == old(self).multi_select,
    {
        if index < len {
            self.selected_index = Some(index);
            true
        } else {
            false
        }
    }

    /// Adds or removes item `i` of a multi-selection.
    pub fn toggle(&mut self, i: usize)
        ensures
            final(self).selected_items@ == toggled(old(self).selected_items@, i),
            final(self).selected_index == old(self).selected_index,
            final(self).open == old(self).open,
            final(self).multi_select == old(self).multi_select,
    {
        let mut k: usize = 0;
        let n = self.selected_items.len();
        assert(self.selected_items@.skip(0) =~= self.selected_items@);
        while k < n
            invariant
                k <= n,
                n == self.selected_items@.len(),
                self.selected_items == old(self).selected_items,
                self.selected_index == old(self).selected_index,
                self.open == old(self).open,
                self.multi_select == old(self).multi_select,
                first_index(self.selected_items@, i) == match first_index(self.selected_items@.skip(k as int), i) {
                    Some(j) => Some((j + k) as nat),
                    None => None::<nat>,
                },
            decreases n - k,
        {
            assert(self.selected_items@.skip(k as int).drop_first() =~= self.selected_items@.skip(k + 1));
            if self.selected_items[k] == i {
                self.selected_items.remove(k);
                return;
            }
            k = k + 1;
        }
        assert(self.selected_items@.skip(n as int) =~= Seq::<usize>::empty());
        self.selected_items.push(i);
    }

    /// A click: `on_button` when it landed on the box itself, `item` the
    /// list entry under it, if any. Clicking the box opens or closes the
    /// list; clicking an entry of the open list chooses it (toggles it with
    /// multiple choice, chooses it and closes the list otherwise), and
    /// clicking anywhere else closes the list. Returns the entry chosen.
    pub fn click(&mut self, on_button: bool, item: Option<usize>) -> (r: Option<usize>)
        ensures
            on_button ==> r is None && final(self).open == !old(self).open
                && final(self).selected_index == old(self).selected_index
                && final(self).selected_items == old(self).selected_items,
            !on_button && !old(self).open ==> r is None && *final(self) == *old(self),
            !on_button && old(self).open ==> r == item && match item {
                None => !final(self).open && final(self).selected_index == old(self).selected_index
                    && final(self).selected_items == old(self).selected_items,
                Some(i) => if old(self).multi_select {
                    final(self).open && final(self).selected_items@ == toggled(old(self).selected_items@, i)
                        && final(self).selected_index == old(self).selected_index
                } else {
                    !final(self).open && final(self).selected_index == Some(i)
                        && final(self).selected_items == old(self).selected_items
                },
            },
            final(self).multi_select == old(self).multi_select,
    {
        if on_button {
            self.open = !self.open;
            return None;
        }
        if !self.open {
            return None;
        }
        match item {
            Some(i) => {
                if self.multi_select {
                    self.toggle(i);
                } else {
                    self.selected_index = Some(i);
                    self.open = false;
                }
                Some(i)
            },
            None => {
                self.open = false;
                None
            },
        }
    }

    /// The entry to report after an update, given the choice before it: with
    /// multiple choice the last entry when the number chosen changed, with
    /// a single choice the new one when it changed.
    pub fn changed_index(&self, before_single: Option<usize>, before_len: usize) -> (r: Option<usize>)
        ensures
            self.multi_select ==> r == if before_len != self.selected_items@.len() && self.selected_items@.len() > 0 {
                Some(self.selected_items@.last())
            } else {
                None::<usize>
            },
            !self.multi_select ==> r == if before_single != self.selected_index { self.selected_index } else { None::<usize> },
    {
        if self.multi_select {
            let n = self.selected_items.len();
            if before_len != n && n > 0 {
                Some(self.selected_items[n - 1])
            } else {
                None
            }
        } else if before_single != self.selected_index {
            self.selected_index
        } else {
            None
        }
    }
}

/// Clicking an item that was not chosen and then clicking it again leaves
/// the multi-selection as it was.
pub proof fn lemma_toggle_twice_restores(s: Seq<usize>, i: usize)
    requires
        !s.contains(i),
    ensures
        toggled(toggled(s, i), i) == s,
{
    lemma_first_index(s, i);
    lemma_first_index(s.push(i), i);
    let k = first_index(s.push(i), i);
    assert(s.push(i)[s.len() as int] == i);
    if let Some(kk) = k {
        if kk < s.len() {
            assert(s[kk as int] == i);
        }
    }
    assert(s.push(i).remove(s.len() as int) =~= s);
}

} // verus!
