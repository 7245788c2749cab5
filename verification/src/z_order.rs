//! The stacking order of panels: later panels are drawn above earlier ones.
use vstd::prelude::*;
use crate::combo::{first_index, lemma_first_index};

verus! {

/// `s` with `p` moved to the end: its first occurrence taken out, then `p`
/// appended.
pub open spec fn moved_to_front(s: Seq<usize>, p: usize) -> Seq<usize> {
    match first_index(s, p) {
        Some(k) => s.remove(k as int).push(p),
        None => s.push(p),
    }
}

/// `x` stands below `y` somewhere in `s`: some place of `x` comes before
/// some place of `y`.
pub open spec fn stands_below(s: Seq<usize>, x: usize, y: usize) -> bool {
    exists|a: int, b: int| #![trigger s[a], s[b]] 0 <= a && a < b && b < s.len() && s[a] == x && s[b] == y
}

/// Bringing `p` to the front puts it on top and keeps every other panel
/// in its old relative order: any two panels below the new top stood in the
/// same order in the old stack, and every other panel of the old stack is
/// still below the top. Only `p`'s first place in the old stack is lost.
pub proof fn lemma_front_keeps_others_in_order(s: Seq<usize>, p: usize, r: Seq<usize>)
    requires
        r == moved_to_front(s, p),
    ensures
        r.last() == p,
        r.len() == (if s.contains(p) { s.len() } else { s.len() + 1 }),
        forall|i: int, j: int| 0 <= i && i < j && j < r.len() - 1 ==> #[trigger] stands_below(s, r[i], r[j]),
        forall|a: int| 0 <= a < s.len() && s[a] != p ==> #[trigger] r.drop_last().contains(s[a]),
{
    lemma_first_index(s, p);
    match first_index(s, p) {
        Some(k) => {
            let k = k as int;
            assert(s.contains(p)) by {
                assert(s[k] == p);
            }
            assert(r.drop_last() =~= s.remove(k));
            assert forall|i: int, j: int| 0 <= i && i < j && j < r.len() - 1 implies #[trigger] stands_below(s, r[i], r[j]) by {
                let a = if i < k { i } else { i + 1 };
                let b = if j < k { j } else { j + 1 };
                assert(r[i] == s.remove(k)[i] && r[j] == s.remove(k)[j]);
                assert(s[a] == r[i] && s[b] == r[j]);
            }
            assert forall|a: int| 0 <= a < s.len() && s[a] != p implies #[trigger] r.drop_last().contains(s[a]) by {
                let i = if a < k { a } else { a - 1 };
                assert(r.drop_last()[i] == s[a]);
            }
        },
        None => {
            assert(r.drop_last() =~= s);
            assert forall|i: int, j: int| 0 <= i && i < j && j < r.len() - 1 implies #[trigger] stands_below(s, r[i], r[j]) by {
                assert(r[i] == s.push(p)[i] && r[j] == s.push(p)[j]);
                assert(s[i] == r[i] && s[j] == r[j]);
            }
            assert forall|a: int| 0 <= a < s.len() && s[a] != p implies #[trigger] r.drop_last().contains(s[a]) by {
                assert(r.drop_last()[a] == s[a]);
            }
        },
    }
}

/// Panels in stacking order, bottom first, each at most once.
#[derive(Debug, Clone)]
pub struct ZOrder {
    panel_indices: Vec<usize>,
}

impl View for ZOrder {
    type V = Seq<usize>;

    closed spec fn view(&self) -> Seq<usize> {
        self.panel_indices@
    }
}

impl ZOrder {
    pub fn new() -> (r: Self)
        ensures
            r@ == Seq::<usize>::empty(),
    {
        ZOrder { panel_indices: Vec::new() }
    }

    pub fn panel_indices(&self) -> (r: &[usize])
        ensures
            r@ == self@,
    {
        self.panel_indices.as_slice()
    }

    fn position(&self, panel_idx: usize) -> (r: Option<usize>)
        ensures
            r matches Some(k) ==> first_index(self@, panel_idx) == Some(k as nat),
            r is None ==> first_index(self@, panel_idx) is None,
    {
        let n = self.panel_indices.len();
        let mut k: usize = 0;
        assert(self@.skip(0) =~= self@);
        while k < n
            invariant
                k <= n,
                n == self@.len(),
                first_index(self@, panel_idx) == match first_index(self@.skip(k as int), panel_idx) {
                    Some(j) => Some((j + k) as nat),
                    None => None::<nat>,
                },
            decreases n - k,
        {
            assert(self@.skip(k as int).drop_first() =~= self@.skip(k + 1));
            if self.panel_indices[k] == panel_idx {
                return Some(k);
            }
            k = k + 1;
        }
        assert(self@.skip(n as int) =~= Seq::<usize>::empty());
        None
    }

    /// Adds a panel on top, unless it is already stacked.
    pub fn register(&mut self, panel_idx: usize)
        ensures
            final(self)@ == if old(self)@.contains(panel_idx) { old(self)@ } else { old(self)@.push(panel_idx) },
            old(self)@.no_duplicates() ==> final(self)@.no_duplicates(),
    {
        proof {
            lemma_first_index(self@, panel_idx);
        }
        match self.position(panel_idx) {
            Some(_) => {},
            None => {
                self.panel_indices.push(panel_idx);
                proof {
                    if old(self)@.no_duplicates() {
                        assert forall|i: int, j: int| 0 <= i < j < self@.len() implies self@[i] != self@[j] by {
                            if j == self@.len() - 1 {
                                assert(self@[i] == old(self)@[i]);
                            }
                        }
                    }
                }
            },
        }
    }

    /// Moves a panel to the top, adding it if it was not stacked.
    pub fn bring_to_front(&mut self, panel_idx: usize)
        ensures
            final(self)@ == moved_to_front(old(self)@, panel_idx),
            final(self)@.last() == panel_idx,
            old(self)@.no_duplicates() ==> final(self)@.no_duplicates(),
            forall|q: usize| q != panel_idx ==> (#[trigger] final(self)@.contains(q) == old(self)@.contains(q)),
    {
        proof {
            lemma_first_index(self@, panel_idx);
        }
        let ghost s = self@;
        match self.position(panel_idx) {
            Some(k) => {
                self.panel_indices.remove(k);
            },
            None => {},
        }
        let ghost mid = self@;
        self.panel_indices.push(panel_idx);
        proof {
            assert forall|q: usize| q != panel_idx implies (#[trigger] self@.contains(q) == s.contains(q)) by {
                if s.contains(q) {
                    let i = choose|i: int| 0 <= i < s.len() && s[i] == q;
                    match first_index(s, panel_idx) {
                        Some(k) => {
                            if i < k {
                                assert(self@[i] == q);
                            } else {
                                assert(self@[i - 1] == q);
                            }
                        },
                        None => {
                            assert(self@[i] == q);
                        },
                    }
                }
                if self@.contains(q) {
                    let i = choose|i: int| 0 <= i < self@.len() && self@[i] == q;
                    assert(i < mid.len());
                    match first_index(s, panel_idx) {
                        Some(k) => {
                            if i < k {
                                assert(s[i] == q);
                            } else {
                                assert(s[i + 1] == q);
                            }
                        },
                        None => {
                            assert(s[i] == q);
                        },
                    }
                }
            }
            if s.no_duplicates() {
                assert forall|i: int, j: int| 0 <= i < j < self@.len() implies self@[i] != self@[j] by {
                    if j == self@.len() - 1 {
                        assert(self@.contains(self@[i]));
                        match first_index(s, panel_idx) {
                            Some(k) => {
                                let oi = if i < k { i } else { i + 1 };
                                assert(s[oi] == self@[i]);
                                assert(oi != k);
                            },
                            None => {
                                assert(s[i] == self@[i]);
                            },
                        }
                    } else {
                        match first_index(s, panel_idx) {
                            Some(k) => {
                                let oi = if i < k { i } else { i + 1 };
                                let oj = if j < k { j } else { j + 1 };
                                assert(s[oi] == self@[i] && s[oj] == self@[j]);
                            },
                            None => {
                                assert(s[i] == self@[i] && s[j] == self@[j]);
                            },
                        }
                    }
                }
            }
        }
    }

    /// The lowest stacked panel whose flag in `priority` is set; `priority`
    /// is indexed by widget and covers every stacked panel.
    pub fn first_active(&self, priority: &[bool]) -> (r: Option<usize>)
        requires
            forall|i: int| 0 <= i < self@.len() ==> self@[i] < priority@.len(),
        ensures
            r matches Some(p) ==> self@.contains(p) && priority@[p as int]
                && exists|k: int| 0 <= k < self@.len() && self@[k] == p
                    && forall|j: int| 0 <= j < k ==> !priority@[self@[j] as int],
            r is None ==> forall|j: int| 0 <= j < self@.len() ==> !priority@[#[trigger] self@[j] as int],
    {
        let n = self.panel_indices.len();
        let mut k: usize = 0;
        while k < n
            invariant
                k <= n,
                n == self@.len(),
                forall|i: int| 0 <= i < self@.len() ==> self@[i] < priority@.len(),
                forall|j: int| 0 <= j < k ==> !priority@[#[trigger] self@[j] as int],
            decreases n - k,
        {
            let p = self.panel_indices[k];
            if priority[p] {
                assert(self@[k as int] == p);
                return Some(p);
            }
            k = k + 1;
        }
        None
    }

    /// Raises the lowest panel that asks for priority, if any; returns it.
    pub fn update(&mut self, priority: &[bool]) -> (r: Option<usize>)
        requires
            forall|i: int| 0 <= i < old(self)@.len() ==> old(self)@[i] < priority@.len(),
        ensures
            r is None <==> forall|j: int| 0 <= j < old(self)@.len() ==> !priority@[#[trigger] old(self)@[j] as int],
            r is None ==> final(self)@ == old(self)@,
            r matches Some(p) ==> final(self)@ == moved_to_front(old(self)@, p) && priority@[p as int]
                && exists|k: int| 0 <= k < old(self)@.len() && old(self)@[k] == p
                    && forall|j: int| 0 <= j < k ==> !priority@[old(self)@[j] as int],
    {
        let active = self.first_active(priority);
        match active {
            Some(p) => {
                self.bring_to_front(p);
                Some(p)
            },
            None => None,
        }
    }
}

impl Default for ZOrder {
    fn default() -> (r: Self)
        ensures
            r@ == Seq::<usize>::empty(),
    {
        Self::new()
    }
}

} // verus!
