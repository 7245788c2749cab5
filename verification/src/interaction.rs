//! Keyboard focus and the interaction vocabulary shared by widgets.
use vstd::prelude::*;
use std::collections::VecDeque;

verus! {

#[derive(Debug, Clone, Copy, PartialEq, Eq, Hash, Structural)]
pub struct FocusId(pub usize);

/// What a focus request changed.
#[derive(Debug, Clone, Copy, PartialEq, Eq, Structural)]
pub enum FocusChange {
    Unchanged,
    Focused(FocusId),
    Blurred(FocusId),
    Swapped { old: FocusId, new: FocusId },
}

/// What giving focus to `id` reports when `previous` held it.
pub open spec fn focus_change(previous: Option<FocusId>, id: FocusId) -> FocusChange {
    match previous {
        None => FocusChange::Focused(id),
        Some(old_id) => if old_id == id { FocusChange::Unchanged } else { FocusChange::Swapped { old: old_id, new: id } },
    }
}

/// The focus holder after taking focus from `id`.
pub open spec fn focused_after_blur(previous: Option<FocusId>, id: FocusId) -> Option<FocusId> {
    if previous == Some(id) { None } else { previous }
}

/// What taking focus from `id` reports.
pub open spec fn blur_change(previous: Option<FocusId>, id: FocusId) -> FocusChange {
    if previous == Some(id) { FocusChange::Blurred(id) } else { FocusChange::Unchanged }
}

/// Which widget holds keyboard focus, and the next focus id to hand out.
#[derive(Debug, Clone, Copy)]
pub struct FocusManager {
    focused: Option<FocusId>,
    next: usize,
}

impl FocusManager {
    pub closed spec fn spec_focused(&self) -> Option<FocusId> {
        self.focused
    }

    pub closed spec fn spec_next(&self) -> usize {
        self.next
    }

    pub fn new() -> (r: Self)
        ensures
            r.spec_focused() is None,
            r.spec_next() == 0,
    {
        FocusManager { focused: None, next: 0 }
    }

    /// A fresh id: 0, 1, 2, ... in call order.
    pub fn allocate(&mut self) -> (r: FocusId)
        requires
            old(self).spec_next() < usize::MAX,
        ensures
            r == FocusId(old(self).spec_next()),
            final(self).spec_next() == old(self).spec_next() + 1,
            final(self).spec_focused() == old(self).spec_focused(),
    {
        let id = FocusId(self.next);
        self.next = self.next + 1;
        id
    }

    pub fn focused(&self) -> (r: Option<FocusId>)
        ensures
            r == self.spec_focused(),
    {
        self.focused
    }

    /// Gives focus to `id`, reporting whether it was newly focused, taken
    /// from another widget, or already held.
    pub fn focus(&mut self, id: FocusId) -> (r: FocusChange)
        ensures
            final(self).spec_focused() == Some(id),
            final(self).spec_next() == old(self).spec_next(),
            r == focus_change(old(self).spec_focused(), id),
    {
        let previous = self.focused;
        self.focused = Some(id);
        match previous {
            Some(old_id) => {
                if old_id == id {
                    FocusChange::Unchanged
                } else {
                    FocusChange::Swapped { old: old_id, new: id }
                }
            },
            None => FocusChange::Focused(id),
        }
    }

    /// Takes focus from `id` if it holds it.
    pub fn blur(&mut self, id: FocusId) -> (r: FocusChange)
        ensures
            final(self).spec_next() == old(self).spec_next(),
            final(self).spec_focused() == focused_after_blur(old(self).spec_focused(), id),
            r == blur_change(old(self).spec_focused(), id),
    {
        let holds = match self.focused {
            Some(current) => current == id,
            None => false,
        };
        if holds {
            self.focused = None;
            FocusChange::Blurred(id)
        } else {
            FocusChange::Unchanged
        }
    }

    /// Takes focus from whichever widget holds it.
    pub fn clear(&mut self) -> (r: FocusChange)
        ensures
            final(self).spec_focused() is None,
            final(self).spec_next() == old(self).spec_next(),
            r == match old(self).spec_focused() {
                Some(id) => FocusChange::Blurred(id),
                None => FocusChange::Unchanged,
            },
    {
        match self.focused {
            Some(id) => {
                self.focused = None;
                FocusChange::Blurred(id)
            },
            None => FocusChange::Unchanged,
        }
    }
}

impl Default for FocusManager {
    fn default() -> (r: Self)
        ensures
            r.spec_focused() is None,
            r.spec_next() == 0,
    {
        Self::new()
    }
}

/// Focusing a widget and then blurring it leaves nothing focused, and the
/// blur is reported for that widget, whoever held focus before.
pub proof fn lemma_focus_then_blur(before: Option<FocusId>, id: FocusId)
    ensures
        focused_after_blur(Some(id), id) is None,
        blur_change(Some(id), id) == FocusChange::Blurred(id),
{
}

/// Focusing the widget that already holds focus changes nothing; focusing
/// another reports the swap from the old holder.
pub proof fn lemma_refocus_and_swap(a: FocusId, b: FocusId)
    ensures
        focus_change(Some(a), a) == FocusChange::Unchanged,
        a != b ==> focus_change(Some(a), b) == (FocusChange::Swapped { old: a, new: b }),
{
}

/// Blurring a widget that does not hold focus changes nothing.
pub proof fn lemma_blur_of_other_is_noop(holder: Option<FocusId>, id: FocusId)
    requires
        holder != Some(id),
    ensures
        focused_after_blur(holder, id) == holder,
        blur_change(holder, id) == FocusChange::Unchanged,
{
}

#[derive(Debug, Clone, Copy, PartialEq, Eq, Structural)]
pub enum HitTestBehavior {
    Opaque,
    Transparent,
    Passthrough,
}

#[derive(Debug, Clone, Copy, PartialEq, Eq, Structural)]
pub enum InteractionEventKind {
    HoverEnter,
    HoverExit,
    Press,
    Release,
    Click,
    DragStart,
    DragMove,
    DragEnd,
    Focus,
    Blur,
}

/// The pointer and focus state of one widget.
#[derive(Debug, Clone, Copy, PartialEq, Eq, Structural)]
pub struct WidgetInteractionState {
    pub hovered: bool,
    pub pressed: bool,
    pub focused: bool,
    pub dragging: bool,
}

impl WidgetInteractionState {
    /// Nothing hovered, pressed, focused or dragged.
    pub fn empty() -> (r: Self)
        ensures
            r == (WidgetInteractionState { hovered: false, pressed: false, focused: false, dragging: false }),
    {
        WidgetInteractionState { hovered: false, pressed: false, focused: false, dragging: false }
    }

    /// Queues the events that the change from `self` to `next` amounts to,
    /// for `target` at `point`: hover, press and focus edges, in that order.
    pub fn diff<P: Copy>(self, next: Self, target: usize, point: P, out: &mut InteractionQueue<P>)
        ensures
            final(out)@ == old(out)@ + transition_kinds(self, next).map_values(
                |kind: InteractionEventKind| InteractionEvent { target, kind, point },
            ),
    {
        let ghost start = out@;
        let ghost kinds = transition_kinds(self, next);
        let ghost mk = |kind: InteractionEventKind| InteractionEvent { target, kind, point };
        if !self.hovered && next.hovered {
            out.push(InteractionEvent { target, kind: InteractionEventKind::HoverEnter, point });
        }
        if self.hovered && !next.hovered {
            out.push(InteractionEvent { target, kind: InteractionEventKind::HoverExit, point });
        }
        if !self.pressed && next.pressed {
            out.push(InteractionEvent { target, kind: InteractionEventKind::Press, point });
        }
        if self.pressed && !next.pressed {
            out.push(InteractionEvent { target, kind: InteractionEventKind::Release, point });
        }
        if !self.focused && next.focused {
            out.push(InteractionEvent { target, kind: InteractionEventKind::Focus, point });
        }
        if self.focused && !next.focused {
            out.push(InteractionEvent { target, kind: InteractionEventKind::Blur, point });
        }
        assert(out@ =~= start + kinds.map_values(mk));
    }
}

/// The edge kinds between two states, in the order `diff` queues them.
pub open spec fn transition_kinds(a: WidgetInteractionState, b: WidgetInteractionState) -> Seq<InteractionEventKind> {
    let e = Seq::<InteractionEventKind>::empty();
    let s1 = if !a.hovered && b.hovered { e.push(InteractionEventKind::HoverEnter) } else { e };
    let s2 = if a.hovered && !b.hovered { s1.push(InteractionEventKind::HoverExit) } else { s1 };
    let s3 = if !a.pressed && b.pressed { s2.push(InteractionEventKind::Press) } else { s2 };
    let s4 = if a.pressed && !b.pressed { s3.push(InteractionEventKind::Release) } else { s3 };
    let s5 = if !a.focused && b.focused { s4.push(InteractionEventKind::Focus) } else { s4 };
    if a.focused && !b.focused { s5.push(InteractionEventKind::Blur) } else { s5 }
}

/// An interaction event on widget `target` at `point`.
#[derive(Debug, Clone, Copy, PartialEq, Eq)]
pub struct InteractionEvent<P> {
    pub target: usize,
    pub kind: InteractionEventKind,
    pub point: P,
}

/// Interaction events waiting to be handled, oldest first.
#[derive(Debug, Clone)]
pub struct InteractionQueue<P> {
    events: VecDeque<InteractionEvent<P>>,
}

impl<P> View for InteractionQueue<P> {
    type V = Seq<InteractionEvent<P>>;

    closed spec fn view(&self) -> Seq<InteractionEvent<P>> {
        self.events@
    }
}

impl<P> InteractionQueue<P> {
    pub fn new() -> (r: Self)
        ensures
            r@ == Seq::<InteractionEvent<P>>::empty(),
    {
        InteractionQueue { events: VecDeque::with_capacity(32) }
    }

    pub fn push(&mut self, event: InteractionEvent<P>)
        ensures
            final(self)@ == old(self)@.push(event),
    {
        self.events.push_back(event);
    }

    /// The oldest event, if any.
    pub fn pop(&mut self) -> (r: Option<InteractionEvent<P>>)
        ensures
            old(self)@.len() == 0 ==> r is None && final(self)@ == old(self)@,
            old(self)@.len() > 0 ==> r == Some(old(self)@[0]) && final(self)@ == old(self)@.drop_first(),
    {
        let r = self.events.pop_front();
        proof {
            if old(self)@.len() > 0 {
                assert(self@ =~= old(self)@.drop_first());
            }
        }
        r
    }

    pub fn clear(&mut self)
        ensures
            final(self)@ == Seq::<InteractionEvent<P>>::empty(),
    {
        self.events.clear();
    }

    pub fn len(&self) -> (r: usize)
        ensures
            r == self@.len(),
    {
        self.events.len()
    }

    pub fn is_empty(&self) -> (r: bool)
        ensures
            r == (self@.len() == 0),
    {
        self.events.len() == 0
    }
}

impl<P> Default for InteractionQueue<P> {
    fn default() -> (r: Self)
        ensures
            r@ == Seq::<InteractionEvent<P>>::empty(),
    {
        Self::new()
    }
}

/// Diffing a state against itself queues nothing.
pub proof fn lemma_diff_of_unchanged_is_empty(a: WidgetInteractionState)
    ensures
        transition_kinds(a, a) == Seq::<InteractionEventKind>::empty(),
{
    assert(transition_kinds(a, a) =~= Seq::<InteractionEventKind>::empty());
}

} // verus!
