//! The clip stack's discipline: nested clip regions and the tokens that
//! unwind them. The regions themselves are geometry and are computed by the
//! caller; this module only keeps their order.
use vstd::prelude::*;

verus! {

/// How an instance takes its clip region.
#[derive(Debug, Clone, Copy, PartialEq, Eq, Structural)]
pub enum ClipMode {
    Inherit,
    Disabled,
    Explicit,
}

/// Proof of a push: popping it removes that entry and everything above it.
#[derive(Debug, Clone, Copy, PartialEq, Eq, Structural)]
pub struct ClipToken {
    depth_after_push: usize,
}

impl ClipToken {
    pub closed spec fn depth(self) -> nat {
        self.depth_after_push as nat
    }
}

/// A stack of clip regions, innermost last.
pub struct ClipStack<R> {
    stack: Vec<R>,
}

impl<R> View for ClipStack<R> {
    type V = Seq<R>;

    closed spec fn view(&self) -> Seq<R> {
        self.stack@
    }
}

impl<R: Copy> ClipStack<R> {
    pub fn new() -> (r: Self)
        ensures
            r@ == Seq::<R>::empty(),
    {
        ClipStack { stack: Vec::new() }
    }

    pub fn with_capacity(capacity: usize) -> (r: Self)
        requires
            capacity * vstd::layout::size_of::<R>() <= isize::MAX,
        ensures
            r@ == Seq::<R>::empty(),
    {
        ClipStack { stack: Vec::with_capacity(capacity) }
    }

    pub fn clear(&mut self)
        ensures
            final(self)@ == Seq::<R>::empty(),
    {
        self.stack.clear();
    }

    pub fn len(&self) -> (r: usize)
        ensures
            r == self@.len(),
    {
        self.stack.len()
    }

    pub fn is_empty(&self) -> (r: bool)
        ensures
            r == (self@.len() == 0),
    {
        self.stack.len() == 0
    }

    /// The innermost region, if any.
    pub fn current(&self) -> (r: Option<R>)
        ensures
            r == (if self@.len() == 0 { None } else { Some(self@.last()) }),
    {
        let n = self.stack.len();
        if n == 0 {
            None
        } else {
            Some(self.stack[n - 1])
        }
    }

    /// Pushes `rect` as it is; the caller has already narrowed it to the
    /// region below it where that is wanted.
    pub fn push_raw(&mut self, rect: R) -> (token: ClipToken)
        ensures
            final(self)@ == old(self)@.push(rect),
            token.depth() == final(self)@.len(),
    {
        self.stack.push(rect);
        ClipToken { depth_after_push: self.stack.len() }
    }

    /// Removes the entry that `token` pushed and everything above it. A
    /// token deeper than the stack leaves it unchanged.
    pub fn pop(&mut self, token: ClipToken)
        requires
            token.depth() >= 1,
        ensures
            final(self)@ == (if token.depth() <= old(self)@.len() {
                old(self)@.take(token.depth() - 1)
            } else {
                old(self)@
            }),
    {
        let ghost start = self@;
        while self.stack.len() >= token.depth_after_push
            invariant
                token.depth() >= 1,
                self@.len() <= start.len(),
                token.depth() <= start.len() ==> self@.len() >= token.depth() - 1,
                self@ == start.take(self@.len() as int),
                token.depth() > start.len() ==> self@ == start,
            decreases self.stack.len(),
        {
            self.stack.pop();
        }
        assert(self@ =~= start.take(self@.len() as int));
    }
}

/// Popping the token of a push gives back the stack as it was before the
/// push, whatever was pushed above it since.
pub proof fn lemma_pop_undoes_push<R>(before: Seq<R>, rect: R, later: Seq<R>)
    ensures
        ({
            let pushed = before.push(rect);
            let depth = pushed.len();
            (pushed + later).take(depth - 1) == before
        }),
{
    assert((before.push(rect) + later).take(before.len() as int) =~= before);
}

} // verus!
