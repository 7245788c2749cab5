//! Shared application state handed to widget callbacks.
use vstd::prelude::*;
use std::sync::{Arc, Mutex};
use crate::sync_ops::{mutex_new, mutex_read_with, mutex_write_with};

verus! {

/// Application state behind an `Arc<Mutex<_>>`, with helpers that make
/// callbacks over it.
#[verifier::reject_recursive_types(S)]
pub struct UiController<S> {
    pub state: Arc<Mutex<S>>,
}

/// A callback over a controller's state: each `run` applies `f` to the
/// state under the lock. Callbacks are `Copy + 'static`, so they hold no
/// handle that could take the lock again.
#[verifier::reject_recursive_types(S)]
pub struct UiAction<S, F> {
    pub state: Arc<Mutex<S>>,
    pub f: F,
}

impl<S, F: Fn(&mut S) + Copy + 'static> UiAction<S, F> {
    /// Applies the callback once; does nothing when the lock is poisoned.
    pub fn run(&mut self)
        requires
            forall|s: &mut S| #[trigger] old(self).f.requires((s,)),
        ensures
            final(self).state == old(self).state,
    {
        let _ = mutex_write_with(&*self.state, self.f);
    }
}

impl<S: Send + Sync + 'static> UiController<S> {
    pub fn new(state: S) -> Self {
        UiController { state: Arc::new(mutex_new(state)) }
    }

    /// A callback that shares this controller's state.
    pub fn action<F>(&self, f: F) -> (r: UiAction<S, F>)
        where
            F: Fn(&mut S) + Copy + Send + Sync + 'static,
        ensures
            r.state == self.state,
            r.f == f,
    {
        UiAction { state: Arc::clone(&self.state), f }
    }

    /// Another handle on the same state.
    pub fn handle(&self) -> (r: Arc<Mutex<S>>)
        ensures
            r == self.state,
    {
        Arc::clone(&self.state)
    }

    /// Runs `f` on the state; `None` when the lock is poisoned, otherwise
    /// what `f` returned for the state the lock held. `f` captures nothing
    /// that could take this lock again.
    pub fn read<R, F: FnOnce(&S) -> R + Copy + 'static>(&self, f: F) -> (r: Option<R>)
        requires
            forall|v: &S| #[trigger] f.requires((v,)),
        ensures
            r matches Some(x) ==> exists|v: &S| #[trigger] f.ensures((v,), x),
    {
        mutex_read_with(&*self.state, f)
    }
}

} // verus!
