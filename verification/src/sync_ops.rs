//! Trusted items over the standard library's locks. The contents of a lock
//! are shared with other threads, so no item here says what a lock holds: a
//! read may see any value another thread stored.
//!
//! std's `RwLock::read`/`write` may panic, and `Mutex::lock` never returns,
//! when the calling thread already holds the same lock. The only code that
//! runs while one of these items holds a lock is the caller's closure (and,
//! in `rw_read_clone`, the value's `clone`), so every closure parameter is
//! bounded by `Copy + 'static`: such a closure captures no handle on a lock,
//! and verified code has no static or leaked lock for it to reach, nor a type
//! that holds its own lock (locks reject recursive types). So a verified
//! caller never calls these items while holding the lock they take.
use vstd::prelude::*;
use std::sync::{Mutex, RwLock};

verus! {

/// `std::sync::RwLock`, carried through opaquely.
#[verifier::external_type_specification]
#[verifier::external_body]
#[verifier::reject_recursive_types(T)]
pub struct ExRwLock<T: ?Sized>(RwLock<T>);

/// `std::sync::Mutex`, carried through opaquely.
#[verifier::external_type_specification]
#[verifier::external_body]
#[verifier::reject_recursive_types(T)]
pub struct ExMutex<T: ?Sized>(Mutex<T>);

/// `RwLock::new`: a lock around `value`. Nothing is promised about what a
/// later read sees, since other threads may write in between.
#[verifier::external_body]
pub(crate) fn rw_new<V>(value: V) -> RwLock<V> {
    RwLock::new(value)
}

/// `RwLock::read`, cloning what it guards. `None` when the lock is poisoned;
/// what a read sees is left unsaid.
#[verifier::external_body]
pub(crate) fn rw_read_clone<V: Clone>(lock: &RwLock<V>) -> Option<V> {
    lock.read().ok().map(|guard| guard.clone())
}

/// `RwLock::write`, running the caller's `f` on the guarded value and
/// `arg`; `None`, without running `f`, when the lock is poisoned. What `f`
/// returned is left unsaid. `f` is `Copy + 'static` so that it cannot take
/// the same lock again, and `arg` is a value of the guarded type, which
/// (locks reject recursive types) holds no handle on this lock.
#[verifier::external_body]
pub(crate) fn rw_write_pass<V, R, F: FnOnce(&mut V, V) -> R + Copy + 'static>(
    lock: &RwLock<V>,
    arg: V,
    f: F,
) -> Option<R>
    requires
        forall|v: &mut V, a: V| #[trigger] f.requires((v, a)),
{
    match lock.write() {
        Ok(mut guard) => Some(f(&mut *guard, arg)),
        Err(_) => None,
    }
}

/// `RwLock::write`, running the caller's `f` on the guarded value; `false`
/// when the lock is poisoned and `f` did not run. `f` is `Copy + 'static`
/// so that it cannot take the same lock again (see the module notes).
#[verifier::external_body]
pub(crate) fn rw_write_with<V, F: FnOnce(&mut V) + Copy + 'static>(lock: &RwLock<V>, f: F) -> bool
    requires
        forall|v: &mut V| #[trigger] f.requires((v,)),
{
    match lock.write() {
        Ok(mut guard) => {
            f(&mut *guard);
            true
        },
        Err(_) => false,
    }
}

/// `Mutex::new`.
#[verifier::external_body]
pub(crate) fn mutex_new<V>(value: V) -> Mutex<V> {
    Mutex::new(value)
}

/// `Mutex::lock`, running the caller's `f` on the guarded value; `None`
/// when the lock is poisoned and `f` did not run. A `Some` holds what `f`
/// returned for the value the lock held, whichever that was. `f` is
/// `Copy + 'static` so that it cannot take the same lock again.
#[verifier::external_body]
pub(crate) fn mutex_read_with<V, R, F: FnOnce(&V) -> R + Copy + 'static>(lock: &Mutex<V>, f: F) -> (r: Option<R>)
    requires
        forall|v: &V| #[trigger] f.requires((v,)),
    ensures
        r matches Some(x) ==> exists|v: &V| #[trigger] f.ensures((v,), x),
{
    lock.lock().ok().map(|guard| f(&*guard))
}

/// `Mutex::lock`, running the caller's `f` on the guarded value mutably;
/// `None` when the lock is poisoned and `f` did not run. A `Some` holds what
/// `f` returned for the value the lock held, whichever that was. `f` is
/// `Copy + 'static` so that it cannot take the same lock again.
#[verifier::external_body]
pub(crate) fn mutex_write_with<V, R, F: FnOnce(&mut V) -> R + Copy + 'static>(lock: &Mutex<V>, f: F) -> (r: Option<R>)
    requires
        forall|v: &mut V| #[trigger] f.requires((v,)),
    ensures
        r matches Some(x) ==> exists|v: &mut V| #[trigger] f.ensures((v,), x),
{
    lock.lock().ok().map(|mut guard| f(&mut *guard))
}

} // verus!
