//! Typed signals shared between widgets and application code. A signal's
//! value lives in an atomic or a lock behind an `Arc`, so clones observe the
//! same value and a generation counter that moves on every change.
//!
//! Other threads may store into a signal at any time, so what a read returns
//! is not determined by this thread's calls; the contracts here state what
//! holds whatever another thread did.
use vstd::prelude::*;
use std::marker::PhantomData;
use std::sync::atomic::{AtomicBool, AtomicI32, AtomicU32, AtomicU64, Ordering};
use std::sync::{Arc, Mutex, RwLock};
use crate::sync_ops::{
    mutex_read_with, mutex_write_with, rw_new, rw_read_clone, rw_write_pass, rw_write_with,
};

verus! {

/// A typed handle on a binding.
#[derive(Debug, Copy, PartialEq, Eq, Hash)]
pub struct BindingId<T> {
    raw: u64,
    _marker: PhantomData<T>,
}

impl<T> Clone for BindingId<T> {
    fn clone(&self) -> (r: Self)
        ensures
            r.spec_raw() == self.spec_raw(),
    {
        BindingId { raw: self.raw, _marker: PhantomData }
    }
}

impl<T> BindingId<T> {
    pub closed spec fn spec_raw(self) -> u64 {
        self.raw
    }

    /// A handle with the given raw number.
    pub fn from_raw(raw: u64) -> (r: Self)
        ensures
            r.spec_raw() == raw,
    {
        BindingId { raw, _marker: PhantomData }
    }

    pub fn raw(self) -> (r: u64)
        ensures
            r == self.spec_raw(),
    {
        self.raw
    }
}

/// Hands out binding handles numbered from 1, shared across threads.
#[derive(Debug, Default)]
pub struct BindingIds {
    next: AtomicU64,
}

impl BindingIds {
    pub fn new() -> Self {
        BindingIds { next: AtomicU64::new(1) }
    }

    /// The next number; concurrent callers each get a distinct one until
    /// the counter wraps.
    pub fn allocate<T>(&self) -> BindingId<T> {
        BindingId { raw: self.next.fetch_add(1, Ordering::Relaxed), _marker: PhantomData }
    }
}

/// Bits of an `f32` that encode a finite number: the exponent field is not
/// all ones.
pub open spec fn finite_f32_bits(bits: u32) -> bool {
    (bits >> 23u32) & 0xffu32 != 0xffu32
}

/// The bits an `F32Signal` stores for `bits`: unchanged when finite, the
/// bits of `0.0` (all zero) for infinities and NaNs.
pub fn sanitize_f32_bits(bits: u32) -> (r: u32)
    ensures
        r == if finite_f32_bits(bits) { bits } else { 0u32 },
{
    if (bits >> 23u32) & 0xffu32 != 0xffu32 {
        bits
    } else {
        0u32
    }
}

/// Whether a store changed a `bool` signal: the value the swap gave back
/// differs from the one stored. The result, and whether the generation
/// advances, are this.
pub fn bool_changed(replaced: bool, stored: bool) -> (changed: bool)
    ensures
        changed == (replaced != stored),
{
    replaced != stored
}

/// Whether a store changed a `u32` signal (or an `f32` one, by its bits).
pub fn u32_changed(replaced: u32, stored: u32) -> (changed: bool)
    ensures
        changed == (replaced != stored),
{
    replaced != stored
}

/// Whether a store changed an `i32` signal.
pub fn i32_changed(replaced: i32, stored: i32) -> (changed: bool)
    ensures
        changed == (replaced != stored),
{
    replaced != stored
}

/// Whether a store changed a text signal: the text it replaced differs
/// from the one stored.
pub fn text_changed(replaced: &String, stored: &String) -> (changed: bool)
    ensures
        changed == (replaced@ != stored@),
{
    let same = replaced.eq(stored);
    !same
}

#[derive(Debug)]
struct BoolInner {
    value: AtomicBool,
    generation: AtomicU64,
}

/// A shared `bool` with a change counter.
#[derive(Clone)]
pub struct BoolSignal {
    inner: Arc<BoolInner>,
}

impl BoolSignal {
    /// A signal holding `value`, generation 1.
    pub fn new(value: bool) -> Self {
        BoolSignal {
            inner: Arc::new(BoolInner { value: AtomicBool::new(value), generation: AtomicU64::new(1) }),
        }
    }

    pub fn get(&self) -> bool {
        self.inner.value.load(Ordering::Relaxed)
    }

    /// Stores `value`; when it differs from the value it replaced the
    /// generation advances and the result is true.
    pub fn set(&self, value: bool) -> bool {
        let old = self.inner.value.swap(value, Ordering::Relaxed);
        let changed = bool_changed(old, value);
        if changed {
            self.inner.generation.fetch_add(1, Ordering::Relaxed);
        }
        changed
    }

    /// Stores the negation of the value read, and returns what was stored.
    pub fn toggle(&self) -> bool {
        let next = !self.get();
        self.set(next);
        next
    }

    pub fn generation(&self) -> u64 {
        self.inner.generation.load(Ordering::Relaxed)
    }
}

#[derive(Debug)]
struct F32Inner {
    bits: AtomicU32,
    generation: AtomicU64,
}

/// A shared `f32`, held as its bits; non-finite values are stored as `0.0`.
#[derive(Clone)]
pub struct F32Signal {
    inner: Arc<F32Inner>,
}

impl F32Signal {
    /// A signal holding the `f32` with these bits, generation 1.
    pub fn from_bits(bits: u32) -> Self {
        F32Signal {
            inner: Arc::new(F32Inner { bits: AtomicU32::new(bits), generation: AtomicU64::new(1) }),
        }
    }

    pub fn get_bits(&self) -> u32 {
        self.inner.bits.load(Ordering::Relaxed)
    }

    /// Stores `sanitize_f32_bits(bits)`; when that differs from the bits it
    /// replaced the generation advances and the result is true.
    pub fn set_bits(&self, bits: u32) -> bool {
        let bits = sanitize_f32_bits(bits);
        let old = self.inner.bits.swap(bits, Ordering::Relaxed);
        let changed = u32_changed(old, bits);
        if changed {
            self.inner.generation.fetch_add(1, Ordering::Relaxed);
        }
        changed
    }

    pub fn generation(&self) -> u64 {
        self.inner.generation.load(Ordering::Relaxed)
    }
}

/// `value` clamped into `[min, max]`.
pub fn clamp_i32(value: i32, min: i32, max: i32) -> (r: i32)
    requires
        min <= max,
    ensures
        r == if value < min { min } else if value > max { max } else { value },
{
    if value < min {
        min
    } else if value > max {
        max
    } else {
        value
    }
}

/// `value` clamped into `[min, max]`.
pub fn clamp_u32(value: u32, min: u32, max: u32) -> (r: u32)
    requires
        min <= max,
    ensures
        r == if value < min { min } else if value > max { max } else { value },
{
    if value < min {
        min
    } else if value > max {
        max
    } else {
        value
    }
}

#[derive(Debug)]
struct I32Inner {
    value: AtomicI32,
    generation: AtomicU64,
}

/// A shared `i32` with a change counter.
#[derive(Clone)]
pub struct I32Signal {
    inner: Arc<I32Inner>,
}

impl I32Signal {
    pub fn new(value: i32) -> Self {
        I32Signal {
            inner: Arc::new(I32Inner { value: AtomicI32::new(value), generation: AtomicU64::new(1) }),
        }
    }

    pub fn get(&self) -> i32 {
        self.inner.value.load(Ordering::Relaxed)
    }

    /// Stores `value`; when it differs from the value it replaced the
    /// generation advances and the result is true.
    pub fn set(&self, value: i32) -> bool {
        let old = self.inner.value.swap(value, Ordering::Relaxed);
        let changed = i32_changed(old, value);
        if changed {
            self.inner.generation.fetch_add(1, Ordering::Relaxed);
        }
        changed
    }

    /// Stores `clamp_i32(value, min, max)` as `set` does.
    pub fn set_clamped(&self, value: i32, min: i32, max: i32) -> bool
        requires
            min <= max,
    {
        self.set(clamp_i32(value, min, max))
    }

    pub fn generation(&self) -> u64 {
        self.inner.generation.load(Ordering::Relaxed)
    }
}

#[derive(Debug)]
struct U32Inner {
    value: AtomicU32,
    generation: AtomicU64,
}

/// A shared `u32` with a change counter.
#[derive(Clone)]
pub struct U32Signal {
    inner: Arc<U32Inner>,
}

impl U32Signal {
    pub fn new(value: u32) -> Self {
        U32Signal {
            inner: Arc::new(U32Inner { value: AtomicU32::new(value), generation: AtomicU64::new(1) }),
        }
    }

    pub fn get(&self) -> u32 {
        self.inner.value.load(Ordering::Relaxed)
    }

    /// Stores `value`; when it differs from the value it replaced the
    /// generation advances and the result is true.
    pub fn set(&self, value: u32) -> bool {
        let old = self.inner.value.swap(value, Ordering::Relaxed);
        let changed = u32_changed(old, value);
        if changed {
            self.inner.generation.fetch_add(1, Ordering::Relaxed);
        }
        changed
    }

    /// Stores `clamp_u32(value, min, max)` as `set` does.
    pub fn set_clamped(&self, value: u32, min: u32, max: u32) -> bool
        requires
            min <= max,
    {
        self.set(clamp_u32(value, min, max))
    }

    pub fn generation(&self) -> u64 {
        self.inner.generation.load(Ordering::Relaxed)
    }
}

#[derive(Debug)]
struct TextInner {
    value: RwLock<String>,
    generation: AtomicU64,
}

/// A shared `String` with a change counter.
#[derive(Clone)]
pub struct TextSignal {
    inner: Arc<TextInner>,
}

impl TextSignal {
    pub fn new(value: String) -> Self {
        TextSignal {
            inner: Arc::new(TextInner { value: rw_new(value), generation: AtomicU64::new(1) }),
        }
    }

    /// The text, or an empty string when the lock is poisoned.
    pub fn get(&self) -> String {
        match rw_read_clone(&self.inner.value) {
            Some(text) => text,
            None => String::new(),
        }
    }

    /// Runs `f` on the text; `None` when the lock is poisoned, otherwise
    /// what `f` returned for the text the signal held.
    pub fn read<R, F: FnOnce(&str) -> R>(&self, f: F) -> (r: Option<R>)
        requires
            forall|s: &str| #[trigger] f.requires((s,)),
        ensures
            r matches Some(x) ==> returned_for_some_text(f, x),
    {
        match rw_read_clone(&self.inner.value) {
            Some(text) => {
                let s = text.as_str();
                let x = f(s);
                assert(f.ensures((s,), x));
                assert(returned_for_some_text(f, x));
                Some(x)
            },
            None => None,
        }
    }

    /// Stores `value`; when it differs from the text it replaced the
    /// generation advances and the result is true.
    pub fn set(&self, value: String) -> bool {
        let probe = value.clone();
        match rw_write_pass(&self.inner.value, value, |v: &mut String, x: String| -> String {
            let mut x = x;
            std::mem::swap(v, &mut x);
            x
        }) {
            Some(old) => {
                let changed = text_changed(&old, &probe);
                if changed {
                    self.inner.generation.fetch_add(1, Ordering::Relaxed);
                }
                changed
            },
            None => false,
        }
    }

    pub fn generation(&self) -> u64 {
        self.inner.generation.load(Ordering::Relaxed)
    }
}

/// `x` is a result `f` can give for some text.
pub open spec fn returned_for_some_text<R, F: FnOnce(&str) -> R>(f: F, x: R) -> bool {
    exists|s: &str| #[trigger] f.ensures((s,), x)
}

#[verifier::reject_recursive_types(T)]
#[derive(Debug)]
struct SelectionInner<T> {
    value: RwLock<Option<T>>,
    generation: AtomicU64,
}

/// A shared optional selection with a change counter.
#[verifier::reject_recursive_types(T)]
#[derive(Clone)]
pub struct SelectionSignal<T> {
    inner: Arc<SelectionInner<T>>,
}

impl<T: Clone> SelectionSignal<T> {
    pub fn new(value: Option<T>) -> Self {
        SelectionSignal {
            inner: Arc::new(SelectionInner { value: rw_new(value), generation: AtomicU64::new(1) }),
        }
    }

    /// The selection, or `None` when the lock is poisoned.
    pub fn get(&self) -> Option<T> {
        match rw_read_clone(&self.inner.value) {
            Some(value) => value,
            None => None,
        }
    }

    /// Stores `value` and advances the generation; false only when the lock
    /// is poisoned.
    pub fn set(&self, value: Option<T>) -> bool {
        match rw_write_pass(&self.inner.value, value, |v: &mut Option<T>, x: Option<T>| -> Option<T> {
            let mut x = x;
            std::mem::swap(v, &mut x);
            x
        }) {
            Some(_) => {
                self.inner.generation.fetch_add(1, Ordering::Relaxed);
                true
            },
            None => false,
        }
    }

    /// `set(None)`.
    pub fn clear(&self) -> bool {
        self.set(None)
    }

    pub fn generation(&self) -> u64 {
        self.inner.generation.load(Ordering::Relaxed)
    }
}

#[verifier::reject_recursive_types(T)]
#[derive(Debug)]
struct VecInner<T> {
    value: RwLock<Vec<T>>,
    generation: AtomicU64,
}

/// A shared list with a change counter.
#[verifier::reject_recursive_types(T)]
#[derive(Clone)]
pub struct VecSignal<T> {
    inner: Arc<VecInner<T>>,
}

impl<T: Clone> VecSignal<T> {
    pub fn new(value: Vec<T>) -> Self {
        VecSignal { inner: Arc::new(VecInner { value: rw_new(value), generation: AtomicU64::new(1) }) }
    }

    /// The list, or an empty list when the lock is poisoned.
    pub fn get(&self) -> Vec<T> {
        match rw_read_clone(&self.inner.value) {
            Some(value) => value,
            None => Vec::new(),
        }
    }

    /// Stores `value` and advances the generation; false only when the lock
    /// is poisoned.
    pub fn replace(&self, value: Vec<T>) -> bool {
        match rw_write_pass(&self.inner.value, value, |v: &mut Vec<T>, x: Vec<T>| -> Vec<T> {
            let mut x = x;
            std::mem::swap(v, &mut x);
            x
        }) {
            Some(_) => {
                self.inner.generation.fetch_add(1, Ordering::Relaxed);
                true
            },
            None => false,
        }
    }

    /// Runs `f` on the list under the write lock and advances the
    /// generation; false only when the lock is poisoned. `f` captures
    /// nothing that could take this signal's lock again.
    pub fn mutate<F: FnOnce(&mut Vec<T>) + Copy + 'static>(&self, f: F) -> bool
        requires
            forall|v: &mut Vec<T>| #[trigger] f.requires((v,)),
    {
        if rw_write_with(&self.inner.value, f) {
            self.inner.generation.fetch_add(1, Ordering::Relaxed);
            true
        } else {
            false
        }
    }

    pub fn generation(&self) -> u64 {
        self.inner.generation.load(Ordering::Relaxed)
    }
}

/// A binding onto application state behind an `Arc<Mutex<_>>`.
#[verifier::reject_recursive_types(T)]
#[derive(Clone)]
pub struct LegacyMutexBinding<T> {
    target: Arc<Mutex<T>>,
}

impl<T> LegacyMutexBinding<T> {
    pub fn new(target: Arc<Mutex<T>>) -> (r: Self)
        ensures
            r.spec_target() == target,
    {
        LegacyMutexBinding { target }
    }

    pub closed spec fn spec_target(&self) -> Arc<Mutex<T>> {
        self.target
    }

    /// Runs `f` on the state; `None` when the lock is poisoned, otherwise
    /// what `f` returned for the state the lock held. `f` captures nothing
    /// that could take this lock again.
    pub fn read<R, F: FnOnce(&T) -> R + Copy + 'static>(&self, f: F) -> (r: Option<R>)
        requires
            forall|v: &T| #[trigger] f.requires((v,)),
        ensures
            r matches Some(x) ==> exists|v: &T| #[trigger] f.ensures((v,), x),
    {
        mutex_read_with(&*self.target, f)
    }

    /// Runs `f` on the state mutably; `None` when the lock is poisoned,
    /// otherwise what `f` returned for the state the lock held. `f` captures
    /// nothing that could take this lock again.
    pub fn write<R, F: FnOnce(&mut T) -> R + Copy + 'static>(&self, f: F) -> (r: Option<R>)
        requires
            forall|v: &mut T| #[trigger] f.requires((v,)),
        ensures
            r matches Some(x) ==> exists|v: &mut T| #[trigger] f.ensures((v,), x),
    {
        mutex_write_with(&*self.target, f)
    }

    pub fn raw(&self) -> (r: &Arc<Mutex<T>>)
        ensures
            *r == self.spec_target(),
    {
        &self.target
    }
}

} // verus!
