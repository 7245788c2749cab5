//! Trusted wrappers over the standard library's growable buffers: the
//! operations whose effect on capacity vstd leaves unspecified.
//!
//! Capacity is what the allocator hands back, so none of these items gives it
//! a name: each states only what the documentation of the wrapped function
//! promises for every outcome.
use vstd::prelude::*;

verus! {

/// `Vec::capacity`. The documentation promises that a vector can hold at
/// least its length, so the result is never below the length.
#[verifier::external_body]
pub(crate) fn vec_capacity<T>(v: &Vec<T>) -> (c: usize)
    ensures
        c >= v@.len(),
{
    v.capacity()
}

/// `Vec::reserve_exact`. The elements stay as they were; the capacity is
/// unspecified beyond what `vec_capacity` states. The wrapped call panics when
/// the new capacity overflows `usize` (possible even for zero-sized items) or
/// would exceed `isize::MAX` bytes, which `requires` rules out.
#[verifier::external_body]
pub(crate) fn vec_reserve_exact<T>(v: &mut Vec<T>, additional: usize)
    requires
        old(v)@.len() + additional <= usize::MAX,
        (old(v)@.len() + additional) * vstd::layout::size_of::<T>() <= isize::MAX,
    ensures
        final(v)@ == old(v)@,
{
    v.reserve_exact(additional)
}

/// `String::with_capacity`: an empty string. The wrapped call panics when
/// `capacity` exceeds `isize::MAX`, which `requires` rules out.
#[verifier::external_body]
pub(crate) fn string_with_capacity(capacity: usize) -> (s: String)
    requires
        capacity <= isize::MAX,
    ensures
        s@ == Seq::<char>::empty(),
{
    String::with_capacity(capacity)
}

/// `String::clear`: the text becomes empty.
#[verifier::external_body]
pub(crate) fn string_clear(s: &mut String)
    ensures
        final(s)@ == Seq::<char>::empty(),
{
    s.clear()
}

/// `String::push`: `c` is appended.
#[verifier::external_body]
pub(crate) fn string_push(s: &mut String, c: char)
    ensures
        final(s)@ == old(s)@.push(c),
{
    s.push(c)
}

/// `String::capacity`: never below the byte length of the text.
#[verifier::external_body]
pub(crate) fn string_capacity(s: &String) -> (c: usize)
    ensures
        c >= vstd::utf8::encode_utf8(s@).len(),
{
    s.capacity()
}

/// `String::reserve`: the text stays as it was.
#[verifier::external_body]
pub(crate) fn string_reserve(s: &mut String, additional: usize)
    requires
        vstd::utf8::encode_utf8(old(s)@).len() + additional <= isize::MAX,
    ensures
        final(s)@ == old(s)@,
{
    s.reserve(additional)
}


/// `VecDeque::capacity`: never below the number of queued items.
#[verifier::external_body]
pub(crate) fn deque_capacity<T>(q: &std::collections::VecDeque<T>) -> (c: usize)
    ensures
        c >= q@.len(),
{
    q.capacity()
}

/// `VecDeque::shrink_to`: the queued items stay as they were; how far the
/// capacity shrinks is left to the allocator.
#[verifier::external_body]
pub(crate) fn deque_shrink_to<T>(q: &mut std::collections::VecDeque<T>, min_capacity: usize)
    ensures
        final(q)@ == old(q)@,
{
    q.shrink_to(min_capacity)
}


} // verus!
