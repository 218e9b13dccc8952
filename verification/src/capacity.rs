//! The two operations on a vector's allocation that the index and the item
//! list rely on. How much a vector has allocated is up to the allocator, so
//! these only state what the documentation of `Vec` guarantees for every
//! outcome.

use vstd::prelude::*;

verus! {

/// Calls `Vec::capacity`. Its documentation guarantees that the capacity is at
/// least the length, and that a vector of non-zero-sized elements never
/// allocates more than `isize::MAX` bytes. The exact value depends on the
/// allocator and is not stated.
#[verifier::external_body]
pub(crate) fn vec_capacity<T>(v: &Vec<T>) -> (capacity: usize)
    ensures
        capacity >= v@.len(),
        capacity * vstd::layout::size_of::<T>() <= isize::MAX,
{
    v.capacity()
}

/// Calls `Vec::reserve_exact`. Its documentation says that the contents stay
/// as they are and that the capacity becomes at least `len + additional`
/// (which capacity exactly is the allocator's choice and is not stated). It
/// panics when the new capacity would overflow `usize` or exceed
/// `isize::MAX` bytes, so a request that could grow the vector must keep
/// `len + additional` elements within both bounds.
#[verifier::external_body]
pub(crate) fn vec_reserve_exact<T>(v: &mut Vec<T>, additional: usize)
    requires
        additional == 0 || (old(v)@.len() + additional <= usize::MAX && (old(v)@.len() + additional)
            * vstd::layout::size_of::<T>() <= isize::MAX),
    ensures
        final(v)@ == old(v)@,
{
    v.reserve_exact(additional)
}

} // verus!
