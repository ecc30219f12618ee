//! Trusted boundary around the outside bitmap that records free frames.
//!
//! The free-space store is `bitmap_allocator::BitAlloc1M`, a segment tree of
//! bitmaps in which a set bit means "this index is available". Verus never
//! looks inside it: `free_of` names the set of available indices, and each
//! wrapper below states, over that name, what the crate's code does.

use vstd::prelude::*;
use bitmap_allocator::{BitAlloc, BitAlloc1M};

verus! {

use vstd::set_lib::set_int_range;

/// Total number of indices the bitmap can track: `BitAlloc1M::CAP`,
/// a 1 M-bit segment tree (16 bits fanned out over five cascade levels).
pub const BITMAP_CAPACITY: usize = 0x10_0000;

/// Owns the outside bitmap. Verus cannot declare `BitAlloc1M` itself (its
/// cascade levels are generic over the crate's own trait), so the value is
/// held opaquely here — boxed, since the whole segment tree is one large
/// inline array — and reached only through the wrappers below.
#[verifier::external_body]
pub struct FrameBitmap {
    inner: Box<BitAlloc1M>,
}

/// The set of indices the bitmap currently reports as free (available).
pub uninterp spec fn free_of(b: FrameBitmap) -> Set<int>;

/// The `num` consecutive indices starting at `t` all lie in `s`.
pub open spec fn run_free(s: Set<int>, t: int, num: int) -> bool {
    forall|k: int| t <= k < t + num ==> s.contains(k)
}

/// Relies on `BitAlloc1M::default()`: every bit starts unavailable,
/// so the fresh bitmap has no free index at all.
#[verifier::external_body]
pub(crate) fn bits_new() -> (b: FrameBitmap)
    ensures
        free_of(b) == Set::<int>::empty(),
{
    FrameBitmap { inner: Box::new(BitAlloc1M::default()) }
}

/// Relies on `BitAlloc::alloc` for `BitAllocCascade16`: each cascade level
/// follows the lowest set summary bit, so the call takes the lowest available
/// index out of the bitmap, and returns `None` exactly when none is available.
#[verifier::external_body]
pub(crate) fn bits_alloc(b: &mut FrameBitmap) -> (r: Option<usize>)
    ensures
        match r {
            Some(i) => {
                &&& free_of(*old(b)).contains(i as int)
                &&& forall|j: int| free_of(*old(b)).contains(j) ==> i as int <= j
                &&& free_of(*final(b)) == free_of(*old(b)).remove(i as int)
            },
            None => {
                &&& free_of(*old(b)).is_empty()
                &&& free_of(*final(b)) == free_of(*old(b))
            },
        },
{
    b.inner.alloc()
}

/// Relies on `BitAlloc::dealloc`: marks one index available again. The crate
/// asserts the bit is currently unavailable and indexes by `key`, so the
/// contract demands an allocated, in-range key.
#[verifier::external_body]
pub(crate) fn bits_dealloc(b: &mut FrameBitmap, key: usize)
    requires
        key < BITMAP_CAPACITY,
        !free_of(*old(b)).contains(key as int),
    ensures
        free_of(*final(b)) == free_of(*old(b)).insert(key as int),
{
    b.inner.dealloc(key)
}

/// Relies on `BitAlloc::test`: reports whether the bit at `key` is available.
#[verifier::external_body]
pub(crate) fn bits_test(b: &FrameBitmap, key: usize) -> (r: bool)
    requires
        key < BITMAP_CAPACITY,
    ensures
        r == free_of(*b).contains(key as int),
{
    b.inner.test(key)
}

/// Relies on `BitAlloc::insert`: marks every index in `start..end` available,
/// whatever its previous state. The crate asserts `start <= end <= CAP` and
/// steps down from `end - 1`, so the contract demands a nonempty in-range span.
#[verifier::external_body]
pub(crate) fn bits_insert(b: &mut FrameBitmap, start: usize, end: usize)
    requires
        start < end,
        end <= BITMAP_CAPACITY,
    ensures
        free_of(*final(b)) == free_of(*old(b)).union(set_int_range(start as int, end as int)),
{
    b.inner.insert(start..end)
}

/// Relies on `BitAlloc::alloc_contiguous` with alignment 0: a first-fit scan
/// over every candidate base from the bottom up, so on `None` no run of `num`
/// consecutive available indices exists anywhere; on `Some(s)` the run
/// `s..s + num` was available at the lowest possible base and is marked
/// unavailable, and nothing else changes.
#[verifier::external_body]
pub(crate) fn bits_alloc_contiguous(b: &mut FrameBitmap, num: usize) -> (r: Option<usize>)
    requires
        1 <= num,
    ensures
        match r {
            Some(s) => {
                &&& s as int + num as int <= BITMAP_CAPACITY
                &&& run_free(free_of(*old(b)), s as int, num as int)
                &&& forall|t: int| 0 <= t < s as int ==> !run_free(free_of(*old(b)), t, num as int)
                &&& free_of(*final(b)) == free_of(*old(b)).difference(
                    set_int_range(s as int, s as int + num as int),
                )
            },
            None => {
                &&& free_of(*final(b)) == free_of(*old(b))
                &&& forall|t: int|
                    0 <= t && t + num as int <= BITMAP_CAPACITY
                        ==> !run_free(free_of(*old(b)), t, num as int)
            },
        },
{
    b.inner.alloc_contiguous(num, 0)
}

} // verus!
