//! The frame allocator: address translation, the free-space tracker with its
//! invariant, single-frame and bulk allocation with owned handles, and the
//! raw contiguous-run interface for a lower-level heap allocator.

use vstd::prelude::*;

verus! {

use vstd::set_lib::set_int_range;
use crate::bitmap::{
    FrameBitmap,
    bits_alloc, bits_alloc_contiguous, bits_dealloc, bits_insert, bits_new, bits_test, free_of,
    run_free, BITMAP_CAPACITY,
};

/// Size of one physical frame in bytes.
pub const FRAME_SIZE: usize = 4096;

/// Physical address of the first byte of the frame with this index,
/// counting from the base address (the first byte above the kernel image).
pub open spec fn addr_of_index(index: int, base: int) -> int {
    index * FRAME_SIZE + base
}

/// Index of the frame that holds this physical address.
pub open spec fn index_of_addr(addr: int, base: int) -> int {
    (addr - base) / (FRAME_SIZE as int)
}

/// An owned handle for exactly one allocated frame. Releasing it through
/// [`release_frame`] is the sanctioned way to return the frame.
#[derive(Debug)]
pub struct FrameTracker {
    pub id: usize,
}

impl FrameTracker {
    pub fn new(id: usize) -> (f: FrameTracker)
        ensures
            f.id == id,
    {
        FrameTracker { id }
    }

    /// First physical address of the owned frame.
    pub fn start(&self, base: usize) -> (addr: usize)
        requires
            self.id * FRAME_SIZE + base <= usize::MAX,
        ensures
            addr == addr_of_index(self.id as int, base as int),
    {
        frame_to_addr(self.id, base)
    }

    /// One past the last physical address of the owned frame.
    pub fn end(&self, base: usize) -> (addr: usize)
        requires
            self.id * FRAME_SIZE + base + FRAME_SIZE <= usize::MAX,
        ensures
            addr == addr_of_index(self.id as int, base as int) + FRAME_SIZE,
    {
        let start = self.start(base);
        start + FRAME_SIZE
    }
}

/// Maps a frame index to the physical address of its first byte.
pub fn frame_to_addr(index: usize, base: usize) -> (addr: usize)
    requires
        index * FRAME_SIZE + base <= usize::MAX,
    ensures
        addr == addr_of_index(index as int, base as int),
{
    index * FRAME_SIZE + base
}

/// Rebuilds a handle from a raw physical address. The tracker's records are
/// not consulted: the caller alone answers for not duplicating a live claim.
pub fn addr_to_frame(addr: usize, base: usize) -> (f: FrameTracker)
    requires
        base <= addr,
    ensures
        f.id == index_of_addr(addr as int, base as int),
{
    FrameTracker::new((addr - base) / FRAME_SIZE)
}

/// The free-space tracker: a bitmap of frame states together with the fixed
/// frame count and the base address the index space is measured from.
pub struct FrameAllocator {
    /// The bitmap of frame states; reached only through the trusted wrappers.
    pub bits: FrameBitmap,
    /// First usable physical address, immediately above the kernel image.
    pub base: usize,
    /// Number of frames under management; valid indices are `0..frame_count`.
    pub frame_count: usize,
}

impl FrameAllocator {
    /// The set of frame indices currently free.
    pub closed spec fn free(self) -> Set<int> {
        free_of(self.bits)
    }

    /// Every tracked state the operations rely on and preserve: the free set
    /// is a finite subset of the valid index range, the range fits the
    /// bitmap's capacity, and every valid frame address fits in `usize`.
    pub open spec fn wf(self) -> bool {
        &&& self.free().finite()
        &&& forall|i: int| self.free().contains(i) ==> 0 <= i < self.frame_count
        &&& self.frame_count <= BITMAP_CAPACITY
        &&& self.frame_count * FRAME_SIZE + self.base <= usize::MAX
    }
}

/// Builds the allocator for the physical memory between `image_end` and
/// `memory_end`: frames are counted from the base `image_end`, and every
/// computed index starts out free.
pub fn init_frame_allocator(image_end: usize, memory_end: usize) -> (a: FrameAllocator)
    requires
        image_end <= memory_end,
        memory_end <= usize::MAX - FRAME_SIZE + 1,
        memory_end / FRAME_SIZE - image_end / FRAME_SIZE <= BITMAP_CAPACITY,
    ensures
        a.wf(),
        a.base == image_end,
        a.frame_count == memory_end / FRAME_SIZE - image_end / FRAME_SIZE,
        a.free() == set_int_range(0, a.frame_count as int),
{
    let page_start = image_end / FRAME_SIZE;
    let page_end = memory_end / FRAME_SIZE;
    let page_count = page_end - page_start;
    let mut bits = bits_new();
    if page_count > 0 {
        bits_insert(&mut bits, 0, page_count);
    }
    proof {
        assert(free_of(bits) =~= set_int_range(0, page_count as int));
        vstd::set_lib::lemma_int_range(0, page_count as int);
        assert(page_count * FRAME_SIZE + image_end <= usize::MAX) by {
            lemma_frame_range_fits(image_end as int, memory_end as int);
        }
    }
    FrameAllocator { bits, base: image_end, frame_count: page_count }
}

/// Allocates the lowest-indexed free frame and hands out the owned handle for
/// it, or returns `None` exactly when no frame is free (exhaustion, not an
/// error). The frame leaves the free set and nothing else changes.
pub fn frame_alloc(a: &mut FrameAllocator) -> (r: Option<FrameTracker>)
    requires
        old(a).wf(),
    ensures
        final(a).wf(),
        final(a).base == old(a).base,
        final(a).frame_count == old(a).frame_count,
        match r {
            Some(f) => {
                &&& old(a).free().contains(f.id as int)
                &&& forall|j: int| old(a).free().contains(j) ==> f.id as int <= j
                &&& f.id < old(a).frame_count
                &&& final(a).free() == old(a).free().remove(f.id as int)
            },
            None => {
                &&& old(a).free().is_empty()
                &&& final(a).free() == old(a).free()
            },
        },
{
    match bits_alloc(&mut a.bits) {
        Some(id) => Some(FrameTracker::new(id)),
        None => None,
    }
}

/// Returns one frame to the tracker, consuming its handle. A `true` result is
/// a completed release; `false` reports corruption of the ownership model (the
/// frame was already free — a double free), the tracker is left untouched, and
/// the caller must halt rather than keep running with two owners of one frame.
pub fn release_frame(a: &mut FrameAllocator, frame: FrameTracker) -> (ok: bool)
    requires
        old(a).wf(),
        frame.id < old(a).frame_count,
    ensures
        final(a).wf(),
        final(a).base == old(a).base,
        final(a).frame_count == old(a).frame_count,
        ok == !old(a).free().contains(frame.id as int),
        ok ==> final(a).free() == old(a).free().insert(frame.id as int),
        !ok ==> final(a).free() == old(a).free(),
{
    if bits_test(&a.bits, frame.id) {
        false
    } else {
        bits_dealloc(&mut a.bits, frame.id);
        true
    }
}

/// Reports whether the frame with this index is currently free.
pub fn is_frame_free(a: &FrameAllocator, id: usize) -> (r: bool)
    requires
        a.wf(),
        id < a.frame_count,
    ensures
        r == a.free().contains(id as int),
{
    bits_test(&a.bits, id)
}

/// Allocates `num` physically contiguous frames for the lower-level heap
/// allocator and returns the base address of the run, bypassing the handle
/// model: the caller keeps its own records. Returns `None` exactly when no
/// run of `num` consecutive free frames exists; the tracker is then unchanged.
pub fn alloc_frames(a: &mut FrameAllocator, num: usize) -> (r: Option<usize>)
    requires
        old(a).wf(),
        1 <= num,
    ensures
        final(a).wf(),
        final(a).base == old(a).base,
        final(a).frame_count == old(a).frame_count,
        match r {
            Some(addr) => {
                &&& old(a).base <= addr
                &&& (addr - old(a).base) % (FRAME_SIZE as int) == 0
                &&& addr == addr_of_index(index_of_addr(addr as int, old(a).base as int), old(a).base as int)
                &&& index_of_addr(addr as int, old(a).base as int) + num <= old(a).frame_count
                &&& run_free(old(a).free(), index_of_addr(addr as int, old(a).base as int), num as int)
                &&& forall|t: int|
                    0 <= t < index_of_addr(addr as int, old(a).base as int)
                        ==> !run_free(old(a).free(), t, num as int)
                &&& final(a).free() == old(a).free().difference(
                    set_int_range(
                        index_of_addr(addr as int, old(a).base as int),
                        index_of_addr(addr as int, old(a).base as int) + num,
                    ),
                )
            },
            None => {
                &&& final(a).free() == old(a).free()
                &&& forall|t: int|
                    0 <= t && t + num <= old(a).frame_count ==> !run_free(old(a).free(), t, num as int)
            },
        },
{
    match bits_alloc_contiguous(&mut a.bits, num) {
        Some(start) => {
            proof {
                assert(old(a).free().contains(start as int));
                assert(start < old(a).frame_count);
                assert(old(a).free().contains(start as int + num as int - 1));
                assert(start as int + num as int <= old(a).frame_count);
                crate::laws::lemma_index_round_trip(start as int, a.base as int);
                vstd::arithmetic::div_mod::lemma_mod_multiples_basic(
                    start as int,
                    FRAME_SIZE as int,
                );
            }
            let addr = frame_to_addr(start, a.base);
            proof {
                assert((addr - a.base) % (FRAME_SIZE as int) == 0);
                assert(index_of_addr(addr as int, a.base as int) == start as int);
            }
            Some(addr)
        },
        None => None,
    }
}

/// Marks the `num` frames starting at `addr` free again, converting the
/// address back to an index first. This is the unchecked half of the
/// contiguous interface: the tracker takes the caller's address and count on
/// trust and records no cross-check against prior allocations.
pub fn free_frames(a: &mut FrameAllocator, addr: usize, num: usize)
    requires
        old(a).wf(),
        old(a).base <= addr,
        (addr - old(a).base) % (FRAME_SIZE as int) == 0,
        index_of_addr(addr as int, old(a).base as int) + num <= old(a).frame_count,
    ensures
        final(a).wf(),
        final(a).base == old(a).base,
        final(a).frame_count == old(a).frame_count,
        final(a).free() == old(a).free().union(
            set_int_range(
                index_of_addr(addr as int, old(a).base as int),
                index_of_addr(addr as int, old(a).base as int) + num,
            ),
        ),
{
    let start = (addr - a.base) / FRAME_SIZE;
    if num > 0 {
        bits_insert(&mut a.bits, start, start + num);
        proof {
            vstd::set_lib::lemma_int_range(start as int, start as int + num as int);
        }
    } else {
        proof {
            assert(old(a).free() =~= old(a).free().union(
                set_int_range(start as int, start as int),
            ));
        }
    }
}

/// The set of frame indices owned by the handles in `s`.
pub open spec fn handle_ids(s: Seq<FrameTracker>) -> Set<int> {
    Set::new(|i: int| exists|k: int| 0 <= k < s.len() && s[k].id == i)
}

/// No two handles in `s` own the same frame index.
pub open spec fn distinct_handles(s: Seq<FrameTracker>) -> bool {
    forall|k1: int, k2: int| 0 <= k1 < k2 < s.len() ==> s[k1].id != s[k2].id
}

/// Appending a handle adds exactly its index to the owned set.
proof fn lemma_handle_ids_push(s: Seq<FrameTracker>, f: FrameTracker)
    ensures
        handle_ids(s.push(f)) == handle_ids(s).insert(f.id as int),
{
    assert forall|i: int| handle_ids(s.push(f)).contains(i) implies handle_ids(s).insert(
        f.id as int,
    ).contains(i) by {
        let k = choose|k: int| 0 <= k < s.push(f).len() && s.push(f)[k].id == i;
        if k < s.len() {
            assert(s[k].id == i);
        }
    }
    assert forall|i: int| handle_ids(s).insert(f.id as int).contains(i) implies handle_ids(
        s.push(f),
    ).contains(i) by {
        if i == f.id as int {
            assert(s.push(f)[s.len() as int].id == i);
        } else {
            let k = choose|k: int| 0 <= k < s.len() && s[k].id == i;
            assert(s.push(f)[k].id == i);
        }
    }
    assert(handle_ids(s.push(f)) =~= handle_ids(s).insert(f.id as int));
}

/// Bulk allocation, all-or-nothing: collects `count` single-frame handles. If
/// the tracker runs out before `count` is reached, every handle acquired
/// during the attempt is released again, the free set is exactly as before,
/// and the result is `None`; exhaustion leaves no partial allocation behind.
pub fn frames_alloc(a: &mut FrameAllocator, count: usize) -> (r: Option<Vec<FrameTracker>>)
    requires
        old(a).wf(),
    ensures
        final(a).wf(),
        final(a).base == old(a).base,
        final(a).frame_count == old(a).frame_count,
        match r {
            Some(v) => {
                &&& old(a).free().len() >= count
                &&& v.len() == count
                &&& forall|k: int| 0 <= k < count ==> old(a).free().contains(v[k].id as int)
                &&& distinct_handles(v@)
                &&& forall|k1: int, k2: int| 0 <= k1 < k2 < count ==> v[k1].id < v[k2].id
                &&& forall|k: int, j: int|
                    0 <= k < count && final(a).free().contains(j) ==> v[k].id < j
                &&& final(a).free() == old(a).free().difference(handle_ids(v@))
            },
            None => {
                &&& old(a).free().len() < count
                &&& final(a).free() == old(a).free()
            },
        },
{
    let mut v: Vec<FrameTracker> = Vec::new();
    proof {
        assert(old(a).free().difference(handle_ids(v@)) =~= old(a).free());
    }
    while v.len() < count
        invariant
            old(a).wf(),
            a.wf(),
            a.base == old(a).base,
            a.frame_count == old(a).frame_count,
            v.len() <= count,
            forall|k: int| 0 <= k < v@.len() ==> old(a).free().contains(v@[k].id as int),
            distinct_handles(v@),
            forall|k1: int, k2: int| 0 <= k1 < k2 < v@.len() ==> v@[k1].id < v@[k2].id,
            forall|k: int, j: int| 0 <= k < v@.len() && a.free().contains(j) ==> v@[k].id < j,
            a.free() == old(a).free().difference(handle_ids(v@)),
            a.free().len() + v@.len() == old(a).free().len(),
        decreases count - v.len(),
    {
        let ghost vs = v@;
        let ghost pre = *a;
        match frame_alloc(a) {
            Some(f) => {
                proof {
                    lemma_handle_ids_push(vs, f);
                    assert(!handle_ids(vs).contains(f.id as int));
                    assert forall|k: int| 0 <= k < vs.len() implies vs[k].id != f.id by {
                        assert(handle_ids(vs).contains(vs[k].id as int));
                    }
                    assert(a.free() =~= old(a).free().difference(handle_ids(vs.push(f))));
                    vstd::set::axiom_set_remove_len(pre.free(), f.id as int);
                }
                v.push(f);
            },
            None => {
                proof {
                    assert(old(a).free().len() < count);
                }
                while v.len() > 0
                    invariant
                        old(a).wf(),
                        a.wf(),
                        a.base == old(a).base,
                        a.frame_count == old(a).frame_count,
                        forall|k: int| 0 <= k < v@.len() ==> old(a).free().contains(
                            v@[k].id as int,
                        ),
                        distinct_handles(v@),
                        a.free() == old(a).free().difference(handle_ids(v@)),
                    decreases v.len(),
                {
                    let ghost prev = v@;
                    let f = v.pop().unwrap();
                    let ghost pre2 = *a;
                    proof {
                        assert(prev =~= v@.push(f));
                        lemma_handle_ids_push(v@, f);
                        assert(prev[prev.len() - 1] == f);
                        assert(old(a).free().contains(f.id as int));
                        assert(handle_ids(prev).contains(f.id as int));
                        assert forall|k: int| 0 <= k < v@.len() implies v@[k].id != f.id by {
                            assert(prev[k] == v@[k]);
                        }
                        assert(!handle_ids(v@).contains(f.id as int));
                    }
                    let ok = release_frame(a, f);
                    proof {
                        assert(ok);
                        assert(a.free() =~= old(a).free().difference(handle_ids(v@)));
                    }
                }
                proof {
                    assert(a.free() =~= old(a).free());
                }
                return None;
            },
        }
    }
    Some(v)
}

/// The span of frame addresses computed at initialization stays below
/// `usize::MAX`: the frames lie inside `image_end..memory_end + FRAME_SIZE - 1`.
proof fn lemma_frame_range_fits(image_end: int, memory_end: int)
    requires
        0 <= image_end <= memory_end,
        memory_end <= usize::MAX - FRAME_SIZE + 1,
    ensures
        (memory_end / (FRAME_SIZE as int) - image_end / (FRAME_SIZE as int)) * FRAME_SIZE
            + image_end <= usize::MAX,
{
    let fs = FRAME_SIZE as int;
    let mq = memory_end / fs;
    let iq = image_end / fs;
    assert(memory_end == fs * mq + memory_end % fs) by {
        vstd::arithmetic::div_mod::lemma_fundamental_div_mod(memory_end, fs);
    }
    assert(image_end == fs * iq + image_end % fs) by {
        vstd::arithmetic::div_mod::lemma_fundamental_div_mod(image_end, fs);
    }
    assert((mq - iq) * fs == fs * mq - fs * iq) by (nonlinear_arith);
}

} // verus!

