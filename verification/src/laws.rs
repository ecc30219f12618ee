//! Laws the allocator obeys, stated over the same model the contracts use.

use vstd::prelude::*;

verus! {

use crate::bitmap::run_free;
use crate::frame::{addr_of_index, index_of_addr, FRAME_SIZE};
use vstd::set_lib::set_int_range;

/// Translating a valid frame index to its address and back yields the index.
pub proof fn lemma_index_round_trip(index: int, base: int)
    requires
        0 <= index,
    ensures
        index_of_addr(addr_of_index(index, base), base) == index,
{
    let fs = FRAME_SIZE as int;
    assert((index * fs + base - base) / fs == index) by (nonlinear_arith)
        requires
            fs > 0,
    ;
}

/// Translating a frame-aligned address in range to its index and back
/// yields the address.
pub proof fn lemma_addr_round_trip(addr: int, base: int)
    requires
        base <= addr,
        (addr - base) % (FRAME_SIZE as int) == 0,
    ensures
        addr_of_index(index_of_addr(addr, base), base) == addr,
{
    let fs = FRAME_SIZE as int;
    assert(((addr - base) / fs) * fs == addr - base) by (nonlinear_arith)
        requires
            fs > 0,
            addr - base >= 0,
            (addr - base) % fs == 0,
    ;
}

/// Removing the indices of `ids` from `s` one at a time, first to last:
/// the free set after allocating each of those frames in turn.
pub open spec fn remove_all(s: Set<int>, ids: Seq<int>) -> Set<int>
    decreases ids.len(),
{
    if ids.len() == 0 {
        s
    } else {
        remove_all(s.remove(ids[0]), ids.drop_first())
    }
}

/// Inserting the indices of `ids` into `s` one at a time, first to last:
/// the free set after releasing each of those frames in turn.
pub open spec fn insert_all(s: Set<int>, ids: Seq<int>) -> Set<int>
    decreases ids.len(),
{
    if ids.len() == 0 {
        s
    } else {
        insert_all(s.insert(ids[0]), ids.drop_first())
    }
}

proof fn lemma_remove_all_is_difference(s: Set<int>, ids: Seq<int>)
    ensures
        remove_all(s, ids) == s.difference(ids.to_set()),
    decreases ids.len(),
{
    if ids.len() == 0 {
        assert(s.difference(ids.to_set()) =~= s);
    } else {
        lemma_remove_all_is_difference(s.remove(ids[0]), ids.drop_first());
        assert forall|x: int| ids.to_set().contains(x) <==> x == ids[0]
            || ids.drop_first().to_set().contains(x) by {
            if ids.contains(x) {
                let k = choose|k: int| 0 <= k < ids.len() && ids[k] == x;
                if k > 0 {
                    assert(ids.drop_first()[k - 1] == x);
                }
            }
            if ids.drop_first().contains(x) {
                let k = choose|k: int| 0 <= k < ids.drop_first().len() && ids.drop_first()[k] == x;
                assert(ids[k + 1] == x);
            }
            if x == ids[0] {
                assert(ids.contains(x));
            }
        }
        assert(s.remove(ids[0]).difference(ids.drop_first().to_set()) =~= s.difference(
            ids.to_set(),
        ));
    }
}

proof fn lemma_insert_all_is_union(s: Set<int>, ids: Seq<int>)
    ensures
        insert_all(s, ids) == s.union(ids.to_set()),
    decreases ids.len(),
{
    if ids.len() == 0 {
        assert(s.union(ids.to_set()) =~= s);
    } else {
        lemma_insert_all_is_union(s.insert(ids[0]), ids.drop_first());
        assert forall|x: int| ids.to_set().contains(x) <==> x == ids[0]
            || ids.drop_first().to_set().contains(x) by {
            if ids.contains(x) {
                let k = choose|k: int| 0 <= k < ids.len() && ids[k] == x;
                if k > 0 {
                    assert(ids.drop_first()[k - 1] == x);
                }
            }
            if ids.drop_first().contains(x) {
                let k = choose|k: int| 0 <= k < ids.drop_first().len() && ids.drop_first()[k] == x;
                assert(ids[k + 1] == x);
            }
            if x == ids[0] {
                assert(ids.contains(x));
            }
        }
        assert(s.insert(ids[0]).union(ids.drop_first().to_set()) =~= s.union(ids.to_set()));
    }
}

/// Allocating the frames of `taken` one at a time — each allocation removes
/// its index from the free set — and then releasing the same frames, in any
/// order, returns the tracker to exactly its pre-allocation free set, and so
/// to its exact pre-allocation free count.
pub proof fn lemma_alloc_release_round_trip(s: Set<int>, taken: Seq<int>, back: Seq<int>)
    requires
        forall|k: int| 0 <= k < taken.len() ==> s.contains(taken[k]),
        back.to_set() == taken.to_set(),
    ensures
        insert_all(remove_all(s, taken), back) == s,
{
    lemma_remove_all_is_difference(s, taken);
    lemma_insert_all_is_union(s.difference(taken.to_set()), back);
    assert forall|x: int| taken.to_set().contains(x) implies s.contains(x) by {
        let k = choose|k: int| 0 <= k < taken.len() && taken[k] == x;
        assert(s.contains(taken[k]));
    }
    assert(s.difference(taken.to_set()).union(taken.to_set()) =~= s);
}

/// An allocated frame is out of the free set for as long as its handle lives,
/// and every fresh handle takes its index from the free set: two
/// simultaneously live handles never report the same frame index.
pub proof fn lemma_live_handles_distinct(free: Set<int>, live: int, fresh: int)
    requires
        !free.contains(live),
        free.contains(fresh),
    ensures
        live != fresh,
{
}

/// Allocating a contiguous run of `num` frames at index `start` and then
/// freeing the run with the same length restores exactly those `num` indices
/// to the free set and no others.
pub proof fn lemma_contiguous_round_trip(s: Set<int>, start: int, num: int)
    requires
        run_free(s, start, num),
    ensures
        s.difference(set_int_range(start, start + num)).union(set_int_range(start, start + num))
            == s,
{
    assert(s.difference(set_int_range(start, start + num)).union(
        set_int_range(start, start + num),
    ) =~= s);
}

} // verus!
