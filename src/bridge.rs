//! The choice of collector primitive for each request.
use vstd::prelude::*;

use crate::collector::{block_added, block_moved, min_nat, spec_word_size, word_size, Call, Collector};
use crate::layout::{is_pow2, lemma_mod_chain, lemma_pow2_divides, Layout, MIN_ALIGN};

verus! {

/// The plain primitive serves a request of this size and alignment: its own
/// alignment guarantee covers `align`.
pub open spec fn takes_fast_path(size: usize, align: usize) -> bool {
    align <= MIN_ALIGN && align <= size
}

/// The alignment handed to the aligned primitive: at least a pointer's size.
pub open spec fn normalized_align(align: usize) -> usize {
    if align >= spec_word_size() {
        align
    } else {
        spec_word_size()
    }
}

/// The one primitive call that an allocation of `size` bytes aligned to
/// `align` makes.
pub open spec fn alloc_call(size: usize, align: usize) -> Call {
    if takes_fast_path(size, align) {
        Call::Malloc(size)
    } else {
        Call::AlignedAlloc(normalized_align(align), size)
    }
}

/// The calls that a reallocation makes: the plain reallocation; or, on the
/// aligned route, the allocation of the new block followed, once it
/// succeeded, by the release of the old one. A new size of zero needs no
/// allocation, so only the release remains.
pub open spec fn realloc_calls(ptr: usize, old_align: usize, new_size: usize, moved: bool) -> Seq<Call> {
    if takes_fast_path(new_size, old_align) {
        seq![Call::Realloc(ptr, new_size)]
    } else if new_size == 0 {
        seq![Call::Free(ptr)]
    } else if moved {
        seq![alloc_call(new_size, old_align), Call::Free(ptr)]
    } else {
        seq![alloc_call(new_size, old_align)]
    }
}

/// Allocates `size` bytes aligned to `align` with exactly one primitive call:
/// the plain one where its alignment suffices, else the aligned one.
fn alloc_nonempty<C: Collector>(gc: &mut C, size: usize, align: usize) -> (r: usize)
    requires
        old(gc).wf(),
        is_pow2(align as int),
        size > 0,
    ensures
        final(gc).wf(),
        final(gc).calls() == old(gc).calls().push(alloc_call(size, align)),
        r == final(gc).last_result(),
        r == 0 ==> final(gc).blocks() == old(gc).blocks(),
        r != 0 ==> block_added(old(gc).blocks(), final(gc).blocks(), r, size as nat),
        r != 0 ==> r % align == 0,
{
    if align <= MIN_ALIGN && align <= size {
        let r = gc.malloc(size);
        proof {
            if r != 0 {
                assert(r as int % align as int == 0);
            }
        }
        r
    } else {
        let word = word_size();
        let a = if align >= word {
            align
        } else {
            word
        };
        proof {
            lemma_pow2_divides(a as int, word as int);
        }
        let mut out: usize = 0;
        let status = gc.posix_memalign(&mut out, a, size);
        if status != 0 {
            0
        } else {
            proof {
                if a != align {
                    lemma_pow2_divides(a as int, align as int);
                    lemma_mod_chain(out as int, a as int, align as int);
                }
            }
            out
        }
    }
}

/// Allocates a block for `layout`. A zero-size request is answered with the
/// layout's dangling address and makes no call. Any other makes exactly one
/// primitive call, the plain one where its alignment suffices, else the
/// aligned one, and returns `0` where the collector could not serve it, with
/// the heap unchanged.
pub fn gc_malloc<C: Collector>(gc: &mut C, layout: Layout) -> (r: usize)
    requires
        old(gc).wf(),
    ensures
        final(gc).wf(),
        layout.size() == 0 ==> r == layout.align() && r != 0 && *final(gc) == *old(gc),
        layout.size() > 0 ==> final(gc).calls() == old(gc).calls().push(
            alloc_call(layout.size(), layout.align()),
        ),
        layout.size() > 0 ==> r == final(gc).last_result(),
        layout.size() > 0 && r == 0 ==> final(gc).blocks() == old(gc).blocks(),
        layout.size() > 0 && r != 0 ==> block_added(
            old(gc).blocks(),
            final(gc).blocks(),
            r,
            layout.size() as nat,
        ),
        r != 0 ==> r % layout.align() == 0,
{
    proof {
        use_type_invariant(&layout);
    }
    if layout.size() == 0 {
        layout.dangling()
    } else {
        alloc_nonempty(gc, layout.size(), layout.align())
    }
}

/// Resizes the live block at `ptr`, allocated for `old_layout`, to `new_size`
/// bytes.
///
/// Where the old alignment is served by the plain primitive at the new size,
/// the collector's reallocation does the work. Otherwise a new block with the
/// old alignment is allocated as `gc_malloc` would, the first
/// `min(old size, new_size)` bytes are copied over and the old block is
/// released; for a new size of zero the new block is the dangling address.
/// Either way the result is aligned to the old alignment and keeps those
/// bytes; on failure it is `0` and the heap is unchanged.
pub fn gc_realloc<C: Collector>(gc: &mut C, ptr: usize, old_layout: Layout, new_size: usize) -> (r: usize)
    requires
        old(gc).wf(),
        old(gc).blocks().contains_key(ptr),
        old_layout.size() <= old(gc).blocks()[ptr].len(),
    ensures
        final(gc).wf(),
        final(gc).calls() == old(gc).calls() + realloc_calls(ptr, old_layout.align(), new_size, r != 0),
        new_size > 0 ==> r == final(gc).last_result(),
        r == 0 ==> final(gc).blocks() == old(gc).blocks(),
        new_size == 0 ==> r == old_layout.align() && final(gc).blocks() == old(gc).blocks().remove(ptr),
        new_size > 0 && r != 0 ==> block_moved(
            old(gc).blocks(),
            final(gc).blocks(),
            ptr,
            r,
            new_size as nat,
            min_nat(old_layout.size() as nat, new_size as nat),
        ),
        new_size > 0 && r != 0 && !takes_fast_path(new_size, old_layout.align()) ==> r != ptr,
        r != 0 ==> r % old_layout.align() == 0,
{
    proof {
        use_type_invariant(&old_layout);
    }
    let align = old_layout.align();
    if align <= MIN_ALIGN && align <= new_size {
        let r = gc.realloc(ptr, new_size);
        proof {
            assert(final(gc).calls() =~= old(gc).calls() + realloc_calls(ptr, align, new_size, r != 0));
            if r != 0 {
                assert(r as int % align as int == 0);
                let keep = min_nat(old_layout.size() as nat, new_size as nat);
                let full = min_nat(old(gc).blocks()[ptr].len(), new_size as nat);
                let nb = gc.blocks()[r];
                let ob = old(gc).blocks()[ptr];
                assert(nb.subrange(0, keep as int) =~= nb.subrange(0, full as int).subrange(0, keep as int));
                assert(ob.subrange(0, keep as int) =~= ob.subrange(0, full as int).subrange(0, keep as int));
            }
        }
        r
    } else if new_size == 0 {
        gc_free(gc, ptr, old_layout);
        proof {
            assert(final(gc).calls() =~= old(gc).calls() + realloc_calls(ptr, align, new_size, true));
        }
        old_layout.dangling()
    } else {
        let new_ptr = alloc_nonempty(gc, new_size, align);
        if new_ptr != 0 {
            let ghost after_alloc = gc.blocks();
            let size = if old_layout.size() <= new_size {
                old_layout.size()
            } else {
                new_size
            };
            gc.copy_nonoverlapping(ptr, new_ptr, size);
            let ghost after_copy = gc.blocks();
            gc_free(gc, ptr, old_layout);
            proof {
                let ob = old(gc).blocks()[ptr];
                let fresh = after_alloc[new_ptr];
                let moved = ob.subrange(0, size as int) + fresh.subrange(size as int, fresh.len() as int);
                assert(after_copy[new_ptr] == moved);
                assert(gc.blocks() =~= old(gc).blocks().remove(ptr).insert(new_ptr, moved));
                assert(moved.subrange(0, size as int) =~= ob.subrange(0, size as int));
                assert(final(gc).calls() =~= old(gc).calls() + realloc_calls(ptr, align, new_size, true));
            }
        } else {
            proof {
                assert(final(gc).calls() =~= old(gc).calls() + realloc_calls(ptr, align, new_size, false));
            }
        }
        new_ptr
    }
}

/// Releases the live block at `ptr` through the collector's explicit free.
pub fn gc_free<C: Collector>(gc: &mut C, ptr: usize, layout: Layout)
    requires
        old(gc).wf(),
        old(gc).blocks().contains_key(ptr),
    ensures
        final(gc).wf(),
        final(gc).calls() == old(gc).calls().push(Call::Free(ptr)),
        final(gc).blocks() == old(gc).blocks().remove(ptr),
        final(gc).last_result() == old(gc).last_result(),
{
    gc.free(ptr);
}

} // verus!
