//! The two faces of the allocator: the process-wide protocol, which answers
//! with an address (`0` on failure), and the handle protocol, which answers
//! with a block or a typed error. Neither forwards a deallocation.
use vstd::prelude::*;

use crate::bridge::{alloc_call, gc_malloc, gc_realloc, realloc_calls, takes_fast_path};
use crate::collector::{block_added, block_moved, min_nat, Collector};
use crate::layout::Layout;

verus! {

/// A block handed out by the handle protocol: its start address and length.
#[derive(Clone, Copy, Debug, PartialEq, Eq)]
pub struct Block {
    pub addr: usize,
    pub len: usize,
}

/// The collector could not serve an allocation.
#[derive(Clone, Copy, Debug, PartialEq, Eq)]
pub struct AllocError;

/// An allocator whose blocks belong to a tracing collector. It holds no state.
#[derive(Clone, Copy, Debug)]
pub struct GcAllocator;

impl GcAllocator {
    /// Allocates for `layout` and returns the address, or `0` where the
    /// collector could not serve it: see `gc_malloc`. A zero-size request is
    /// answered with the layout's dangling address and makes no call.
    pub fn alloc_raw<C: Collector>(&self, gc: &mut C, layout: Layout) -> (r: usize)
        requires
            old(gc).wf(),
        ensures
            final(gc).wf(),
            layout.size() == 0 ==> r == layout.align() && r != 0 && *final(gc) == *old(gc),
            layout.size() > 0 ==> final(gc).calls() == old(gc).calls().push(
                alloc_call(layout.size(), layout.align()),
            ),
            layout.size() > 0 ==> r == final(gc).last_result(),
            layout.size() > 0 && r == 0 ==> final(gc).blocks() == old(gc).blocks(),
            layout.size() > 0 && r != 0 ==> block_added(
                old(gc).blocks(),
                final(gc).blocks(),
                r,
                layout.size() as nat,
            ),
            r != 0 ==> r % layout.align() == 0,
    {
        gc_malloc(gc, layout)
    }

    /// Does nothing: the collector alone decides when a block is reclaimed.
    pub fn dealloc(&self, ptr: usize, layout: Layout) {
    }

    /// Resizes the live block at `ptr`, allocated for `layout`, to `new_size`
    /// bytes: see `gc_realloc`.
    pub fn realloc<C: Collector>(&self, gc: &mut C, ptr: usize, layout: Layout, new_size: usize) -> (r: usize)
        requires
            old(gc).wf(),
            old(gc).blocks().contains_key(ptr),
            layout.size() <= old(gc).blocks()[ptr].len(),
        ensures
            final(gc).wf(),
            final(gc).calls() == old(gc).calls() + realloc_calls(ptr, layout.align(), new_size, r != 0),
            new_size > 0 ==> r == final(gc).last_result(),
            r == 0 ==> final(gc).blocks() == old(gc).blocks(),
            new_size == 0 ==> r == layout.align() && final(gc).blocks() == old(gc).blocks().remove(ptr),
            new_size > 0 && r != 0 ==> block_moved(
                old(gc).blocks(),
                final(gc).blocks(),
                ptr,
                r,
                new_size as nat,
                min_nat(layout.size() as nat, new_size as nat),
            ),
            new_size > 0 && r != 0 && !takes_fast_path(new_size, layout.align()) ==> r != ptr,
            r != 0 ==> r % layout.align() == 0,
    {
        gc_realloc(gc, ptr, layout, new_size)
    }

    /// Allocates a block of exactly `layout.size()` bytes, or reports
    /// `AllocError` where the collector could not serve it. A zero-size request
    /// is answered with an empty block at the layout's dangling address and
    /// makes no call.
    pub fn allocate<C: Collector>(&self, gc: &mut C, layout: Layout) -> (r: Result<Block, AllocError>)
        requires
            old(gc).wf(),
        ensures
            final(gc).wf(),
            layout.size() == 0 ==> r == Ok::<Block, AllocError>(Block { addr: layout.align(), len: 0 })
                && *final(gc) == *old(gc),
            layout.size() > 0 ==> final(gc).calls() == old(gc).calls().push(
                alloc_call(layout.size(), layout.align()),
            ),
            layout.size() > 0 ==> (r is Ok <==> final(gc).last_result() != 0),
            layout.size() > 0 ==> match r {
                Ok(b) => {
                    &&& b.addr == final(gc).last_result()
                    &&& b.len == layout.size()
                    &&& b.addr % layout.align() == 0
                    &&& block_added(old(gc).blocks(), final(gc).blocks(), b.addr, layout.size() as nat)
                },
                Err(_) => final(gc).blocks() == old(gc).blocks(),
            },
    {
        let ptr = gc_malloc(gc, layout);
        if ptr == 0 {
            Err(AllocError)
        } else {
            Ok(Block { addr: ptr, len: layout.size() })
        }
    }

    /// Does nothing: the collector alone decides when a block is reclaimed.
    pub fn deallocate(&self, ptr: usize, layout: Layout) {
    }
}

} // verus!
