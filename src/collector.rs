//! The collector's primitives, as the bridge relies on them.
//!
//! A collector is seen through two views: the live blocks of its heap, each at
//! its start address with its bytes, and the sequence of primitive calls it
//! has served. Address `0` stands for a null pointer.
use vstd::prelude::*;

use crate::layout::{is_pow2, MIN_ALIGN};

verus! {

/// One call of a collector primitive, with its arguments.
#[derive(Clone, Copy, Debug, PartialEq, Eq)]
pub enum Call {
    /// Plain allocation of this many bytes.
    Malloc(usize),
    /// Aligned allocation: alignment, then size.
    AlignedAlloc(usize, usize),
    /// Reallocation of the block at an address to a new size.
    Realloc(usize, usize),
    /// Explicit release of the block at an address.
    Free(usize),
}

/// `new` is `old` with one more block, at `addr`, of at least `size` bytes.
pub open spec fn block_added(
    old: Map<usize, Seq<u8>>,
    new: Map<usize, Seq<u8>>,
    addr: usize,
    size: nat,
) -> bool {
    &&& addr != 0
    &&& !old.contains_key(addr)
    &&& new == old.insert(addr, new[addr])
    &&& new[addr].len() >= size
}

/// `new` is `old` with the block at `from` retired and a block at `to`, of at
/// least `size` bytes, whose first `keep` bytes are those of the old block.
/// `to` may equal `from`.
pub open spec fn block_moved(
    old: Map<usize, Seq<u8>>,
    new: Map<usize, Seq<u8>>,
    from: usize,
    to: usize,
    size: nat,
    keep: nat,
) -> bool {
    &&& to != 0
    &&& !old.remove(from).contains_key(to)
    &&& new == old.remove(from).insert(to, new[to])
    &&& new[to].len() >= size
    &&& keep <= old[from].len()
    &&& keep <= new[to].len()
    &&& new[to].subrange(0, keep as int) == old[from].subrange(0, keep as int)
}

/// Bytes written before a successful resize read back unchanged after it:
/// every byte below the kept length of the moved block is the old block's
/// byte at the same offset, whether the block moved or grew in place.
pub proof fn lemma_resize_keeps_bytes(
    old: Map<usize, Seq<u8>>,
    new: Map<usize, Seq<u8>>,
    from: usize,
    to: usize,
    size: nat,
    keep: nat,
    i: int,
)
    requires
        block_moved(old, new, from, to, size, keep),
        0 <= i < keep,
    ensures
        new[to][i] == old[from][i],
        new.contains_key(to),
{
    assert(new[to].subrange(0, keep as int)[i] == old[from].subrange(0, keep as int)[i]);
}

/// `addr` has the collector's default alignment for a block of `size` bytes:
/// it is a multiple of every power of two up to `MIN_ALIGN` that is no larger
/// than `size`.
pub open spec fn default_aligned(addr: usize, size: nat) -> bool {
    forall|a: int| is_pow2(a) && a <= MIN_ALIGN && a <= size ==> #[trigger] (addr as int % a) == 0
}

/// The smaller of two naturals.
pub open spec fn min_nat(a: nat, b: nat) -> nat {
    if a <= b {
        a
    } else {
        b
    }
}

/// The size of a pointer, in bytes.
pub open spec fn spec_word_size() -> usize {
    vstd::layout::size_of::<usize>() as usize
}

/// The size of a pointer, in bytes: a power of two.
pub fn word_size() -> (r: usize)
    ensures
        r == spec_word_size(),
        is_pow2(r as int),
{
    broadcast use vstd::layout::layout_of_primitives;
    let r = core::mem::size_of::<usize>();
    proof {
        reveal_with_fuel(is_pow2, 5);
        assert(usize::BITS == 32 || usize::BITS == 64);
    }
    r
}

/// A tracing collector's allocation primitives and the byte copy between two
/// of its blocks.
///
/// The views have default definitions only so that a collector reached
/// through foreign code, which cannot name them, can still implement the
/// trait. Those defaults describe nothing: an implementation that keeps them
/// cannot meet the primitives' contracts, and nothing proved here carries
/// over to it. Code generic over a collector never sees the defaults, and a
/// verified implementation gives its own views.
pub trait Collector {
    /// The collector's internal bookkeeping is consistent.
    closed spec fn wf(&self) -> bool {
        true
    }

    /// The live blocks, by start address.
    closed spec fn blocks(&self) -> Map<usize, Seq<u8>> {
        Map::empty()
    }

    /// Every primitive call served so far, oldest first.
    closed spec fn calls(&self) -> Seq<Call> {
        Seq::empty()
    }

    /// The address that the latest allocation or reallocation handed back,
    /// `0` where it failed.
    closed spec fn last_result(&self) -> usize {
        0
    }

    /// Plain allocation: a block of at least `nbytes` bytes with the default
    /// alignment for that size, or `0` with the heap unchanged.
    fn malloc(&mut self, nbytes: usize) -> (r: usize)
        requires
            old(self).wf(),
        ensures
            final(self).last_result() == r,
            final(self).wf(),
            final(self).calls() == old(self).calls().push(Call::Malloc(nbytes)),
            r == 0 ==> final(self).blocks() == old(self).blocks(),
            r != 0 ==> block_added(old(self).blocks(), final(self).blocks(), r, nbytes as nat),
            r != 0 ==> default_aligned(r, nbytes as nat),
    ;

    /// Aligned allocation: status `0` and a block of at least `nbytes` bytes
    /// at an address aligned to `align`, stored in `out`; or a non-zero status
    /// with the heap unchanged.
    fn posix_memalign(&mut self, out: &mut usize, align: usize, nbytes: usize) -> (status: i32)
        requires
            old(self).wf(),
            is_pow2(align as int),
            align % spec_word_size() == 0,
        ensures
            final(self).last_result() == if status == 0 { *final(out) } else { 0 },
            final(self).wf(),
            final(self).calls() == old(self).calls().push(Call::AlignedAlloc(align, nbytes)),
            status != 0 ==> final(self).blocks() == old(self).blocks(),
            status == 0 ==> block_added(
                old(self).blocks(),
                final(self).blocks(),
                *final(out),
                nbytes as nat,
            ),
            status == 0 ==> *final(out) % align == 0,
    ;

    /// Reallocation of a live block, in place or elsewhere: the new block has
    /// the default alignment for its size, holds at least `new_size` bytes and starts with
    /// the old block's bytes; or `0` with the heap unchanged.
    fn realloc(&mut self, ptr: usize, new_size: usize) -> (r: usize)
        requires
            old(self).wf(),
            old(self).blocks().contains_key(ptr),
            new_size > 0,
        ensures
            final(self).last_result() == r,
            final(self).wf(),
            final(self).calls() == old(self).calls().push(Call::Realloc(ptr, new_size)),
            r == 0 ==> final(self).blocks() == old(self).blocks(),
            r != 0 ==> block_moved(
                old(self).blocks(),
                final(self).blocks(),
                ptr,
                r,
                new_size as nat,
                min_nat(old(self).blocks()[ptr].len(), new_size as nat),
            ),
            r != 0 ==> default_aligned(r, new_size as nat),
    ;

    /// Retires a live block at once.
    fn free(&mut self, ptr: usize)
        requires
            old(self).wf(),
            old(self).blocks().contains_key(ptr),
        ensures
            final(self).last_result() == old(self).last_result(),
            final(self).wf(),
            final(self).calls() == old(self).calls().push(Call::Free(ptr)),
            final(self).blocks() == old(self).blocks().remove(ptr),
    ;

    /// Copies the first `n` bytes of the block at `src` over those of the
    /// distinct block at `dst`.
    fn copy_nonoverlapping(&mut self, src: usize, dst: usize, n: usize)
        requires
            old(self).wf(),
            src != dst,
            old(self).blocks().contains_key(src),
            old(self).blocks().contains_key(dst),
            n <= old(self).blocks()[src].len(),
            n <= old(self).blocks()[dst].len(),
        ensures
            final(self).last_result() == old(self).last_result(),
            final(self).wf(),
            final(self).calls() == old(self).calls(),
            final(self).blocks() == old(self).blocks().insert(
                dst,
                old(self).blocks()[src].subrange(0, n as int) + old(self).blocks()[dst].subrange(
                    n as int,
                    old(self).blocks()[dst].len() as int,
                ),
            ),
    ;
}

} // verus!
