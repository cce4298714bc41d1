//! An in-memory collector: blocks are handed out from a bounded address
//! range, every primitive call is recorded, and a request that does not fit
//! in the range fails. It serves as a stand-in for the real collector and as
//! a way to watch which primitives the bridge uses.
use vstd::prelude::*;

use std::collections::HashMap;

use crate::collector::{block_added, block_moved, default_aligned, min_nat, spec_word_size, Call, Collector};
use crate::layout::{is_pow2, lemma_small_align_divides, MIN_ALIGN};

verus! {

broadcast use vstd::std_specs::hash::group_hash_axioms;

/// The first address that a model heap hands out.
pub const HEAP_BASE: usize = 4096;

/// The status that aligned allocation reports when the heap is exhausted.
pub const ENOMEM: i32 = 12;

/// A collector held in memory, over the addresses from `HEAP_BASE` up to a
/// limit fixed at construction.
pub struct ModelHeap {
    mem: HashMap<usize, Vec<u8>>,
    next: usize,
    limit: usize,
    log: Vec<Call>,
    last: usize,
}

/// `start`, rounded up to a multiple of the power of two `align`.
pub open spec fn round_up(start: int, align: int) -> int {
    if start % align == 0 {
        start
    } else {
        start + (align - start % align)
    }
}

impl ModelHeap {
    /// Every block lies below the next free address, which is a non-zero
    /// multiple of `MIN_ALIGN` within the limit.
    pub closed spec fn inv(&self) -> bool {
        &&& self.next > 0
        &&& self.next % MIN_ALIGN == 0
        &&& self.next <= self.limit
        &&& forall|a: usize| #[trigger] self.mem@.contains_key(a) ==> 0 < a < self.next
    }

    /// The address below which every block lies.
    pub closed spec fn spec_next(&self) -> usize {
        self.next
    }

    /// The end of the address range.
    pub closed spec fn spec_limit(&self) -> usize {
        self.limit
    }

    /// An empty heap with room for about `capacity` bytes of blocks.
    pub fn new(capacity: usize) -> (r: ModelHeap)
        ensures
            r.wf(),
            r.blocks() == Map::<usize, Seq<u8>>::empty(),
            r.calls() == Seq::<Call>::empty(),
            r.spec_next() == HEAP_BASE,
            r.spec_limit() == if capacity > usize::MAX - HEAP_BASE {
                usize::MAX as int
            } else {
                HEAP_BASE + capacity
            },
    {
        let limit = if capacity > usize::MAX - HEAP_BASE {
            usize::MAX
        } else {
            HEAP_BASE + capacity
        };
        let r = ModelHeap { mem: HashMap::new(), next: HEAP_BASE, limit, log: Vec::new(), last: 0 };
        assert(r.blocks() =~= Map::<usize, Seq<u8>>::empty());
        r
    }

    /// Takes the next address aligned to `align` with room for `nbytes`
    /// bytes (at least one) below the limit, or `None` where there is none.
    fn reserve(&mut self, align: usize, nbytes: usize) -> (r: Option<usize>)
        requires
            old(self).inv(),
            is_pow2(align as int),
        ensures
            final(self).inv(),
            final(self).mem@ == old(self).mem@,
            final(self).log@ == old(self).log@,
            r is None ==> final(self).next == old(self).next,
            r matches Some(a) ==> {
                &&& a >= old(self).next
                &&& a < final(self).next
                &&& a % align == 0
                &&& a as int == round_up(old(self).next as int, align as int)
                &&& a + nbytes <= final(self).next
            },
    {
        let rem = self.next % align;
        let pad = if rem == 0 {
            0
        } else {
            align - rem
        };
        if pad > self.limit - self.next {
            return None;
        }
        let start = self.next + pad;
        let len = if nbytes == 0 {
            1
        } else {
            nbytes
        };
        if len > self.limit - start {
            return None;
        }
        let end = start + len;
        let rem2 = end % MIN_ALIGN;
        let pad2 = if rem2 == 0 {
            0
        } else {
            MIN_ALIGN - rem2
        };
        if pad2 > self.limit - end {
            return None;
        }
        proof {
            let n = self.next as int;
            let al = align as int;
            vstd::arithmetic::div_mod::lemma_fundamental_div_mod(n, al);
            if rem != 0 {
                assert(start as int == al * (n / al + 1)) by (nonlinear_arith)
                    requires
                        n == al * (n / al) + n % al,
                        start as int == n + (al - n % al),
                ;
                vstd::arithmetic::div_mod::lemma_mod_multiples_basic(n / al + 1, al);
            }
            let e = end as int;
            vstd::arithmetic::div_mod::lemma_fundamental_div_mod(e, 8);
            vstd::arithmetic::div_mod::lemma_mod_multiples_basic(e / 8 + 1, 8);
        }
        self.next = end + pad2;
        Some(start)
    }

    /// The bytes of the block at `addr`, if it is live.
    pub fn block(&self, addr: usize) -> (r: Option<&Vec<u8>>)
        ensures
            r is Some <==> self.blocks().contains_key(addr),
            r matches Some(v) ==> v@ == self.blocks()[addr],
    {
        self.mem.get(&addr)
    }

    /// Every primitive call served so far, oldest first.
    pub fn log(&self) -> (r: &Vec<Call>)
        ensures
            r@ == self.calls(),
    {
        &self.log
    }

    /// Stores `byte` at `offset` in the block at `addr`; `false`, with the heap
    /// unchanged, where there is no such block or the offset lies outside it.
    pub fn write(&mut self, addr: usize, offset: usize, byte: u8) -> (r: bool)
        requires
            old(self).wf(),
        ensures
            final(self).wf(),
            r == (old(self).blocks().contains_key(addr) && offset < old(self).blocks()[addr].len()),
            r ==> final(self).blocks() == old(self).blocks().insert(
                addr,
                old(self).blocks()[addr].update(offset as int, byte),
            ),
            !r ==> final(self).blocks() == old(self).blocks(),
            final(self).calls() == old(self).calls(),
    {
        let ghost before = self.blocks();
        match self.mem.remove(&addr) {
            None => {
                assert(self.blocks() =~= before);
                false
            },
            Some(mut v) => {
                if offset < v.len() {
                    v.set(offset, byte);
                    self.mem.insert(addr, v);
                    assert(self.blocks() =~= before.insert(addr, before[addr].update(offset as int, byte)));
                    true
                } else {
                    self.mem.insert(addr, v);
                    assert(self.blocks() =~= before);
                    false
                }
            },
        }
    }

    /// The byte at `offset` in the block at `addr`, if there is one.
    pub fn read(&self, addr: usize, offset: usize) -> (r: Option<u8>)
        ensures
            r is Some <==> (self.blocks().contains_key(addr) && offset < self.blocks()[addr].len()),
            r matches Some(b) ==> b == self.blocks()[addr][offset as int],
    {
        match self.mem.get(&addr) {
            None => None,
            Some(v) => {
                if offset < v.len() {
                    Some(v[offset])
                } else {
                    None
                }
            },
        }
    }
}


/// A multiple of `MIN_ALIGN` has the default alignment for any size.
proof fn lemma_default_aligned(addr: usize, size: nat)
    requires
        addr % MIN_ALIGN == 0,
    ensures
        default_aligned(addr, size),
{
    assert forall|a: int| is_pow2(a) && a <= MIN_ALIGN && a <= size implies #[trigger] (addr as int % a) == 0 by {
        lemma_small_align_divides(addr as int, a);
    }
}

impl Collector for ModelHeap {
    closed spec fn wf(&self) -> bool {
        self.inv()
    }

    closed spec fn blocks(&self) -> Map<usize, Seq<u8>> {
        self.mem@.map_values(|v: Vec<u8>| v@)
    }

    closed spec fn calls(&self) -> Seq<Call> {
        self.log@
    }

    closed spec fn last_result(&self) -> usize {
        self.last
    }

    fn malloc(&mut self, nbytes: usize) -> (r: usize) {
        proof {
            reveal_with_fuel(is_pow2, 5);
        }
        let ghost before = self.blocks();
        self.log.push(Call::Malloc(nbytes));
        match self.reserve(MIN_ALIGN, nbytes) {
            None => {
                self.last = 0;
                assert(self.blocks() =~= before);
                0
            },
            Some(a) => {
                self.mem.insert(a, vec![0u8; nbytes]);
                assert(self.blocks() =~= before.insert(a, self.blocks()[a]));
                proof {
                    lemma_default_aligned(a, nbytes as nat);
                }
                self.last = a;
                a
            },
        }
    }

    fn posix_memalign(&mut self, out: &mut usize, align: usize, nbytes: usize) -> (status: i32) {
        let ghost before = self.blocks();
        self.log.push(Call::AlignedAlloc(align, nbytes));
        match self.reserve(align, nbytes) {
            None => {
                self.last = 0;
                assert(self.blocks() =~= before);
                ENOMEM
            },
            Some(a) => {
                self.mem.insert(a, vec![0u8; nbytes]);
                assert(self.blocks() =~= before.insert(a, self.blocks()[a]));
                *out = a;
                self.last = a;
                0
            },
        }
    }

    fn realloc(&mut self, ptr: usize, new_size: usize) -> (r: usize) {
        proof {
            reveal_with_fuel(is_pow2, 5);
        }
        let ghost before = self.blocks();
        self.log.push(Call::Realloc(ptr, new_size));
        match self.reserve(MIN_ALIGN, new_size) {
            None => {
                self.last = 0;
                assert(self.blocks() =~= before);
                0
            },
            Some(a) => {
                let old_data = self.mem.remove(&ptr).unwrap();
                let keep = if old_data.len() <= new_size {
                    old_data.len()
                } else {
                    new_size
                };
                let mut data: Vec<u8> = Vec::new();
                let mut i: usize = 0;
                while i < new_size
                    invariant
                        i <= new_size,
                        keep <= new_size,
                        keep <= old_data.len(),
                        data@.len() == i,
                        forall|j: int| 0 <= j < i && j < keep ==> data@[j] == old_data@[j],
                    decreases new_size - i,
                {
                    if i < keep {
                        data.push(old_data[i]);
                    } else {
                        data.push(0u8);
                    }
                    i = i + 1;
                }
                self.mem.insert(a, data);
                proof {
                    assert(!before.remove(ptr).contains_key(a));
                    assert(self.blocks() =~= before.remove(ptr).insert(a, data@));
                    assert(keep == min_nat(before[ptr].len(), new_size as nat));
                    assert(data@.subrange(0, keep as int) =~= before[ptr].subrange(0, keep as int));
                    lemma_default_aligned(a, new_size as nat);
                }
                self.last = a;
                a
            },
        }
    }

    fn free(&mut self, ptr: usize) {
        let ghost before = self.blocks();
        self.log.push(Call::Free(ptr));
        self.mem.remove(&ptr);
        assert(self.blocks() =~= before.remove(ptr));
    }

    fn copy_nonoverlapping(&mut self, src: usize, dst: usize, n: usize) {
        let ghost before = self.blocks();
        let d = self.mem.remove(&dst).unwrap();
        let s = self.mem.get(&src).unwrap();
        let mut data: Vec<u8> = Vec::new();
        let mut i: usize = 0;
        while i < d.len()
            invariant
                i <= d.len(),
                n <= d.len(),
                n <= s.len(),
                data@.len() == i,
                forall|j: int| 0 <= j < i ==> data@[j] == (if j < n { s@[j] } else { d@[j] }),
            decreases d.len() - i,
        {
            if i < n {
                data.push(s[i]);
            } else {
                data.push(d[i]);
            }
            i = i + 1;
        }
        proof {
            let expect = before[src].subrange(0, n as int) + before[dst].subrange(n as int, before[dst].len() as int);
            assert(data@ =~= expect);
        }
        self.mem.insert(dst, data);
        assert(self.blocks() =~= before.insert(
            dst,
            before[src].subrange(0, n as int) + before[dst].subrange(n as int, before[dst].len() as int),
        ));
    }
}

} // verus!
