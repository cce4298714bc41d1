use gcalloc::model::ModelHeap;
use gcalloc::bridge::{gc_malloc, gc_realloc};
use gcalloc::{AllocError, Block, Call, GcAllocator, Layout, MIN_ALIGN};

fn layout(size: usize, align: usize) -> Layout {
    Layout::from_size_align(size, align).unwrap()
}

fn word() -> usize {
    core::mem::size_of::<usize>()
}

#[test]
fn fast_path_serves_small_alignment() {
    let mut heap = ModelHeap::new(1 << 20);
    let p = GcAllocator.alloc_raw(&mut heap, layout(24, 8));
    assert_ne!(p, 0);
    assert_eq!(p % 8, 0);
    assert_eq!(heap.log(), &vec![Call::Malloc(24)]);
    assert!(heap.block(p).unwrap().len() >= 24);
}

#[test]
fn fast_path_for_every_small_alignment() {
    for align in [1usize, 2, 4, 8] {
        let mut heap = ModelHeap::new(1 << 20);
        let p = GcAllocator.alloc_raw(&mut heap, layout(align, align));
        assert_ne!(p, 0);
        assert_eq!(p % align, 0);
        assert_eq!(heap.log(), &vec![Call::Malloc(align)]);
    }
}

#[test]
fn large_alignment_takes_aligned_path() {
    let mut heap = ModelHeap::new(1 << 20);
    let b = GcAllocator.allocate(&mut heap, layout(16, 64)).unwrap();
    assert_ne!(b.addr, 0);
    assert_eq!(b.addr % 64, 0);
    assert_eq!(b.len, 16);
    assert_eq!(heap.log(), &vec![Call::AlignedAlloc(64, 16)]);
}

#[test]
fn alignment_above_size_takes_aligned_path() {
    let mut heap = ModelHeap::new(1 << 20);
    let p = GcAllocator.alloc_raw(&mut heap, layout(4, 8));
    assert_ne!(p, 0);
    assert_eq!(p % 8, 0);
    assert_eq!(heap.log(), &vec![Call::AlignedAlloc(8.max(word()), 4)]);
}

#[test]
fn aligned_path_raises_alignment_to_pointer_size() {
    let mut heap = ModelHeap::new(1 << 20);
    let p = GcAllocator.alloc_raw(&mut heap, layout(1, 2));
    assert_ne!(p, 0);
    assert_eq!(p % 2, 0);
    assert_eq!(heap.log(), &vec![Call::AlignedAlloc(word(), 1)]);
}

#[test]
fn every_alignment_is_honoured() {
    let mut heap = ModelHeap::new(1 << 24);
    let mut align: usize = 1;
    while align <= 4096 {
        for size in [1usize, 3, 8, 17, 100] {
            let p = GcAllocator.alloc_raw(&mut heap, layout(size, align));
            assert_ne!(p, 0);
            assert_eq!(p % align, 0);
            assert!(heap.block(p).unwrap().len() >= size);
        }
        align *= 2;
    }
}

#[test]
fn zero_size_makes_no_call() {
    let mut heap = ModelHeap::new(1 << 20);
    let p = GcAllocator.alloc_raw(&mut heap, layout(0, 16));
    assert_eq!(p, 16);
    let b = GcAllocator.allocate(&mut heap, layout(0, 32));
    assert_eq!(b, Ok(Block { addr: 32, len: 0 }));
    assert!(heap.log().is_empty());
    assert!(heap.block(16).is_none());
}

#[test]
fn zero_size_succeeds_on_exhausted_heap() {
    let mut heap = ModelHeap::new(0);
    assert_eq!(GcAllocator.allocate(&mut heap, layout(0, 1)), Ok(Block { addr: 1, len: 0 }));
    assert!(heap.log().is_empty());
}

#[test]
fn exhaustion_reports_failure() {
    let mut heap = ModelHeap::new(0);
    assert_eq!(GcAllocator.allocate(&mut heap, layout(8, 8)), Err(AllocError));
    assert_eq!(GcAllocator.alloc_raw(&mut heap, layout(16, 64)), 0);
    assert_eq!(heap.log(), &vec![Call::Malloc(8), Call::AlignedAlloc(64, 16)]);
}

#[test]
fn grow_on_fast_path_keeps_bytes() {
    let mut heap = ModelHeap::new(1 << 20);
    let l = layout(24, 8);
    let p = GcAllocator.alloc_raw(&mut heap, l);
    assert_ne!(p, 0);
    for i in 0..24usize {
        assert!(heap.write(p, i, (i as u8) * 3 + 1));
    }
    let q = GcAllocator.realloc(&mut heap, p, l, 64);
    assert_ne!(q, 0);
    assert_eq!(q % 8, 0);
    let block = heap.block(q).unwrap();
    assert!(block.len() >= 64);
    for i in 0..24usize {
        assert_eq!(block[i], (i as u8) * 3 + 1);
    }
    assert_eq!(heap.log(), &vec![Call::Malloc(24), Call::Realloc(p, 64)]);
}

#[test]
fn grow_with_strong_alignment_copies_and_frees() {
    let mut heap = ModelHeap::new(1 << 20);
    let l = layout(32, 64);
    let p = GcAllocator.alloc_raw(&mut heap, l);
    assert_ne!(p, 0);
    for i in 0..32usize {
        assert!(heap.write(p, i, 200 - i as u8));
    }
    let q = GcAllocator.realloc(&mut heap, p, l, 100);
    assert_ne!(q, 0);
    assert_ne!(q, p);
    assert_eq!(q % 64, 0);
    for i in 0..32usize {
        assert_eq!(heap.read(q, i), Some(200 - i as u8));
    }
    assert!(heap.block(q).unwrap().len() >= 100);
    assert!(heap.block(p).is_none());
    assert_eq!(
        heap.log(),
        &vec![Call::AlignedAlloc(64, 32), Call::AlignedAlloc(64, 100), Call::Free(p)]
    );
}

#[test]
fn shrink_below_alignment_copies_prefix() {
    let mut heap = ModelHeap::new(1 << 20);
    let l = layout(16, 8);
    let p = GcAllocator.alloc_raw(&mut heap, l);
    for i in 0..16usize {
        assert!(heap.write(p, i, i as u8 + 10));
    }
    let q = GcAllocator.realloc(&mut heap, p, l, 4);
    assert_ne!(q, 0);
    assert_eq!(q % 8, 0);
    for i in 0..4usize {
        assert_eq!(heap.read(q, i), Some(i as u8 + 10));
    }
    assert_eq!(
        heap.log(),
        &vec![Call::Malloc(16), Call::AlignedAlloc(8.max(word()), 4), Call::Free(p)]
    );
}

#[test]
fn failed_grow_keeps_block() {
    let mut heap = ModelHeap::new(64);
    let l = layout(24, 8);
    let p = GcAllocator.alloc_raw(&mut heap, l);
    assert_ne!(p, 0);
    for i in 0..24usize {
        assert!(heap.write(p, i, 7 * i as u8));
    }
    let q = GcAllocator.realloc(&mut heap, p, l, 4096);
    assert_eq!(q, 0);
    let block = heap.block(p).unwrap();
    for i in 0..24usize {
        assert_eq!(block[i], 7 * i as u8);
    }
    assert_eq!(heap.log(), &vec![Call::Malloc(24), Call::Realloc(p, 4096)]);
}

#[test]
fn failed_aligned_grow_keeps_block_and_frees_nothing() {
    let mut heap = ModelHeap::new(256);
    let l = layout(32, 64);
    let p = GcAllocator.alloc_raw(&mut heap, l);
    assert_ne!(p, 0);
    for i in 0..32usize {
        assert!(heap.write(p, i, i as u8 ^ 0x5a));
    }
    let q = GcAllocator.realloc(&mut heap, p, l, 10_000);
    assert_eq!(q, 0);
    for i in 0..32usize {
        assert_eq!(heap.read(p, i), Some(i as u8 ^ 0x5a));
    }
    assert_eq!(heap.log(), &vec![Call::AlignedAlloc(64, 32), Call::AlignedAlloc(64, 10_000)]);
}

#[test]
fn deallocation_is_dropped() {
    let mut heap = ModelHeap::new(1 << 20);
    let l = layout(24, 8);
    let p = GcAllocator.alloc_raw(&mut heap, l);
    let b = GcAllocator.allocate(&mut heap, layout(40, 128)).unwrap();
    for _ in 0..5 {
        GcAllocator.dealloc(p, l);
        GcAllocator.deallocate(b.addr, layout(40, 128));
        GcAllocator.dealloc(0, l);
    }
    assert!(heap.block(p).is_some());
    assert!(heap.block(b.addr).is_some());
    assert!(!heap.log().iter().any(|c| matches!(c, Call::Free(_))));
    assert_eq!(heap.log().len(), 2);
}

#[test]
fn scenario_grow_twenty_four_to_sixty_four() {
    let mut heap = ModelHeap::new(1 << 20);
    let l = layout(24, 8);
    let p = GcAllocator.alloc_raw(&mut heap, l);
    assert_eq!(heap.log(), &vec![Call::Malloc(24)]);
    for i in 0..24usize {
        assert!(heap.write(p, i, b'a' + i as u8));
    }
    let q = GcAllocator.realloc(&mut heap, p, l, 64);
    assert_ne!(q, 0);
    for i in 0..24usize {
        assert_eq!(heap.read(q, i), Some(b'a' + i as u8));
    }
    assert!(heap.read(q, 63).is_some());
}

#[test]
fn scenario_sixteen_bytes_aligned_to_sixty_four() {
    let mut heap = ModelHeap::new(1 << 20);
    let p = GcAllocator.alloc_raw(&mut heap, layout(16, 64));
    assert_ne!(p, 0);
    assert_eq!(p % 64, 0);
    assert_eq!(heap.log(), &vec![Call::AlignedAlloc(64, 16)]);
    assert!(64 > MIN_ALIGN);
}

#[test]
fn bridge_zero_size_makes_no_call() {
    let mut heap = ModelHeap::new(0);
    assert_eq!(gc_malloc(&mut heap, layout(0, 64)), 64);
    assert_eq!(gc_malloc(&mut heap, layout(0, 1)), 1);
    assert!(heap.log().is_empty());
}

#[test]
fn bridge_serves_nonzero_request() {
    let mut heap = ModelHeap::new(1 << 20);
    let p = gc_malloc(&mut heap, layout(40, 32));
    assert_ne!(p, 0);
    assert_eq!(p % 32, 0);
    assert_eq!(heap.log(), &vec![Call::AlignedAlloc(32, 40)]);
}

#[test]
fn resize_to_zero_releases_block() {
    let mut heap = ModelHeap::new(1 << 20);
    let l = layout(24, 16);
    let p = GcAllocator.alloc_raw(&mut heap, l);
    assert_ne!(p, 0);
    let q = gc_realloc(&mut heap, p, l, 0);
    assert_eq!(q, 16);
    assert!(heap.block(p).is_none());
    assert_eq!(heap.log(), &vec![Call::AlignedAlloc(16, 24), Call::Free(p)]);
}

#[test]
fn copy_path_returns_new_address() {
    let mut heap = ModelHeap::new(1 << 20);
    let l = layout(8, 4096);
    let p = GcAllocator.alloc_raw(&mut heap, l);
    assert_ne!(p, 0);
    let q = GcAllocator.realloc(&mut heap, p, l, 8);
    assert_ne!(q, 0);
    assert_ne!(q, p);
    assert_eq!(q % 4096, 0);
    assert_eq!(heap.log(), &vec![Call::AlignedAlloc(4096, 8), Call::AlignedAlloc(4096, 8), Call::Free(p)]);
}
