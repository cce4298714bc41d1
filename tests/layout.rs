use gcalloc::model::ModelHeap;
use gcalloc::{Layout, ProfileStats};

#[test]
fn layout_accepts_powers_of_two() {
    let l = Layout::from_size_align(24, 8).unwrap();
    assert_eq!(l.size(), 24);
    assert_eq!(l.align(), 8);
    assert_eq!(l.dangling(), 8);
    assert!(Layout::from_size_align(0, 1).is_some());
    assert!(Layout::from_size_align(isize::MAX as usize, 1).is_some());
}

#[test]
fn layout_rejects_bad_alignment() {
    assert!(Layout::from_size_align(8, 0).is_none());
    assert!(Layout::from_size_align(8, 3).is_none());
    assert!(Layout::from_size_align(8, 12).is_none());
}

#[test]
fn layout_rejects_oversize() {
    assert!(Layout::from_size_align(usize::MAX, 1).is_none());
    assert!(Layout::from_size_align(isize::MAX as usize, 2).is_none());
    assert!(Layout::from_size_align(isize::MAX as usize - 7, 8).is_some());
}

#[test]
fn model_heap_rejects_out_of_range_access() {
    let mut heap = ModelHeap::new(1024);
    assert!(!heap.write(4096, 0, 1));
    assert_eq!(heap.read(4096, 0), None);
    assert!(heap.log().is_empty());
}

#[test]
fn profile_stats_default_is_zero() {
    let s = ProfileStats::default();
    assert_eq!(s.heapsize_full, 0);
    assert_eq!(s.gc_no, 0);
    assert_eq!(s.expl_freed_bytes_since_gc, 0);
    assert_eq!(s, ProfileStats { markers_m1: 0, ..s });
}
