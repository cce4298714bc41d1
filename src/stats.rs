//! The collector's statistics snapshot.
use vstd::prelude::*;

verus! {

/// A snapshot of the collector's heap statistics, copied out on demand.
#[derive(Clone, Copy, Debug, PartialEq, Eq)]
pub struct ProfileStats {
    /// Heap size in bytes, including the area unmapped to the OS.
    pub heapsize_full: usize,
    /// Total bytes in free and unmapped blocks.
    pub free_bytes_full: usize,
    /// Bytes unmapped to the OS.
    pub unmapped_bytes: usize,
    /// Bytes allocated since the latest collection.
    pub bytes_allocd_since_gc: usize,
    /// Bytes allocated before the latest collection; may wrap.
    pub allocd_bytes_before_gc: usize,
    /// Bytes not considered candidates for collection.
    pub non_gc_bytes: usize,
    /// Collection cycle number; may wrap.
    pub gc_no: usize,
    /// Number of marker threads, the initiating one excluded.
    pub markers_m1: usize,
    /// Approximate bytes reclaimed by the latest collection.
    pub bytes_reclaimed_since_gc: usize,
    /// Approximate bytes reclaimed before the latest collection; may wrap.
    pub reclaimed_bytes_before_gc: usize,
    /// Bytes freed explicitly since the latest collection.
    pub expl_freed_bytes_since_gc: usize,
}

impl Default for ProfileStats {
    /// A snapshot with every count at zero.
    fn default() -> (r: ProfileStats)
        ensures
            r == (ProfileStats {
                heapsize_full: 0,
                free_bytes_full: 0,
                unmapped_bytes: 0,
                bytes_allocd_since_gc: 0,
                allocd_bytes_before_gc: 0,
                non_gc_bytes: 0,
                gc_no: 0,
                markers_m1: 0,
                bytes_reclaimed_since_gc: 0,
                reclaimed_bytes_before_gc: 0,
                expl_freed_bytes_since_gc: 0,
            }),
    {
        ProfileStats {
            heapsize_full: 0,
            free_bytes_full: 0,
            unmapped_bytes: 0,
            bytes_allocd_since_gc: 0,
            allocd_bytes_before_gc: 0,
            non_gc_bytes: 0,
            gc_no: 0,
            markers_m1: 0,
            bytes_reclaimed_since_gc: 0,
            reclaimed_bytes_before_gc: 0,
            expl_freed_bytes_since_gc: 0,
        }
    }
}

} // verus!
