//! An allocation bridge that serves size/alignment requests from a tracing
//! collector's primitives and never forwards explicit deallocation.
pub mod allocator;
pub mod bridge;
pub mod collector;
pub mod layout;
pub mod model;
pub mod stats;

pub use allocator::{AllocError, Block, GcAllocator};
pub use collector::{Call, Collector};
pub use layout::{Layout, MIN_ALIGN};
pub use stats::ProfileStats;
