//! A bump allocator for small objects living in a shared memory region.
//!
//! Addresses are plain integers. The lock that guards the control data and
//! the source of large chunks stay with the caller: the allocator is a set of
//! steps that say what to do with the control data and when a chunk is
//! needed.
pub mod control;
pub mod laws;
pub mod mapalloc;
pub mod region;

pub use control::MapAllocControlData;
pub use mapalloc::{AllocStep, MapAlloc, CHUNK_SIZE, LARGE_ALLOCATION};
pub use region::{align_up_checked, AllocError, Region};
