use vstd::prelude::*;

use crate::mapalloc::CHUNK_SIZE;
use crate::region::{align_up, Region};

verus! {

/// The cursor pair of the live bump region: `current` is the next free
/// address, `end` is one past the last usable address of the active chunk.
///
/// This value is meant to sit in shared memory behind a lock; only the
/// allocator's steps change it.
#[derive(Clone, Copy, Debug, PartialEq, Eq, Structural)]
pub struct MapAllocControlData {
    pub current: usize,
    pub end: usize,
}

impl MapAllocControlData {
    /// The cursors never cross.
    pub open spec fn wf(&self) -> bool {
        self.current <= self.end
    }

    /// Where a request with alignment `align` would start: the first
    /// address at or above `current` that is a multiple of `align`.
    pub open spec fn carve_start(&self, align: usize) -> int {
        align_up(self.current as int, align as int)
    }

    /// The cursors are bound to a chunk. A chunk never ends at address 0, so
    /// `end == 0` is the empty state, where no request fits, not even an
    /// empty one.
    pub open spec fn has_chunk(&self) -> bool {
        self.end != 0
    }

    /// A request of `size` bytes with alignment `align` fits between the
    /// cursors of a bound chunk.
    pub open spec fn fits(&self, size: usize, align: usize) -> bool {
        self.has_chunk() && self.carve_start(align) + size <= self.end
    }

    /// The region that a fitting request receives.
    pub open spec fn carved(&self, size: usize, align: usize) -> Region {
        Region { start: self.carve_start(align) as usize, len: size }
    }

    /// The cursors after a fitting request: `current` moves past the
    /// carved region, `end` stays.
    pub open spec fn after_carve(&self, size: usize, align: usize) -> Self {
        MapAllocControlData { current: (self.carve_start(align) + size) as usize, end: self.end }
    }

    /// The cursors bound to a fresh chunk that starts at `chunk.start`.
    pub open spec fn from_chunk(chunk: Region) -> Self {
        MapAllocControlData { current: chunk.start, end: (chunk.start + CHUNK_SIZE) as usize }
    }

    /// A new empty control data, with no chunk yet.
    pub fn new() -> (r: Self)
        ensures
            r.current == 0,
            r.end == 0,
            r.wf(),
    {
        MapAllocControlData { current: 0, end: 0 }
    }
}

} // verus!
