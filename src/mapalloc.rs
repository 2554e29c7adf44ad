use vstd::prelude::*;

use crate::control::MapAllocControlData;
use crate::region::{align_up_checked, AllocError, Region};

verus! {

/// Requests of more than this many bytes bypass the bump region.
pub const LARGE_ALLOCATION: usize = 4096;

/// The number of bytes taken from the chunk source each time the bump region
/// runs out.
pub const CHUNK_SIZE: usize = 200 * 1024;

/// What a request needs next, as decided by `MapAlloc::allocate`.
#[derive(Clone, Copy, Debug, PartialEq, Eq, Structural)]
pub enum AllocStep {
    /// The request is large: give it unchanged to the chunk source and pass
    /// the answer to `MapAlloc::alloc_large`. The control data was not read.
    Large,
    /// The region was carved from the active chunk and the control data has
    /// been advanced past it.
    Done(Region),
    /// The active chunk has no room: still holding exclusive access to the
    /// control data, ask the chunk source for `CHUNK_SIZE` bytes aligned to 1
    /// and pass the answer to `MapAlloc::allocate_extended`.
    NeedChunk,
}

/// What a small request comes to over both of its steps: carved from the
/// active chunk when it fits (`MapAlloc::allocate` returns `Done`), else carved from the
/// chunk that the chunk source answered with (`MapAlloc::allocate_extended`, after `MapAlloc::allocate` returned
/// `NeedChunk`).
/// The answer `chunk` is used only in the second case.
pub open spec fn small_alloc(
    cd: MapAllocControlData,
    size: usize,
    align: usize,
    chunk: Result<Region, AllocError>,
) -> (Result<Region, AllocError>, MapAllocControlData) {
    if cd.fits(size, align) {
        (Ok(cd.carved(size, align)), cd.after_carve(size, align))
    } else {
        match chunk {
            Err(e) => (Err(e), cd),
            Ok(c) => {
                let fresh = MapAllocControlData::from_chunk(c);
                if fresh.fits(size, align) {
                    (Ok(fresh.carved(size, align)), fresh.after_carve(size, align))
                } else {
                    (Err(AllocError), fresh)
                }
            },
        }
    }
}

/// The bump allocator used by hash maps in shared memory.
///
/// It keeps no state of its own: every decision is made on a control data
/// value to which the caller holds exclusive access, and on the answers of
/// the chunk source that the caller asks on its behalf. Any number of them
/// may work on one control data.
#[derive(Clone, Copy, Debug)]
pub struct MapAlloc {}

/// Carves `size` bytes aligned to `align` out of `[current, end)`, or leaves
/// the cursors alone where they do not fit or no chunk is bound yet.
fn carve(control_data: &mut MapAllocControlData, size: usize, align: usize) -> (r: Option<Region>)
    requires
        align > 0,
    ensures
        old(control_data).fits(size, align) ==> r == Some(old(control_data).carved(size, align))
            && *final(control_data) == old(control_data).after_carve(size, align),
        !old(control_data).fits(size, align) ==> r is None && *final(control_data) == *old(
            control_data,
        ),
{
    if control_data.end == 0 {
        return None;
    }
    match align_up_checked(control_data.current, align) {
        Some(pointer) => match pointer.checked_add(size) {
            Some(new_current) => {
                if new_current <= control_data.end {
                    control_data.current = new_current;
                    Some(Region { start: pointer, len: size })
                } else {
                    None
                }
            },
            None => None,
        },
        None => None,
    }
}

impl MapAlloc {
    /// A new allocator.
    pub fn new() -> (r: Self) {
        MapAlloc {  }
    }

    /// Whether a request of `size` bytes takes the large path. A caller may
    /// ask this before taking the lock: the large path never needs it.
    pub fn is_large(&self, size: usize) -> (r: bool)
        ensures
            r == (size > LARGE_ALLOCATION),
    {
        size > LARGE_ALLOCATION
    }

    /// What to ask of the chunk source when `allocate` answers `NeedChunk`:
    /// `CHUNK_SIZE` bytes with alignment 1, whatever the request's own size
    /// and alignment.
    pub fn chunk_request(&self) -> (r: (usize, usize))
        ensures
            r == (CHUNK_SIZE, 1usize),
    {
        (CHUNK_SIZE, 1)
    }

    /// The large path: the chunk source's answer to a large request is the
    /// allocator's answer, region or failure, unchanged.
    pub fn alloc_large(&self, outcome: Result<Region, AllocError>) -> (r: Result<Region, AllocError>)
        ensures
            r == outcome,
    {
        outcome
    }

    /// Binds the cursors to a fresh chunk, abandoning what was left of the
    /// previous one. Where the chunk source failed, the cursors stay as they
    /// were and the failure is passed on.
    pub fn extend(
        &self,
        control_data: &mut MapAllocControlData,
        chunk: Result<Region, AllocError>,
    ) -> (r: Result<(), AllocError>)
        requires
            chunk is Ok ==> chunk->Ok_0.start + CHUNK_SIZE <= usize::MAX,
        ensures
            match chunk {
                Ok(c) => r is Ok && *final(control_data) == MapAllocControlData::from_chunk(c),
                Err(e) => r == Err::<(), AllocError>(e) && *final(control_data) == *old(
                    control_data,
                ),
            },
    {
        match chunk {
            Ok(c) => {
                control_data.current = c.start;
                control_data.end = c.start + CHUNK_SIZE;
                Ok(())
            },
            Err(e) => Err(e),
        }
    }

    /// First step of a request for `size` bytes aligned to `align`.
    ///
    /// A large request is routed to the chunk source without touching the
    /// control data. A small one is carved from the active chunk when it
    /// fits; otherwise a new chunk is needed.
    pub fn allocate(&self, control_data: &mut MapAllocControlData, size: usize, align: usize) -> (r:
        AllocStep)
        requires
            align > 0,
        ensures
            size > LARGE_ALLOCATION ==> r == AllocStep::Large && *final(control_data) == *old(
                control_data,
            ),
            size <= LARGE_ALLOCATION && old(control_data).fits(size, align) ==> r == AllocStep::Done(
                old(control_data).carved(size, align),
            ) && *final(control_data) == old(control_data).after_carve(size, align),
            size <= LARGE_ALLOCATION && !old(control_data).fits(size, align) ==> r
                == AllocStep::NeedChunk && *final(control_data) == *old(control_data),
            size <= LARGE_ALLOCATION && !old(control_data).has_chunk() ==> r
                == AllocStep::NeedChunk,
            r matches AllocStep::Done(region) ==> forall|chunk: Result<Region, AllocError>|
                #[trigger] small_alloc(*old(control_data), size, align, chunk) == (
                    Ok::<Region, AllocError>(region),
                    *final(control_data),
                ),
    {
        if size > LARGE_ALLOCATION {
            return AllocStep::Large;
        }
        match carve(control_data, size, align) {
            Some(region) => AllocStep::Done(region),
            None => AllocStep::NeedChunk,
        }
    }

    /// Second step of a small request that did not fit: binds the cursors to
    /// the chunk that the chunk source answered with and carves the request
    /// from it. No further chunk is asked for.
    ///
    /// Where the chunk source failed, so does the request, with the cursors
    /// unchanged. Where the aligned request does not fit in the fresh chunk
    /// (an alignment close to the chunk's size), the request fails and the
    /// cursors stay on the fresh chunk.
    pub fn allocate_extended(
        &self,
        control_data: &mut MapAllocControlData,
        size: usize,
        align: usize,
        chunk: Result<Region, AllocError>,
    ) -> (r: Result<Region, AllocError>)
        requires
            align > 0,
            chunk is Ok ==> chunk->Ok_0.start + CHUNK_SIZE <= usize::MAX,
        ensures
            match chunk {
                Err(e) => r == Err::<Region, AllocError>(e) && *final(control_data) == *old(
                    control_data,
                ),
                Ok(c) => {
                    let fresh = MapAllocControlData::from_chunk(c);
                    if fresh.fits(size, align) {
                        r == Ok::<Region, AllocError>(fresh.carved(size, align))
                            && *final(control_data) == fresh.after_carve(size, align)
                    } else {
                        r == Err::<Region, AllocError>(AllocError)
                            && *final(control_data) == fresh
                    }
                },
            },
            !old(control_data).fits(size, align) ==> (r, *final(control_data)) == small_alloc(
                *old(control_data),
                size,
                align,
                chunk,
            ),
    {
        match self.extend(control_data, chunk) {
            Ok(()) => {},
            Err(e) => {
                return Err(e);
            },
        }
        match carve(control_data, size, align) {
            Some(region) => Ok(region),
            None => Err(AllocError),
        }
    }

    /// Gives a region back. Nothing is reclaimed: memory is freed only when
    /// the whole shared region goes, so this changes nothing and is here for
    /// callers written against a general allocator.
    pub fn deallocate(&self, _region: Region) {
    }
}

} // verus!
