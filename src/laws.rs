use vstd::prelude::*;

use crate::control::MapAllocControlData;
use crate::mapalloc::{small_alloc, CHUNK_SIZE, LARGE_ALLOCATION};
use crate::region::{align_up, disjoint, lemma_align_up, ranges_disjoint, AllocError, Region};

verus! {

/// The answers to a sequence of small requests `(size, align)` made one after
/// the other from `cd`, as the contracts of `MapAlloc::allocate` and
/// `MapAlloc::allocate_extended` give them through `small_alloc`, and the cursors at the end. The chunk source's answer
/// to a chunk request made by request `i` is `chunks[i]`.
pub open spec fn run(
    cd: MapAllocControlData,
    reqs: Seq<(usize, usize)>,
    chunks: Seq<Result<Region, AllocError>>,
) -> (Seq<Result<Region, AllocError>>, MapAllocControlData)
    decreases reqs.len(),
{
    if reqs.len() == 0 {
        (Seq::empty(), cd)
    } else {
        let before = run(cd, reqs.drop_last(), chunks);
        let step = small_alloc(before.1, reqs.last().0, reqs.last().1, chunks[reqs.len() - 1]);
        (before.0.push(step.0), step.1)
    }
}

/// The chunk source hands out chunks that fit in the address space and never
/// share a byte with one another.
pub open spec fn chunks_fresh(chunks: Seq<Result<Region, AllocError>>) -> bool {
    &&& forall|i: int|
        0 <= i < chunks.len() && (#[trigger] chunks[i]) is Ok ==> chunks[i]->Ok_0.start + CHUNK_SIZE
            <= usize::MAX
    &&& forall|i: int, j: int|
        0 <= i < chunks.len() && 0 <= j < chunks.len() && i != j && (#[trigger] chunks[i]) is Ok && (
        #[trigger] chunks[j]) is Ok ==> ranges_disjoint(
            chunks[i]->Ok_0.start as int,
            CHUNK_SIZE as int,
            chunks[j]->Ok_0.start as int,
            CHUNK_SIZE as int,
        )
}

/// Each request is small and asks for a non-zero alignment.
pub open spec fn small_requests(reqs: Seq<(usize, usize)>) -> bool {
    forall|i: int|
        0 <= i < reqs.len() ==> (#[trigger] reqs[i]).0 <= LARGE_ALLOCATION && reqs[i].1 > 0
}

/// The control data of a shared region before any allocation.
pub open spec fn fresh_control_data() -> MapAllocControlData {
    MapAllocControlData { current: 0, end: 0 }
}

/// What stays true along a run of `n` requests: the regions handed out so
/// far are pairwise disjoint, disjoint from the free space `[current, end)`
/// and from every chunk that a later request may bring; the free space is
/// disjoint from those chunks too.
spec fn run_inv(
    res: (Seq<Result<Region, AllocError>>, MapAllocControlData),
    n: int,
    chunks: Seq<Result<Region, AllocError>>,
) -> bool {
    let results = res.0;
    let cd = res.1;
    &&& results.len() == n
    &&& cd.wf()
    &&& forall|i: int, j: int|
        0 <= i < n && 0 <= j < n && i != j && (#[trigger] results[i]) is Ok && (
        #[trigger] results[j]) is Ok ==> disjoint(results[i]->Ok_0, results[j]->Ok_0)
    &&& forall|i: int|
        0 <= i < n && (#[trigger] results[i]) is Ok ==> ranges_disjoint(
            results[i]->Ok_0.start as int,
            results[i]->Ok_0.len as int,
            cd.current as int,
            cd.end - cd.current,
        )
    &&& forall|i: int, k: int|
        0 <= i < n && n <= k < chunks.len() && (#[trigger] results[i]) is Ok && (
        #[trigger] chunks[k]) is Ok ==> ranges_disjoint(
            results[i]->Ok_0.start as int,
            results[i]->Ok_0.len as int,
            chunks[k]->Ok_0.start as int,
            CHUNK_SIZE as int,
        )
    &&& forall|k: int|
        n <= k < chunks.len() && (#[trigger] chunks[k]) is Ok ==> ranges_disjoint(
            cd.current as int,
            cd.end - cd.current,
            chunks[k]->Ok_0.start as int,
            CHUNK_SIZE as int,
        )
}

proof fn lemma_run_inv(reqs: Seq<(usize, usize)>, chunks: Seq<Result<Region, AllocError>>)
    requires
        reqs.len() <= chunks.len(),
        small_requests(reqs),
        chunks_fresh(chunks),
    ensures
        run_inv(run(fresh_control_data(), reqs, chunks), reqs.len() as int, chunks),
    decreases reqs.len(),
{
    let n = reqs.len() as int;
    if n == 0 {
        return;
    }
    let prev = reqs.drop_last();
    assert forall|i: int| 0 <= i < prev.len() implies (#[trigger] prev[i]).0 <= LARGE_ALLOCATION
        && prev[i].1 > 0 by {
        assert(prev[i] == reqs[i]);
    }
    lemma_run_inv(prev, chunks);
    let before = run(fresh_control_data(), prev, chunks);
    let cd = before.1;
    let size = reqs.last().0;
    let align = reqs.last().1;
    let chunk = chunks[n - 1];
    assert(reqs[n - 1] == reqs.last());
    let step = small_alloc(cd, size, align, chunk);
    let results = before.0.push(step.0);
    let next = step.1;
    assert(run(fresh_control_data(), reqs, chunks) == (results, next));
    lemma_align_up(cd.current as int, align as int);
    if chunk is Ok {
        let c = chunk->Ok_0;
        lemma_align_up(c.start as int, align as int);
    }
    assert forall|i: int| 0 <= i < n - 1 implies #[trigger] results[i] == before.0[i] by {}
    assert(results[n - 1] == step.0);
}

/// Small allocations never overlap: along any sequence of small requests
/// made from a fresh control data, whose chunk requests are answered with
/// chunks that share no byte, no two regions handed out share a byte.
pub proof fn lemma_small_allocations_disjoint(
    reqs: Seq<(usize, usize)>,
    chunks: Seq<Result<Region, AllocError>>,
)
    requires
        reqs.len() <= chunks.len(),
        small_requests(reqs),
        chunks_fresh(chunks),
    ensures
        ({
            let results = run(fresh_control_data(), reqs, chunks).0;
            &&& results.len() == reqs.len()
            &&& forall|i: int, j: int|
                0 <= i < results.len() && 0 <= j < results.len() && i != j && (
                #[trigger] results[i]) is Ok && (#[trigger] results[j]) is Ok ==> disjoint(
                    results[i]->Ok_0,
                    results[j]->Ok_0,
                )
        }),
{
    lemma_run_inv(reqs, chunks);
}

/// Every region that a small request receives starts at a multiple of the
/// requested alignment and is exactly as long as requested.
pub proof fn lemma_small_alloc_aligned_exact(
    cd: MapAllocControlData,
    size: usize,
    align: usize,
    chunk: Result<Region, AllocError>,
)
    requires
        align > 0,
        chunk is Ok ==> chunk->Ok_0.start + CHUNK_SIZE <= usize::MAX,
    ensures
        small_alloc(cd, size, align, chunk).0 is Ok ==> {
            let r = small_alloc(cd, size, align, chunk).0->Ok_0;
            r.start % align == 0 && r.len == size
        },
{
    lemma_align_up(cd.current as int, align as int);
    if chunk is Ok {
        lemma_align_up(chunk->Ok_0.start as int, align as int);
    }
}

/// Within one chunk the cursor only moves forward: a small request that fits
/// in the active chunk keeps `end`, and moves `current` up by at least the
/// size of the request, so strictly for a non-empty one.
pub proof fn lemma_cursor_monotonic(
    cd: MapAllocControlData,
    size: usize,
    align: usize,
    chunk: Result<Region, AllocError>,
)
    requires
        align > 0,
        cd.fits(size, align),
    ensures
        small_alloc(cd, size, align, chunk).1.end == cd.end,
        small_alloc(cd, size, align, chunk).1.current >= cd.current + size,
        small_alloc(cd, size, align, chunk).1.wf(),
{
    lemma_align_up(cd.current as int, align as int);
}

/// A small request for more than the `end - current` bytes left cannot be
/// carved from the active chunk, so `MapAlloc::allocate` asks for a chunk; it
/// then takes the one chunk answered and no other. The region it receives lies
/// inside that chunk, the cursors then stand just past it in that chunk, and
/// where `align - 1 + size` bytes fit in a chunk it does receive one: the
/// first address of the chunk that is a multiple of the alignment.
/// What is asked of the chunk source is `MapAlloc::chunk_request`.
pub proof fn lemma_extension_trigger(
    cd: MapAllocControlData,
    size: usize,
    align: usize,
    c: Region,
)
    requires
        cd.wf(),
        align > 0,
        size <= LARGE_ALLOCATION,
        size > cd.end - cd.current,
        c.start + CHUNK_SIZE <= usize::MAX,
    ensures
        !cd.fits(size, align),
        small_alloc(cd, size, align, Ok(c)).0 is Ok ==> small_alloc(
            cd,
            size,
            align,
            Ok(c),
        ).0->Ok_0.within(c.start as int, c.start + CHUNK_SIZE),
        small_alloc(cd, size, align, Ok(c)).0 is Ok ==> small_alloc(cd, size, align, Ok(c)).1
            == (MapAllocControlData {
            current: (small_alloc(cd, size, align, Ok(c)).0->Ok_0.end()) as usize,
            end: (c.start + CHUNK_SIZE) as usize,
        }),
        align - 1 + size <= CHUNK_SIZE ==> small_alloc(cd, size, align, Ok(c)).0 == Ok::<
            Region,
            AllocError,
        >(Region { start: align_up(c.start as int, align as int) as usize, len: size }),
{
    lemma_align_up(cd.current as int, align as int);
    lemma_align_up(c.start as int, align as int);
}

} // verus!
