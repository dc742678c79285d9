//! Boot-time physical frame allocator.
//!
//! The allocator enumerates the page-sized frames of the usable ranges of
//! a firmware memory-region list, in order, and hands each out at most
//! once: a monotonically advancing index walks that enumeration and never
//! returns.  Contiguous allocation repeatedly takes single frames and
//! restarts its run whenever a taken frame is not physically adjacent to
//! the previous one; frames burnt by a broken run are never reused.

use vstd::prelude::*;

verus! {

/// One entry of the firmware memory map: an address range tagged usable or
/// not.
#[derive(Clone, Copy, Debug, PartialEq, Eq)]
pub struct MemoryRegion {
    pub start: u64,
    pub end: u64,
    pub usable: bool,
}

/// How many page frames the region contributes: one per started 4096-byte
/// step from `start` up to (excluding) `end`, none if unusable or empty.
pub open spec fn spec_region_frame_count(r: MemoryRegion) -> nat {
    if r.usable && r.start < r.end {
        (((r.end - r.start - 1) / 4096) + 1) as nat
    } else {
        0
    }
}

/// The base address of the region's `k`-th frame: the region's first
/// stepped address, aligned down to a frame boundary, plus `k` frames.
pub open spec fn spec_region_frame(r: MemoryRegion, k: int) -> int {
    r.start - r.start % 4096 + 4096 * k
}

/// The frames one region contributes, in address order.
pub open spec fn spec_region_frames(r: MemoryRegion) -> Seq<int> {
    Seq::new(spec_region_frame_count(r), |k: int| spec_region_frame(r, k))
}

/// The full enumeration the allocator walks: every usable region's frames,
/// in the order the firmware listed the regions.
pub open spec fn spec_usable_frames(regions: Seq<MemoryRegion>) -> Seq<int>
    decreases regions.len(),
{
    if regions.len() == 0 {
        Seq::empty()
    } else {
        spec_region_frames(regions[0]) + spec_usable_frames(regions.skip(1))
    }
}

/// The physical address of a page table whose virtual address lies in the
/// region where physical memory is mapped at a fixed offset.
pub fn phys_addr_of(virt_addr: u64, phys_offset: u64) -> (r: u64)
    requires
        phys_offset <= virt_addr,
    ensures
        r == virt_addr - phys_offset,
{
    virt_addr - phys_offset
}

/// An allocator that never has a frame to give.
pub struct EmptyFrameAllocator;

impl EmptyFrameAllocator {
    /// Always fails.
    pub fn allocate_frame(&mut self) -> (r: Option<u64>)
        ensures
            r is None,
    {
        Option::None
    }
}

/// Frame allocator over the firmware memory map: the region list and the
/// index of the next not-yet-issued frame of the enumeration.
pub struct BootInfoFrameAllocator {
    pub regions: Vec<MemoryRegion>,
    pub next: usize,
}

/// Computes one region's frame count.
fn region_frame_count(r: &MemoryRegion) -> (c: u64)
    ensures
        c == spec_region_frame_count(*r),
{
    if r.usable && r.start < r.end {
        let d = r.end - r.start;
        proof {
            assert((d - 1) / 4096 <= d - 1) by (nonlinear_arith)
                requires
                    d >= 1,
            ;
        }
        (d - 1) / 4096 + 1
    } else {
        0
    }
}

/// Computes the `k`-th frame of a region, proving it stays below the
/// region's end and so fits the address width.
fn region_frame(r: &MemoryRegion, k: u64) -> (f: u64)
    requires
        k < spec_region_frame_count(*r),
    ensures
        f == spec_region_frame(*r, k as int),
        f < r.end,
{
    proof {
        let d = r.end - r.start;
        assert(r.start % 4096 <= r.start && 0 <= r.start % 4096) by (nonlinear_arith)
            requires
                r.start >= 0,
        ;
        assert(4096 * ((d - 1) / 4096) <= d - 1) by (nonlinear_arith)
            requires
                d >= 1,
        ;
        assert(4096 * (k as int) <= 4096 * ((d - 1) / 4096));
    }
    (r.start - r.start % 4096) + 4096 * k
}

impl BootInfoFrameAllocator {
    /// The enumeration this allocator walks.
    pub open spec fn spec_frames(&self) -> Seq<int> {
        spec_usable_frames(self.regions@)
    }

    /// Creates an allocator over the given memory map with nothing issued
    /// yet.
    pub fn init(regions: Vec<MemoryRegion>) -> (a: Self)
        ensures
            a.regions@ == regions@,
            a.next == 0,
    {
        BootInfoFrameAllocator { regions, next: 0 }
    }

    /// Hands out the next not-yet-issued frame of the enumeration, or
    /// nothing once the enumeration is exhausted.  The index advances
    /// either way and never re-issues a frame.
    pub fn allocate_frame(&mut self) -> (r: Option<u64>)
        requires
            old(self).next < usize::MAX,
        ensures
            final(self).regions@ == old(self).regions@,
            final(self).next == old(self).next + 1,
            old(self).next < old(self).spec_frames().len() ==> r is Some && r->Some_0
                == old(self).spec_frames()[old(self).next as int],
            old(self).next >= old(self).spec_frames().len() ==> r is None,
    {
        let r = nth_usable_frame(&self.regions, self.next);
        self.next = self.next + 1;
        r
    }
}

/// Outcome of a contiguity run in progress: the run began at index `j` of
/// the enumeration, `k` frames of it are already taken and adjacent.  The
/// result is the base address of the run finally handed out (or nothing,
/// once the enumeration runs dry mid-search) together with the index of
/// the next not-yet-issued frame afterwards.
pub open spec fn spec_acquire_run(frames: Seq<int>, j: int, k: int, count: int) -> (Option<int>,
    int)
    decreases frames.len() - j - k,
{
    if k >= count {
        (Option::Some(frames[j]), j + k)
    } else if j + k >= frames.len() {
        (Option::None, j + k + 1)
    } else if frames[j + k] == frames[j + k - 1] + 4096 {
        spec_acquire_run(frames, j, k + 1, count)
    } else {
        spec_start_run(frames, j + k + 1, count)
    }
}

/// Outcome of contiguous allocation started with `next` as the first
/// not-yet-issued index: take one frame to open a run, extend it while
/// frames stay adjacent, and on a break restart just past the frame that
/// broke the run, burning everything taken so far.
pub open spec fn spec_start_run(frames: Seq<int>, next: int, count: int) -> (Option<int>, int)
    decreases frames.len() - next,
{
    if next >= frames.len() {
        (Option::None, next + 1)
    } else {
        spec_acquire_run(frames, next, 1, count)
    }
}

impl BootInfoFrameAllocator {
    /// Hands out the base of a run of `count` physically adjacent frames,
    /// or nothing if the remaining enumeration cannot satisfy it.  Frames
    /// taken for runs that broke are burnt, never returned to the pool.
    ///
    /// The bound on the enumeration's length is a machine limit: the walk
    /// advances one index per frame taken and the index is a `usize`.
    pub fn allocate_contiguous_frames(&mut self, count: usize) -> (r: Option<u64>)
        requires
            count >= 1,
            old(self).next < usize::MAX,
            old(self).spec_frames().len() < usize::MAX,
        ensures
            final(self).regions@ == old(self).regions@,
            ({
                let (res, n2) = spec_start_run(
                    old(self).spec_frames(),
                    old(self).next as int,
                    count as int,
                );
                final(self).next == n2 && match res {
                    Option::Some(b) => r is Some && r->Some_0 == b,
                    Option::None => r is None,
                }
            }),
    {
        let ghost frames = spec_usable_frames(self.regions@);
        let ghost n0 = self.next as int;
        loop
            invariant
                self.regions@ == old(self).regions@,
                frames == spec_usable_frames(self.regions@),
                frames.len() < usize::MAX,
                count >= 1,
                n0 == old(self).next as int,
                self.next < usize::MAX,
                spec_start_run(frames, self.next as int, count as int) == spec_start_run(
                    frames,
                    n0,
                    count as int,
                ),
            decreases frames.len() - self.next,
        {
            let ghost j = self.next as int;
            match self.allocate_frame() {
                Option::None => {
                    return Option::None;
                },
                Option::Some(first) => {
                    let mut prev = first;
                    let mut remaining: usize = count - 1;
                    loop
                        invariant_except_break
                            j + (count - remaining) == self.next,
                            self.next <= frames.len(),
                            prev == frames[self.next - 1],
                            spec_acquire_run(frames, j, count - remaining, count as int)
                                == spec_start_run(frames, n0, count as int),
                        invariant
                            self.regions@ == old(self).regions@,
                            frames == spec_usable_frames(self.regions@),
                            frames.len() < usize::MAX,
                            count >= 1,
                            n0 == old(self).next as int,
                            remaining < count,
                            0 <= j,
                            first == frames[j],
                        ensures
                            self.regions@ == old(self).regions@,
                            j < self.next <= frames.len(),
                            spec_start_run(frames, self.next as int, count as int)
                                == spec_start_run(frames, n0, count as int),
                        decreases remaining,
                    {
                        if remaining == 0 {
                            return Option::Some(first);
                        }
                        match self.allocate_frame() {
                            Option::None => {
                                return Option::None;
                            },
                            Option::Some(new) => {
                                if new >= 4096 && prev == new - 4096 {
                                    prev = new;
                                    remaining = remaining - 1;
                                } else {
                                    break ;
                                }
                            },
                        }
                    }
                },
            }
        }
    }
}

/// A successful contiguous allocation hands out only frames that the
/// single-frame enumeration issued in strictly increasing, physically
/// adjacent order: the run occupies the `count` indices just before the
/// final allocation index, its base is the first of them, and each frame
/// sits exactly one page above the previous.
pub proof fn lemma_contiguous_run_issued(frames: Seq<int>, next: int, count: int)
    requires
        0 <= next,
        1 <= count,
        spec_start_run(frames, next, count).0 is Some,
    ensures
        ({
            let (res, n2) = spec_start_run(frames, next, count);
            let j = n2 - count;
            next <= j && n2 <= frames.len() && res->Some_0 == frames[j] && forall|u: int|
                j <= u < n2 ==> frames[u] == frames[j] + 4096 * (u - j)
        }),
    decreases frames.len() - next,
{
    if next >= frames.len() {
    } else {
        lemma_acquire_run_issued(frames, next, 1, count);
    }
}

/// Helper for [`lemma_contiguous_run_issued`]: the same claim for a run in
/// progress whose first `k` frames are already adjacent.
pub proof fn lemma_acquire_run_issued(frames: Seq<int>, j: int, k: int, count: int)
    requires
        0 <= j,
        1 <= k <= count,
        j + k <= frames.len(),
        forall|u: int| j <= u < j + k ==> frames[u] == frames[j] + 4096 * (u - j),
        spec_acquire_run(frames, j, k, count).0 is Some,
    ensures
        ({
            let (res, n2) = spec_acquire_run(frames, j, k, count);
            let j2 = n2 - count;
            j <= j2 && n2 <= frames.len() && res->Some_0 == frames[j2] && forall|u: int|
                j2 <= u < n2 ==> frames[u] == frames[j2] + 4096 * (u - j2)
        }),
    decreases frames.len() - j - k,
{
    if k >= count {
    } else if j + k >= frames.len() {
    } else if frames[j + k] == frames[j + k - 1] + 4096 {
        assert(frames[j + k] == frames[j] + 4096 * k);
        lemma_acquire_run_issued(frames, j, k + 1, count);
    } else {
        lemma_contiguous_run_issued(frames, j + k + 1, count);
    }
}

/// Finds the `n`-th frame of the enumeration by walking the region list.
fn nth_usable_frame(regions: &Vec<MemoryRegion>, n: usize) -> (r: Option<u64>)
    ensures
        n < spec_usable_frames(regions@).len() ==> r is Some && r->Some_0 == spec_usable_frames(
            regions@,
        )[n as int],
        n >= spec_usable_frames(regions@).len() ==> r is None,
{
    let ghost all = spec_usable_frames(regions@);
    let mut idx: usize = 0;
    let mut rem: usize = n;
    proof {
        assert(regions@.skip(0) =~= regions@);
        assert(all.skip(0) =~= all);
    }
    loop
        invariant
            idx <= regions@.len(),
            rem <= n,
            n - rem <= all.len(),
            all == spec_usable_frames(regions@),
            spec_usable_frames(regions@.skip(idx as int)) == all.skip(n - rem),
        ensures
            n >= all.len(),
        decreases regions@.len() - idx,
    {
        if idx >= regions.len() {
            proof {
                assert(regions@.skip(idx as int) =~= Seq::<MemoryRegion>::empty());
                assert(all.skip(n - rem).len() == 0);
            }
            break ;
        }
        let ghost tail = regions@.skip(idx as int);
        proof {
            assert(tail.len() > 0);
            assert(tail[0] == regions@[idx as int]);
            assert(tail.skip(1) =~= regions@.skip(idx as int + 1));
        }
        let reg = regions[idx];
        let c: u64 = region_frame_count(&reg);
        if (rem as u64) < c {
            let f = region_frame(&reg, rem as u64);
            proof {
                let t = spec_usable_frames(tail);
                assert(t == spec_region_frames(reg) + spec_usable_frames(tail.skip(1)));
                assert(t[rem as int] == spec_region_frames(reg)[rem as int]);
                assert(all.skip(n - rem)[rem as int] == all[n as int]);
            }
            return Option::Some(f);
        }
        proof {
            let t = spec_usable_frames(tail);
            assert(t == spec_region_frames(reg) + spec_usable_frames(tail.skip(1)));
            assert(spec_usable_frames(tail.skip(1)) =~= t.skip(c as int));
            assert(all.skip(n - rem).skip(c as int) =~= all.skip(n - rem + c));
        }
        rem = rem - (c as usize);
        idx = idx + 1;
    }
    Option::None
}

} // verus!
