//! Physical memory: the boot-supplied memory map and the frame allocator
//! that hands out unused physical page frames from it.
//!
//! The boot stage delivers a list of physical memory regions, each tagged
//! usable, reserved or device.  The frame allocator enumerates every
//! frame-aligned address inside the usable regions, in region order, and
//! returns the N-th such address on the N-th call.  Frames are never
//! reclaimed: once handed out they are consumed for the rest of execution,
//! which is acceptable because the only consumer is page-table
//! construction during startup.

use vstd::prelude::*;

verus! {

use crate::addr::{PhysAddr, VirtAddr, PAGE_SIZE};
use crate::paging::{table_wf, OffsetMapper, PageTable};
use vstd::arithmetic::div_mod::{lemma_fundamental_div_mod, lemma_mod_multiples_vanish};
use vstd::arithmetic::mul::{lemma_mul_inequality, lemma_mul_nonnegative};

/// How the boot stage tagged a physical memory region.
#[derive(Debug, Clone, Copy, PartialEq, Eq, Structural)]
pub enum MemoryRegionKind {
    /// Free for the kernel to use.
    Usable,
    /// Owned by firmware, the boot stage or the kernel image.
    Reserved,
    /// Memory-mapped device registers.
    Device,
}

/// One entry of the boot memory map: the frames in `[start, end)`.
#[derive(Debug, Clone, Copy, PartialEq, Eq, Structural)]
pub struct MemoryRegion {
    pub start: PhysAddr,
    pub end: PhysAddr,
    pub kind: MemoryRegionKind,
}

/// A region is well formed when its bounds are frame-aligned and ordered.
pub open spec fn region_wf(r: MemoryRegion) -> bool {
    &&& r.start.0 % PAGE_SIZE == 0
    &&& r.end.0 % PAGE_SIZE == 0
    &&& r.start.0 <= r.end.0
}

/// The boot memory map describes each range of physical memory at most
/// once: regions never overlap.
pub open spec fn regions_disjoint(rs: Seq<MemoryRegion>) -> bool {
    forall|i: int, j: int|
        0 <= i < rs.len() && 0 <= j < rs.len() && i != j ==> rs[i].end.0 <= rs[j].start.0
            || rs[j].end.0 <= rs[i].start.0
}

pub open spec fn regions_wf(rs: Seq<MemoryRegion>) -> bool {
    &&& forall|i: int| 0 <= i < rs.len() ==> region_wf(#[trigger] rs[i])
    &&& regions_disjoint(rs)
}

/// The base addresses of the frames contained in one region.
pub open spec fn region_frames(r: MemoryRegion) -> Seq<int> {
    Seq::new(
        ((r.end.0 - r.start.0) / (PAGE_SIZE as int)) as nat,
        |k: int| r.start.0 + (PAGE_SIZE as int) * k,
    )
}

/// The usable frames contributed by the first `n` regions, in order.
pub open spec fn frames_up_to(rs: Seq<MemoryRegion>, n: int) -> Seq<int>
    decreases n,
{
    if n <= 0 {
        Seq::empty()
    } else {
        frames_up_to(rs, n - 1) + if rs[n - 1].kind is Usable {
            region_frames(rs[n - 1])
        } else {
            Seq::empty()
        }
    }
}

/// Every frame-aligned address inside a usable region, in region order:
/// the enumeration the frame allocator serves from.
pub open spec fn usable_frames_spec(rs: Seq<MemoryRegion>) -> Seq<int> {
    frames_up_to(rs, rs.len() as int)
}

/// `a` is the base of a frame lying inside one of the first `n` regions
/// that is marked usable.
pub open spec fn in_usable_region_up_to(rs: Seq<MemoryRegion>, n: int, a: int) -> bool {
    exists|j: int|
        0 <= j < n && (#[trigger] rs[j]).kind is Usable && rs[j].start.0 <= a < rs[j].end.0
}

/// `a` lies inside a region marked usable in the memory map.
pub open spec fn in_usable_region(rs: Seq<MemoryRegion>, a: int) -> bool {
    in_usable_region_up_to(rs, rs.len() as int, a)
}

/// How many usable frames the allocator can still hand out.  A counter
/// already driven past the enumeration's end (by calls after exhaustion)
/// leaves nothing.
pub open spec fn frames_avail(fa: BootInfoFrameAllocator) -> int {
    if fa.next <= usable_frames_spec(fa.regions@).len() {
        usable_frames_spec(fa.regions@).len() - fa.next
    } else {
        0
    }
}

/// Bound used to keep frame arithmetic inside the region: the `k`-th frame
/// of a region of `d` bytes starts at most `d - PAGE_SIZE` bytes in.
proof fn lemma_frame_offset_bound(k: int, d: int)
    requires
        0 <= k,
        d >= 0,
        k < d / (PAGE_SIZE as int),
    ensures
        (PAGE_SIZE as int) * k <= d - PAGE_SIZE,
{
    let p = PAGE_SIZE as int;
    lemma_fundamental_div_mod(d, p);
    lemma_mul_inequality(k, d / p - 1, p);
    assert((d / p - 1) * p == (d / p) * p - p) by (nonlinear_arith);
    assert(p * k == k * p) by (nonlinear_arith);
    assert((d / p) * p == p * (d / p)) by (nonlinear_arith);
    assert(p * (d / p) <= d) by {
        assert(d % p >= 0);
    }
}

/// The frames of a well-formed region lie inside it and are pairwise
/// distinct.
proof fn lemma_region_frames_props(r: MemoryRegion)
    requires
        region_wf(r),
    ensures
        forall|t: int|
            0 <= t < region_frames(r).len() ==> r.start.0 <= #[trigger] region_frames(r)[t]
                < r.end.0,
        forall|t1: int, t2: int|
            0 <= t1 < region_frames(r).len() && 0 <= t2 < region_frames(r).len() && t1 != t2
                ==> #[trigger] region_frames(r)[t1] != #[trigger] region_frames(r)[t2],
        forall|t: int|
            0 <= t < region_frames(r).len() ==> #[trigger] region_frames(r)[t] % (PAGE_SIZE as int)
                == 0,
{
    let d = r.end.0 - r.start.0;
    assert forall|t: int| 0 <= t < region_frames(r).len() implies r.start.0
        <= #[trigger] region_frames(r)[t] < r.end.0 by {
        lemma_frame_offset_bound(t, d);
        lemma_mul_nonnegative(PAGE_SIZE as int, t);
    }
    assert forall|t: int| 0 <= t < region_frames(r).len() implies #[trigger] region_frames(r)[t] % (
    PAGE_SIZE as int) == 0 by {
        lemma_mod_multiples_vanish(t, r.start.0 as int, PAGE_SIZE as int);
        assert(region_frames(r)[t] == (PAGE_SIZE as int) * t + r.start.0);
    }
}

/// Frame provenance and uniqueness, by induction over the memory map: the
/// first `n` regions contribute frames that each lie in a usable region
/// among those `n`, and no frame is listed twice.
proof fn lemma_frames_up_to_props(rs: Seq<MemoryRegion>, n: int)
    requires
        regions_wf(rs),
        0 <= n <= rs.len(),
    ensures
        forall|t: int|
            0 <= t < frames_up_to(rs, n).len() ==> in_usable_region_up_to(
                rs,
                n,
                #[trigger] frames_up_to(rs, n)[t],
            ),
        forall|t1: int, t2: int|
            0 <= t1 < frames_up_to(rs, n).len() && 0 <= t2 < frames_up_to(rs, n).len() && t1 != t2
                ==> #[trigger] frames_up_to(rs, n)[t1] != #[trigger] frames_up_to(rs, n)[t2],
        forall|t: int|
            0 <= t < frames_up_to(rs, n).len() ==> #[trigger] frames_up_to(rs, n)[t] % (
            PAGE_SIZE as int) == 0,
    decreases n,
{
    if n > 0 {
        lemma_frames_up_to_props(rs, n - 1);
        let prefix = frames_up_to(rs, n - 1);
        let whole = frames_up_to(rs, n);
        let r = rs[n - 1];
        lemma_region_frames_props(r);
        assert forall|t: int| 0 <= t < whole.len() implies in_usable_region_up_to(
            rs,
            n,
            #[trigger] whole[t],
        ) by {
            if t < prefix.len() {
                assert(in_usable_region_up_to(rs, n - 1, prefix[t]));
                let j = choose|j: int|
                    0 <= j < n - 1 && (#[trigger] rs[j]).kind is Usable && rs[j].start.0
                        <= prefix[t] < rs[j].end.0;
                assert(0 <= j < n && rs[j].kind is Usable && rs[j].start.0 <= whole[t]
                    < rs[j].end.0);
            } else {
                assert(r.kind is Usable);
                assert(whole[t] == region_frames(r)[t - prefix.len()]);
                assert(rs[n - 1].start.0 <= whole[t] < rs[n - 1].end.0);
            }
        }
        assert forall|t1: int, t2: int|
            0 <= t1 < whole.len() && 0 <= t2 < whole.len() && t1 != t2 implies #[trigger] whole[t1]
            != #[trigger] whole[t2] by {
            if t1 < prefix.len() && t2 < prefix.len() {
                assert(whole[t1] == prefix[t1] && whole[t2] == prefix[t2]);
            } else if t1 >= prefix.len() && t2 >= prefix.len() {
                assert(whole[t1] == region_frames(r)[t1 - prefix.len()]);
                assert(whole[t2] == region_frames(r)[t2 - prefix.len()]);
            } else {
                let (tp, tn) = if t1 < prefix.len() {
                    (t1, t2)
                } else {
                    (t2, t1)
                };
                assert(in_usable_region_up_to(rs, n - 1, prefix[tp]));
                let j = choose|j: int|
                    0 <= j < n - 1 && (#[trigger] rs[j]).kind is Usable && rs[j].start.0
                        <= prefix[tp] < rs[j].end.0;
                assert(whole[tn] == region_frames(r)[tn - prefix.len()]);
                assert(r.start.0 <= whole[tn] < r.end.0);
                assert(rs[j].end.0 <= r.start.0 || r.end.0 <= rs[j].start.0);
            }
        }
        assert forall|t: int| 0 <= t < whole.len() implies #[trigger] whole[t] % (PAGE_SIZE as int)
            == 0 by {
            if t < prefix.len() {
                assert(whole[t] == prefix[t]);
                assert(prefix[t] % (PAGE_SIZE as int) == 0);
            } else {
                assert(whole[t] == region_frames(r)[t - prefix.len()]);
            }
        }
    }
}

/// Every enumerated usable frame address is frame-aligned: regions are
/// aligned and frames are taken at `PAGE_SIZE` steps.
pub proof fn lemma_usable_frames_aligned(rs: Seq<MemoryRegion>)
    requires
        regions_wf(rs),
    ensures
        forall|t: int|
            0 <= t < usable_frames_spec(rs).len() ==> #[trigger] usable_frames_spec(rs)[t] % (
            PAGE_SIZE as int) == 0,
{
    lemma_frames_up_to_props(rs, rs.len() as int);
}

/// Frame uniqueness law, first half: every address the allocator can ever
/// return lies inside a region marked usable in the supplied memory map.
pub proof fn lemma_usable_frames_in_usable_regions(rs: Seq<MemoryRegion>)
    requires
        regions_wf(rs),
    ensures
        forall|t: int|
            0 <= t < usable_frames_spec(rs).len() ==> in_usable_region(
                rs,
                #[trigger] usable_frames_spec(rs)[t],
            ),
{
    lemma_frames_up_to_props(rs, rs.len() as int);
}

/// Frame uniqueness law, second half: the enumeration the allocator serves
/// from never repeats an address, so N successful `allocate_frame` calls
/// return N pairwise distinct frames.
pub proof fn lemma_usable_frames_distinct(rs: Seq<MemoryRegion>)
    requires
        regions_wf(rs),
    ensures
        forall|t1: int, t2: int|
            0 <= t1 < usable_frames_spec(rs).len() && 0 <= t2 < usable_frames_spec(rs).len() && t1
                != t2 ==> #[trigger] usable_frames_spec(rs)[t1]
                != #[trigger] usable_frames_spec(rs)[t2],
{
    lemma_frames_up_to_props(rs, rs.len() as int);
}

/// Allocator over the boot memory map: returns the `next`-th usable frame
/// and advances the monotonic counter, which is never reused or reset.
pub struct BootInfoFrameAllocator {
    pub regions: Vec<MemoryRegion>,
    pub next: usize,
}

impl BootInfoFrameAllocator {
    pub open spec fn wf(self) -> bool {
        regions_wf(self.regions@)
    }

    /// Build the allocator from the boot memory map.  The map comes from
    /// the boot stage, which guarantees aligned, disjoint regions.
    pub fn init(regions: Vec<MemoryRegion>) -> (r: Self)
        requires
            regions_wf(regions@),
        ensures
            r.regions == regions,
            r.next == 0,
            r.wf(),
    {
        BootInfoFrameAllocator { regions, next: 0 }
    }

    /// Enumerate the base address of every frame inside a usable region,
    /// in region order.
    pub fn usable_frames(&self) -> (fs: Vec<PhysAddr>)
        requires
            self.wf(),
        ensures
            fs@.len() == usable_frames_spec(self.regions@).len(),
            forall|t: int|
                0 <= t < fs@.len() ==> (#[trigger] fs@[t]).0 == usable_frames_spec(
                    self.regions@,
                )[t],
    {
        let rs = Ghost(self.regions@);
        let mut fs: Vec<PhysAddr> = Vec::new();
        let mut i: usize = 0;
        while i < self.regions.len()
            invariant
                regions_wf(rs@),
                rs@ == self.regions@,
                i <= rs@.len(),
                fs@.len() == frames_up_to(rs@, i as int).len(),
                forall|t: int|
                    0 <= t < fs@.len() ==> (#[trigger] fs@[t]).0 == frames_up_to(rs@, i as int)[t],
            decreases rs@.len() - i,
        {
            let r = self.regions[i];
            if r.kind == MemoryRegionKind::Usable {
                proof {
                    lemma_region_frames_props(r);
                }
                let count = (r.end.0 - r.start.0) / PAGE_SIZE;
                let base = Ghost(fs@.len() as int);
                let mut k: u64 = 0;
                while k < count
                    invariant
                        region_wf(r),
                        count == (r.end.0 - r.start.0) / (PAGE_SIZE as int),
                        k <= count,
                        0 <= base@,
                        base@ == frames_up_to(rs@, i as int).len(),
                        fs@.len() == base@ + k,
                        forall|t: int|
                            0 <= t < base@ ==> (#[trigger] fs@[t]).0 == frames_up_to(
                                rs@,
                                i as int,
                            )[t],
                        forall|t: int|
                            base@ <= t < fs@.len() ==> (#[trigger] fs@[t]).0 == region_frames(r)[
                                t - base@],
                    decreases count - k,
                {
                    proof {
                        lemma_frame_offset_bound(k as int, r.end.0 - r.start.0);
                        lemma_mul_nonnegative(PAGE_SIZE as int, k as int);
                    }
                    let prev = Ghost(fs@);
                    let new_frame = PhysAddr(r.start.0 + PAGE_SIZE * k);
                    fs.push(new_frame);
                    k = k + 1;
                    proof {
                        assert(fs@ == prev@.push(new_frame));
                        assert(fs@.len() == base@ + k);
                        assert(0 <= k - 1 < region_frames(r).len());
                        assert(region_frames(r)[k - 1] == r.start.0 + (PAGE_SIZE as int) * (k - 1));
                        assert forall|t: int| base@ <= t < fs@.len() implies (#[trigger] fs@[t]).0
                            == region_frames(r)[t - base@] by {
                            if t < base@ + k - 1 {
                                assert(prev@.push(new_frame)[t] == prev@[t]);
                                assert((prev@[t]).0 == region_frames(r)[t - base@]);
                            } else {
                                assert(prev@.push(new_frame)[t] == new_frame);
                            }
                        }
                        assert forall|t: int| 0 <= t < base@ implies (#[trigger] fs@[t]).0
                            == frames_up_to(rs@, i as int)[t] by {
                            assert(prev@.push(new_frame)[t] == prev@[t]);
                        }
                    }
                }
            }
            i = i + 1;
            proof {
                assert(frames_up_to(rs@, i as int) == frames_up_to(rs@, i as int - 1) + if rs@[i
                    as int - 1].kind is Usable {
                    region_frames(rs@[i as int - 1])
                } else {
                    Seq::empty()
                });
            }
        }
        fs
    }

    /// Hand out the next unused frame, or report exhaustion once every
    /// usable frame has been consumed.  The counter advances either way
    /// and never goes back: no frame is ever returned twice.
    pub fn allocate_frame(&mut self) -> (r: Option<PhysAddr>)
        requires
            old(self).wf(),
            old(self).next < usize::MAX,
        ensures
            final(self).regions == old(self).regions,
            final(self).wf(),
            final(self).next == old(self).next + 1,
            ({
                let fs = usable_frames_spec(old(self).regions@);
                &&& (old(self).next < fs.len() ==> (r matches Some(p) && p.0 == fs[old(
                    self,
                ).next as int]))
                &&& (old(self).next >= fs.len() ==> r is None)
            }),
            r matches Some(p) ==> p.0 % PAGE_SIZE == 0,
    {
        proof {
            lemma_usable_frames_aligned(self.regions@);
        }
        let frames = self.usable_frames();
        let r = if self.next < frames.len() {
            Some(frames[self.next])
        } else {
            None
        };
        self.next = self.next + 1;
        r
    }
}

/// Create the virtual-to-physical mapping context from the boot hand-off:
/// the active level-4 table (read by the unverified shell from the CPU's
/// table register through the offset mapping) and the fixed offset at
/// which the boot stage mapped all of physical memory.
pub fn init(physical_memory_offset: VirtAddr, level_4_table: PageTable) -> (m: OffsetMapper)
    requires
        table_wf(level_4_table, 4),
    ensures
        m.physical_memory_offset == physical_memory_offset,
        m.level_4_table == level_4_table,
        m.wf(),
{
    OffsetMapper { physical_memory_offset, level_4_table }
}

} // verus!
