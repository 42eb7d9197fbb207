//! The kernel heap: a fixed virtual range reserved for the dynamic
//! allocator, and the alignment arithmetic the allocator relies on.

pub mod bump;

use vstd::prelude::*;

verus! {

use crate::addr::{VirtAddr, PAGE_SIZE};
use crate::allocator::bump::BumpAllocator;
use crate::memory::{frames_avail, usable_frames_spec, BootInfoFrameAllocator};
use crate::paging::{
    lemma_missing_tables_bound, same_path, translate_spec, walk_error, MapToError, OffsetMapper,
    PageTableFlags,
};
use vstd::arithmetic::div_mod::{
    lemma_fundamental_div_mod, lemma_mod_division_less_than_divisor, lemma_mod_multiples_basic,
};

/// First virtual address of the kernel heap.
pub const HEAP_START: u64 = 0x4444_4444_0000;

/// Size of the kernel heap in bytes (100 KiB).
pub const HEAP_SIZE: u64 = 100 * 1024;

/// Number of pages covering the heap range (its base is page-aligned).
pub const HEAP_PAGE_COUNT: u64 = (HEAP_SIZE + PAGE_SIZE - 1) / PAGE_SIZE;

/// The base address of the `k`-th heap page.
pub open spec fn heap_page(k: u64) -> u64 {
    (HEAP_START + k * PAGE_SIZE) as u64
}

/// No heap page runs into a conflicting mapping on its walk.
pub open spec fn heap_range_clear(t: crate::paging::PageTable) -> bool {
    forall|k: u64| k < HEAP_PAGE_COUNT ==> #[trigger] walk_error(t, 4, heap_page(k)) is None
}

/// The first `k0` heap pages translate to a present, writable frame.
pub open spec fn heap_mapped_up_to(t: crate::paging::PageTable, k0: u64) -> bool {
    forall|k: u64|
        k < k0 ==> (#[trigger] translate_spec(t, 4, heap_page(k)) matches Some((_f, fl))
            && fl.present && fl.writable)
}

/// Every heap page translates to a present, writable frame.
pub open spec fn heap_range_mapped(t: crate::paging::PageTable) -> bool {
    heap_mapped_up_to(t, HEAP_PAGE_COUNT)
}

/// The frame backing a heap page, if the page is mapped.
pub open spec fn heap_frame(t: crate::paging::PageTable, k: u64) -> Option<u64> {
    match translate_spec(t, 4, heap_page(k)) {
        Some((f, _flags)) => Some(f),
        None => None,
    }
}

/// Distinct heap pages are backed by pairwise distinct frames: each was
/// freshly drawn from the frame allocator's never-repeating enumeration.
pub open spec fn heap_backing_frames_distinct(t: crate::paging::PageTable) -> bool {
    forall|k1: u64, k2: u64|
        k1 < HEAP_PAGE_COUNT && k2 < HEAP_PAGE_COUNT && k1 != k2 ==> #[trigger] heap_frame(t, k1)
            != #[trigger] heap_frame(t, k2)
}

/// Heap pages from `k0` on whose walks were conflict-free in the
/// original table still walk conflict-free.
spec fn heap_walks_preserved(
    orig: crate::paging::PageTable,
    cur: crate::paging::PageTable,
    k0: u64,
) -> bool {
    forall|k: u64|
        k0 <= k < HEAP_PAGE_COUNT && walk_error(orig, 4, heap_page(k)) is None
            ==> #[trigger] walk_error(cur, 4, heap_page(k)) is None
}

/// The first `k0` heap pages are each backed by the frame the allocator
/// enumerates at the recorded position.
spec fn heap_frames_assigned(
    t: crate::paging::PageTable,
    regions: Seq<crate::memory::MemoryRegion>,
    assigned: Seq<int>,
    k0: u64,
) -> bool {
    forall|k: u64|
        k < k0 ==> (#[trigger] heap_frame(t, k) matches Some(f) && f == usable_frames_spec(
            regions,
        )[assigned[k as int]])
}

/// Distinct heap pages never share a full walk path: they differ in their
/// leaf-table index, so mapping one can neither overwrite nor disturb
/// another.
proof fn lemma_heap_pages_distinct_paths(k1: u64, k2: u64)
    requires
        k1 < HEAP_PAGE_COUNT,
        k2 < HEAP_PAGE_COUNT,
        k1 != k2,
    ensures
        !same_path(heap_page(k1), heap_page(k2), 4),
{
    let a1 = heap_page(k1);
    let a2 = heap_page(k2);
    assert((((0x4444_4444_0000u64 + k1 * 4096) as u64 >> 12u64) & 0x1ff) != (((0x4444_4444_0000u64
        + k2 * 4096) as u64 >> 12u64) & 0x1ff)) by (bit_vector)
        requires
            k1 < 25u64,
            k2 < 25u64,
            k1 != k2,
    ;
    assert(crate::paging::page_table_index(a1, 1) != crate::paging::page_table_index(a2, 1));
}

/// Reserve and map the kernel heap, then activate the bump allocator
/// over it.
///
/// Walks the heap's page range; each page gets a freshly drawn backing
/// frame, mapped present and writable, so the pages' frames are pairwise
/// distinct.  The first failure stops the walk and is returned unchanged
/// (no further frames are requested, no further pages are mapped), and
/// the allocator is then left untouched: a partially mapped heap is
/// never handed out.  A frame-allocation failure means physical memory
/// ran out; a conflict error means some heap page was already mapped (or
/// blocked by a huge page) before the call.  On success the allocator
/// owns exactly the heap range.  (The unverified shell flushes the
/// translation cache for each mapped page, as `map_to` demands.)
///
/// Success is owed whenever the heap range is free of conflicting
/// mappings and the frame allocator still holds a frame for each page
/// plus the worst-case chain of intermediate tables.
pub fn init_heap(
    mapper: &mut OffsetMapper,
    frame_allocator: &mut BootInfoFrameAllocator,
    allocator: &mut BumpAllocator,
) -> (r: Result<(), MapToError>)
    requires
        old(mapper).wf(),
        old(frame_allocator).wf(),
        old(frame_allocator).next <= usize::MAX - 5,
        usable_frames_spec(old(frame_allocator).regions@).len() <= usize::MAX - 5,
        old(allocator).is_inert(),
    ensures
        final(mapper).wf(),
        final(frame_allocator).wf(),
        final(frame_allocator).regions == old(frame_allocator).regions,
        r is Ok ==> heap_range_mapped(final(mapper).level_4_table),
        r is Ok ==> heap_backing_frames_distinct(final(mapper).level_4_table),
        r is Ok ==> final(allocator).is_active(),
        r is Ok ==> final(allocator).heap_start == HEAP_START,
        r is Ok ==> final(allocator).heap_end == HEAP_START + HEAP_SIZE,
        r is Ok ==> final(allocator).next == HEAP_START,
        r is Ok ==> final(allocator).allocations == 0,
        r is Err ==> *final(allocator) == *old(allocator),
        r == Err::<(), MapToError>(MapToError::FrameAllocationFailed)
            ==> final(frame_allocator).next
            > usable_frames_spec(old(frame_allocator).regions@).len(),
        r == Err::<(), MapToError>(MapToError::FrameAllocationFailed)
            && old(frame_allocator).next
            <= usable_frames_spec(old(frame_allocator).regions@).len()
            ==> final(frame_allocator).next
            == usable_frames_spec(old(frame_allocator).regions@).len() + 1,
        (r == Err::<(), MapToError>(MapToError::PageAlreadyMapped) || r == Err::<
            (),
            MapToError,
        >(MapToError::ParentEntryHugePage)) ==> !heap_range_clear(old(mapper).level_4_table),
        heap_range_clear(old(mapper).level_4_table) && frames_avail(*old(frame_allocator)) >= 4
            * HEAP_PAGE_COUNT ==> (r is Ok),
{
    let ghost init_fa = *old(frame_allocator);
    let ghost orig_l4 = old(mapper).level_4_table;
    let ghost usable_len = usable_frames_spec(init_fa.regions@).len() as int;
    let ghost mut assigned: Seq<int> = Seq::empty();
    let mut page_i: u64 = 0;
    while page_i < HEAP_PAGE_COUNT
        invariant
            init_fa == *old(frame_allocator),
            orig_l4 == old(mapper).level_4_table,
            usable_len == usable_frames_spec(init_fa.regions@).len(),
            mapper.wf(),
            frame_allocator.wf(),
            frame_allocator.regions == init_fa.regions,
            init_fa.next <= usize::MAX - 5,
            usable_len <= usize::MAX - 5,
            frame_allocator.next == init_fa.next || frame_allocator.next <= usable_len,
            init_fa.next <= usable_len ==> frame_allocator.next <= usable_len,
            page_i <= HEAP_PAGE_COUNT,
            heap_mapped_up_to(mapper.level_4_table, page_i),
            heap_walks_preserved(orig_l4, mapper.level_4_table, page_i),
            assigned.len() == page_i,
            forall|k: int| 0 <= k < page_i ==> 0 <= #[trigger] assigned[k] < usable_len,
            forall|k: int| 0 <= k < page_i ==> #[trigger] assigned[k] < frame_allocator.next,
            forall|k1: int, k2: int|
                0 <= k1 < k2 < page_i ==> (#[trigger] assigned[k1]) < (#[trigger] assigned[k2]),
            heap_frames_assigned(mapper.level_4_table, init_fa.regions@, assigned, page_i),
            frames_avail(init_fa) >= 4 * HEAP_PAGE_COUNT ==> frame_allocator.next <= init_fa.next
                + 4 * page_i,
        decreases HEAP_PAGE_COUNT - page_i,
    {
        let ghost pre_map = mapper.level_4_table;
        let ghost pre_fa = *frame_allocator;
        let page = VirtAddr::new(HEAP_START + page_i * PAGE_SIZE);
        let frame = match frame_allocator.allocate_frame() {
            Some(f) => f,
            None => {
                proof {
                    if frames_avail(init_fa) >= 4 * HEAP_PAGE_COUNT {
                        assert(init_fa.next <= usable_len);
                        assert(pre_fa.next + 4 * (HEAP_PAGE_COUNT - page_i) <= usable_len);
                        assert(false);
                    }
                    assert(pre_fa.next >= usable_len);
                }
                return Err(MapToError::FrameAllocationFailed);
            },
        };
        let flags = PageTableFlags::present_writable();
        let ghost drawn_at = pre_fa.next as int;
        let ghost mid_fa = *frame_allocator;
        let r = mapper.map_to(page, frame, flags, frame_allocator);
        proof {
            if heap_range_clear(orig_l4) && frames_avail(init_fa) >= 4 * HEAP_PAGE_COUNT {
                lemma_missing_tables_bound(pre_map, 4, page.0);
                assert(walk_error(orig_l4, 4, heap_page(page_i)) is None);
                assert(walk_error(pre_map, 4, heap_page(page_i)) is None);
                assert(frames_avail(mid_fa) >= 3);
                assert(r is Ok);
            }
        }
        match r {
            Ok(()) => {},
            Err(e) => {
                proof {
                    if e is PageAlreadyMapped || e is ParentEntryHugePage {
                        assert(walk_error(pre_map, 4, heap_page(page_i)) is Some);
                        assert(!heap_range_clear(orig_l4));
                    }
                    if e is FrameAllocationFailed {
                        assert(frame_allocator.next == mid_fa.next + frames_avail(mid_fa) + 1);
                        if init_fa.next <= usable_len {
                            assert(pre_fa.next < usable_len);
                            assert(frame_allocator.next == usable_len + 1);
                        }
                        assert(frame_allocator.next > usable_len);
                    }
                }
                return Err(e);
            },
        }
        proof {
            lemma_missing_tables_bound(pre_map, 4, page.0);
            assigned = assigned.push(drawn_at);
            assert(assigned[page_i as int] == drawn_at);
            assert(frame.0 == usable_frames_spec(init_fa.regions@)[drawn_at]);
            assert(translate_spec(mapper.level_4_table, 4, page.0) == Some((frame.0, flags)));
            assert forall|k: u64| k < page_i + 1 implies (#[trigger] translate_spec(
                mapper.level_4_table,
                4,
                heap_page(k),
            ) matches Some((_f, fl)) && fl.present && fl.writable) by {
                if k < page_i {
                    lemma_heap_pages_distinct_paths(k, page_i);
                    assert(translate_spec(mapper.level_4_table, 4, heap_page(k)) == translate_spec(
                        pre_map,
                        4,
                        heap_page(k),
                    ));
                }
            }
            assert forall|k: u64| k < page_i + 1 implies (#[trigger] heap_frame(
                mapper.level_4_table,
                k,
            ) matches Some(f) && f == usable_frames_spec(init_fa.regions@)[assigned[k as int]]) by {
                if k < page_i {
                    lemma_heap_pages_distinct_paths(k, page_i);
                    assert(translate_spec(mapper.level_4_table, 4, heap_page(k))
                        == translate_spec(pre_map, 4, heap_page(k)));
                    assert(heap_frame(pre_map, k) matches Some(f) && f == usable_frames_spec(
                        init_fa.regions@,
                    )[assigned[k as int]]);
                }
            }
            assert forall|k: u64|
                page_i + 1 <= k < HEAP_PAGE_COUNT && walk_error(orig_l4, 4, heap_page(k))
                    is None implies #[trigger] walk_error(
                mapper.level_4_table,
                4,
                heap_page(k),
            ) is None by {
                lemma_heap_pages_distinct_paths(k, page_i);
                assert(walk_error(pre_map, 4, heap_page(k)) is None);
            }
        }
        page_i = page_i + 1;
    }
    proof {
        crate::memory::lemma_usable_frames_distinct(init_fa.regions@);
        assert forall|k1: u64, k2: u64|
            k1 < HEAP_PAGE_COUNT && k2 < HEAP_PAGE_COUNT && k1 != k2 implies #[trigger] heap_frame(
            mapper.level_4_table,
            k1,
        ) != #[trigger] heap_frame(mapper.level_4_table, k2) by {
            let i1 = assigned[k1 as int];
            let i2 = assigned[k2 as int];
            assert(heap_frame(mapper.level_4_table, k1) matches Some(f) && f
                == usable_frames_spec(init_fa.regions@)[i1]);
            assert(heap_frame(mapper.level_4_table, k2) matches Some(f) && f
                == usable_frames_spec(init_fa.regions@)[i2]);
            assert(i1 != i2);
            assert(usable_frames_spec(init_fa.regions@)[i1] != usable_frames_spec(
                init_fa.regions@,
            )[i2]);
        }
    }
    allocator.init(HEAP_START, HEAP_SIZE);
    Ok(())
}

/// The smallest multiple of `align` that is at least `addr`.
pub open spec fn spec_align_up(addr: int, align: int) -> int
    recommends
        align >= 1,
{
    if addr % align == 0 {
        addr
    } else {
        addr + align - addr % align
    }
}

/// `spec_align_up` really is the least multiple of `align` at or above
/// `addr`: it is divisible by `align` and lies within `align` of `addr`.
pub proof fn lemma_align_up(addr: int, align: int)
    requires
        addr >= 0,
        align >= 1,
    ensures
        spec_align_up(addr, align) % align == 0,
        addr <= spec_align_up(addr, align) < addr + align,
{
    let r = addr % align;
    lemma_fundamental_div_mod(addr, align);
    lemma_mod_division_less_than_divisor(addr, align);
    if r != 0 {
        let q = addr / align;
        assert(align * (q + 1) == align * q + align) by (nonlinear_arith);
        assert(spec_align_up(addr, align) == align * (q + 1)) by {
            assert(addr == align * q + r);
        }
        lemma_mod_multiples_basic(q + 1, align);
    }
}

/// Round `addr` up to the next multiple of `align`.
pub fn align_up(addr: u64, align: u64) -> (r: u64)
    requires
        align >= 1,
        spec_align_up(addr as int, align as int) <= u64::MAX,
    ensures
        r == spec_align_up(addr as int, align as int),
        r % align == 0,
        addr <= r < addr + align,
{
    proof {
        lemma_align_up(addr as int, align as int);
    }
    let rem = addr % align;
    if rem == 0 {
        addr
    } else {
        addr + (align - rem)
    }
}

/// The inert allocator installed before the heap exists: every allocation
/// request fails, and nothing is ever handed out that could come back.
pub struct Dummy;

impl Dummy {
    /// Refuse every request, whatever its size and alignment.
    pub fn allocate(&self, _size: u64, _align: u64) -> (r: Option<u64>)
        ensures
            r is None,
    {
        None
    }
}

} // verus!
