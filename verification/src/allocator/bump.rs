//! Bump ("arena") allocator for the kernel heap.
//!
//! Allocation advances a single `next` offset; deallocation only counts
//! live allocations and reclaims the whole region at once when the count
//! reaches zero.  A single allocation that outlives all others therefore
//! pins the whole heap: this trades reuse granularity for O(1) operations
//! and is deliberate for a single-region kernel heap with short-lived,
//! stack-like allocation patterns.  Do not generalize this reclaim policy
//! to a general-purpose allocator without revisiting fragmentation.

use vstd::prelude::*;

verus! {

use crate::allocator::{lemma_align_up, spec_align_up};

/// Allocator state.  It starts inert (all zero, before any heap exists)
/// and is activated exactly once, by the heap region initializer, with the
/// virtual range it will own for the rest of execution.
pub struct BumpAllocator {
    /// First byte of the heap range.
    pub heap_start: u64,
    /// One past the last byte of the heap range: every byte in
    /// `heap_start..heap_end` is usable, and a block may end exactly at
    /// the range's end.
    pub heap_end: u64,
    /// Next free byte; everything in `heap_start..next` is handed out.
    pub next: u64,
    /// Number of live allocations.
    pub allocations: u64,
}

impl BumpAllocator {
    /// The zero-initialized state the allocator has before the heap
    /// region exists.
    pub open spec fn is_inert(self) -> bool {
        &&& self.heap_start == 0
        &&& self.heap_end == 0
        &&& self.next == 0
        &&& self.allocations == 0
    }

    /// The state after initialization: `next` never leaves the heap range.
    pub open spec fn is_active(self) -> bool {
        &&& self.heap_start <= self.next <= self.heap_end
    }

    pub open spec fn wf(self) -> bool {
        self.is_inert() || self.is_active()
    }

    /// A new allocator, inert until `init` hands it the heap range.
    pub fn new() -> (r: Self)
        ensures
            r.is_inert(),
            r.wf(),
    {
        BumpAllocator { heap_start: 0, heap_end: 0, next: 0, allocations: 0 }
    }

    /// Activate the allocator over `[heap_start, heap_start + heap_size)`.
    /// Called exactly once, by the heap region initializer, after that
    /// range has been mapped.
    pub fn init(&mut self, heap_start: u64, heap_size: u64)
        requires
            old(self).is_inert(),
            heap_size >= 1,
            heap_start + heap_size <= u64::MAX,
        ensures
            final(self).heap_start == heap_start,
            final(self).heap_end == heap_start + heap_size,
            final(self).next == heap_start,
            final(self).allocations == 0,
            final(self).is_active(),
    {
        self.heap_start = heap_start;
        self.heap_end = heap_start + heap_size;
        self.next = heap_start;
    }

    /// Allocate `size` bytes aligned to `align`.
    ///
    /// The free offset is rounded up to `align`; the call succeeds
    /// exactly when the block then still fits the heap — its last byte
    /// may be the heap's very last byte.  A block that would cross the
    /// end of the heap (or of the address space) is refused, and the
    /// failed call leaves the allocator exactly as it was.  On success
    /// the returned address starts an unused, in-range, aligned block,
    /// `next` advances past it and the live-allocation count grows by
    /// one.
    pub fn allocate(&mut self, size: u64, align: u64) -> (r: Option<u64>)
        requires
            old(self).is_active(),
            align >= 1,
            old(self).allocations < u64::MAX,
        ensures
            ({
                let start = spec_align_up(old(self).next as int, align as int);
                &&& (r is Some <==> start + size <= old(self).heap_end)
                &&& (r is Some <==> start + size - 1 < old(self).heap_end)
                &&& (r is Some ==> {
                    &&& r == Some(start as u64)
                    &&& final(self).next == start + size
                    &&& final(self).allocations == old(self).allocations + 1
                    &&& final(self).heap_start == old(self).heap_start
                    &&& final(self).heap_end == old(self).heap_end
                })
                &&& (r is None ==> *final(self) == *old(self))
            }),
            r matches Some(a) ==> {
                &&& a % align == 0
                &&& old(self).heap_start <= a
                &&& old(self).next <= a
                &&& a + size <= old(self).heap_end
            },
            final(self).is_active(),
    {
        proof {
            lemma_align_up(self.next as int, align as int);
        }
        let rem = self.next % align;
        let pad: u64 = if rem == 0 {
            0
        } else {
            align - rem
        };
        let alloc_start = match self.next.checked_add(pad) {
            Some(s) => s,
            None => {
                return None;
            },
        };
        let alloc_end = match alloc_start.checked_add(size) {
            Some(e) => e,
            None => {
                return None;
            },
        };
        if alloc_end > self.heap_end {
            None
        } else {
            self.next = alloc_end;
            self.allocations = self.allocations + 1;
            Some(alloc_start)
        }
    }

    /// What one `deallocate` call does to the state.
    pub open spec fn spec_deallocate(s: BumpAllocator) -> BumpAllocator
        recommends
            s.allocations >= 1,
    {
        BumpAllocator {
            heap_start: s.heap_start,
            heap_end: s.heap_end,
            next: if s.allocations == 1 {
                s.heap_start
            } else {
                s.next
            },
            allocations: (s.allocations - 1) as u64,
        }
    }

    /// Release one allocation.  The address and size of the freed block do
    /// not matter to this policy: only the live count is tracked, and when
    /// it reaches zero the whole region is reclaimed in one step by
    /// resetting `next` to the start of the heap.
    ///
    /// Freeing more than was allocated is a caller contract violation, not
    /// defended against at runtime, and is excluded here.
    pub fn deallocate(&mut self, _addr: u64, _size: u64)
        requires
            old(self).is_active(),
            old(self).allocations >= 1,
        ensures
            *final(self) == BumpAllocator::spec_deallocate(*old(self)),
            final(self).allocations == old(self).allocations - 1,
            final(self).heap_start == old(self).heap_start,
            final(self).heap_end == old(self).heap_end,
            final(self).allocations == 0 ==> final(self).next == old(self).heap_start,
            final(self).allocations != 0 ==> final(self).next == old(self).next,
            final(self).is_active(),
    {
        self.allocations = self.allocations - 1;
        if self.allocations == 0 {
            self.next = self.heap_start;
        }
    }

    /// The state after `k` consecutive `deallocate` calls.
    pub open spec fn spec_deallocate_n(s: BumpAllocator, k: nat) -> BumpAllocator
        decreases k,
    {
        if k == 0 {
            s
        } else {
            BumpAllocator::spec_deallocate(BumpAllocator::spec_deallocate_n(s, (k - 1) as nat))
        }
    }
}

/// Reclaim law: from an active allocator with exactly `k >= 1` live
/// allocations, releasing all `k` of them (in any order: `deallocate`
/// ignores which block is freed) leaves the live count at zero and `next`
/// back at `heap_start`, so a following allocation of any size that fits
/// the heap succeeds again at `heap_start`.
pub proof fn lemma_reclaim_resets_heap(s: BumpAllocator, k: nat)
    requires
        s.is_active(),
        s.allocations == k,
        k >= 1,
    ensures
        BumpAllocator::spec_deallocate_n(s, k).allocations == 0,
        BumpAllocator::spec_deallocate_n(s, k).next == s.heap_start,
        BumpAllocator::spec_deallocate_n(s, k).heap_start == s.heap_start,
        BumpAllocator::spec_deallocate_n(s, k).heap_end == s.heap_end,
        BumpAllocator::spec_deallocate_n(s, k).is_active(),
        spec_align_up(BumpAllocator::spec_deallocate_n(s, k).next as int, 1) == s.heap_start,
    decreases k,
{
    if k == 1 {
        assert(BumpAllocator::spec_deallocate_n(s, 0) == s);
        assert(BumpAllocator::spec_deallocate_n(s, 1) == BumpAllocator::spec_deallocate(s));
    } else {
        lemma_intermediate_deallocations(s, (k - 1) as nat);
    }
}

/// After `j < allocations` releases the live count has dropped by `j` and
/// `next` has not moved yet: the region is only reclaimed by the last one.
proof fn lemma_intermediate_deallocations(s: BumpAllocator, j: nat)
    requires
        s.is_active(),
        j < s.allocations,
    ensures
        BumpAllocator::spec_deallocate_n(s, j).allocations == s.allocations - j,
        BumpAllocator::spec_deallocate_n(s, j).next == s.next,
        BumpAllocator::spec_deallocate_n(s, j).heap_start == s.heap_start,
        BumpAllocator::spec_deallocate_n(s, j).heap_end == s.heap_end,
    decreases j,
{
    if j > 0 {
        lemma_intermediate_deallocations(s, (j - 1) as nat);
    }
}

} // verus!
