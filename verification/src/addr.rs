//! Physical and virtual addresses as distinct newtypes.
//!
//! The two kinds of address are never implicitly interchangeable: a
//! physical address names memory described by the boot memory map, a
//! virtual address is only meaningful through a present page-table mapping
//! or through the fixed physical-memory offset.

use vstd::prelude::*;

verus! {

/// Size in bytes of one page of virtual memory and of one frame of
/// physical memory.
pub const PAGE_SIZE: u64 = 4096;

/// An address in physical memory.
#[derive(Debug, Clone, Copy, PartialEq, Eq, Structural)]
pub struct PhysAddr(pub u64);

/// An address in virtual memory.
#[derive(Debug, Clone, Copy, PartialEq, Eq, Structural)]
pub struct VirtAddr(pub u64);

impl PhysAddr {
    /// True when the address is the base of a frame.
    pub open spec fn spec_is_frame_aligned(self) -> bool {
        self.0 % PAGE_SIZE == 0
    }

    pub fn new(addr: u64) -> (r: Self)
        ensures
            r.0 == addr,
    {
        PhysAddr(addr)
    }

    pub fn as_u64(self) -> (r: u64)
        ensures
            r == self.0,
    {
        self.0
    }

    pub fn is_frame_aligned(self) -> (r: bool)
        ensures
            r == self.spec_is_frame_aligned(),
    {
        self.0 % PAGE_SIZE == 0
    }
}

impl VirtAddr {
    /// True when the address is the base of a page.
    pub open spec fn spec_is_page_aligned(self) -> bool {
        self.0 % PAGE_SIZE == 0
    }

    pub fn new(addr: u64) -> (r: Self)
        ensures
            r.0 == addr,
    {
        VirtAddr(addr)
    }

    pub fn as_u64(self) -> (r: u64)
        ensures
            r == self.0,
    {
        self.0
    }

    pub fn is_page_aligned(self) -> (r: bool)
        ensures
            r == self.spec_is_page_aligned(),
    {
        self.0 % PAGE_SIZE == 0
    }
}

} // verus!
