//! Memory-management and interrupt-handling core of a minimal bare-metal
//! kernel, modelled as verified state machines over plain values.
//!
//! The crate covers: translating physical addresses through the fixed
//! whole-memory offset mapping, handing out physical page frames from the
//! boot-supplied memory map, extending the four-level page table, carving a
//! fixed virtual range out for the kernel heap, a bump-style dynamic
//! allocator over that range, and the descriptor-table / interrupt-dispatch
//! protocol (including the dedicated double-fault stack and the
//! end-of-interrupt acknowledgment that keeps interrupts flowing).
//!
//! Hardware register access, port I/O and the interrupt calling convention
//! cannot be expressed here; a thin unverified shell performs those and
//! drives the verified state machines in this crate.

use vstd::prelude::*;

pub mod addr;
pub mod allocator;
pub mod gdt;
pub mod interrupts;
pub mod keyboard;
pub mod memory;
pub mod paging;

verus! {

/// Exit status reported to the emulator's debug exit device by the test
/// harness around the kernel (not part of kernel semantics proper).
#[derive(Debug, Clone, Copy, PartialEq, Eq, Structural)]
pub enum QemuExitCode {
    Success,
    Failed,
}

impl QemuExitCode {
    /// The 32-bit value written to the exit port for this outcome.
    pub fn code(self) -> (c: u32)
        ensures
            self is Success ==> c == 0x10,
            self is Failed ==> c == 0x11,
    {
        match self {
            QemuExitCode::Success => 0x10,
            QemuExitCode::Failed => 0x11,
        }
    }
}

/// Startup ordering of the interrupt subsystem.
///
/// The segment table (with the task-state segment and its reserved
/// double-fault stack) must be loaded before the interrupt table, the
/// interrupt table before the interrupt controllers are initialized, and
/// all three before interrupts are globally enabled.  The unverified shell
/// performs the hardware loads; this record forces it to follow that order.
pub struct InitSequence {
    pub gdt_loaded: bool,
    pub idt_loaded: bool,
    pub pics_initialized: bool,
    pub interrupts_enabled: bool,
}

impl InitSequence {
    /// State at entry, before any table has been loaded.
    pub fn new() -> (s: Self)
        ensures
            !s.gdt_loaded,
            !s.idt_loaded,
            !s.pics_initialized,
            !s.interrupts_enabled,
    {
        InitSequence {
            gdt_loaded: false,
            idt_loaded: false,
            pics_initialized: false,
            interrupts_enabled: false,
        }
    }

    /// Record that the segment table and task-state segment are loaded.
    /// This is the first step: nothing else may have happened yet.
    pub fn record_gdt_loaded(&mut self)
        requires
            !old(self).idt_loaded,
            !old(self).pics_initialized,
            !old(self).interrupts_enabled,
        ensures
            final(self).gdt_loaded,
            final(self).idt_loaded == old(self).idt_loaded,
            final(self).pics_initialized == old(self).pics_initialized,
            final(self).interrupts_enabled == old(self).interrupts_enabled,
    {
        self.gdt_loaded = true;
    }

    /// Record that the interrupt descriptor table is loaded; the segment
    /// table must already be in place (the double-fault entry refers to its
    /// interrupt stack table).
    pub fn record_idt_loaded(&mut self)
        requires
            old(self).gdt_loaded,
            !old(self).pics_initialized,
            !old(self).interrupts_enabled,
        ensures
            final(self).idt_loaded,
            final(self).gdt_loaded == old(self).gdt_loaded,
            final(self).pics_initialized == old(self).pics_initialized,
            final(self).interrupts_enabled == old(self).interrupts_enabled,
    {
        self.idt_loaded = true;
    }

    /// Record that the chained interrupt controllers are initialized; their
    /// vectors must already have handlers installed.
    pub fn record_pics_initialized(&mut self)
        requires
            old(self).gdt_loaded,
            old(self).idt_loaded,
            !old(self).interrupts_enabled,
        ensures
            final(self).pics_initialized,
            final(self).gdt_loaded == old(self).gdt_loaded,
            final(self).idt_loaded == old(self).idt_loaded,
            final(self).interrupts_enabled == old(self).interrupts_enabled,
    {
        self.pics_initialized = true;
    }

    /// Record that interrupts are globally enabled.  Only legal once every
    /// table and controller is ready: enabling earlier could deliver an
    /// interrupt with no handler installed, which escalates to a double and
    /// then a triple fault.
    pub fn record_interrupts_enabled(&mut self)
        requires
            old(self).gdt_loaded,
            old(self).idt_loaded,
            old(self).pics_initialized,
        ensures
            final(self).interrupts_enabled,
            final(self).gdt_loaded == old(self).gdt_loaded,
            final(self).idt_loaded == old(self).idt_loaded,
            final(self).pics_initialized == old(self).pics_initialized,
    {
        self.interrupts_enabled = true;
    }
}

} // verus!
