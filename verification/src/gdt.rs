//! Segment descriptor table and task-state segment.
//!
//! Built exactly once at startup and read-only afterwards.  The
//! task-state segment reserves a dedicated stack for the double-fault
//! handler: a double fault is frequently caused by stack exhaustion, and
//! re-using the faulting stack would push the exception frame into the
//! guard page again, escalating to an unrecoverable triple fault.  The
//! unverified shell loads the built tables into the CPU registers.

use vstd::prelude::*;

verus! {

use crate::addr::VirtAddr;

/// Interrupt-stack-table slot reserved for the double-fault handler.
pub const DOUBLE_FAULT_IST_INDEX: u16 = 0;

/// Size in bytes of the dedicated double-fault stack.
pub const DOUBLE_FAULT_STACK_SIZE: u64 = 4096 * 5;

/// Number of interrupt-stack-table slots a task-state segment holds.
pub const IST_ENTRIES: usize = 7;

/// Task-state segment: in long mode it carries only the stack tables;
/// each interrupt-stack-table slot optionally holds the top of a
/// pre-reserved stack (stacks grow downward from the recorded address).
pub struct TaskStateSegment {
    pub interrupt_stack_table: Vec<Option<VirtAddr>>,
}

impl TaskStateSegment {
    pub open spec fn wf(self) -> bool {
        self.interrupt_stack_table@.len() == IST_ENTRIES
    }

    /// A fresh segment with every stack slot unused.
    pub fn new() -> (t: Self)
        ensures
            t.wf(),
            forall|i: int| 0 <= i < IST_ENTRIES ==> #[trigger] t.interrupt_stack_table@[i]
                is None,
    {
        let mut ist: Vec<Option<VirtAddr>> = Vec::new();
        let mut i: usize = 0;
        while i < IST_ENTRIES
            invariant
                i <= IST_ENTRIES,
                ist@.len() == i,
                forall|t: int| 0 <= t < i ==> #[trigger] ist@[t] is None,
            decreases IST_ENTRIES - i,
        {
            ist.push(None);
            i = i + 1;
        }
        TaskStateSegment { interrupt_stack_table: ist }
    }
}

/// Build the task-state segment over the reserved double-fault stack,
/// whose backing storage starts at `double_fault_stack_start`.  The slot
/// records the stack's top: the end of the reserved range, since the CPU
/// pushes downward from there.
pub fn build_tss(double_fault_stack_start: VirtAddr) -> (t: TaskStateSegment)
    requires
        double_fault_stack_start.0 + DOUBLE_FAULT_STACK_SIZE <= u64::MAX,
    ensures
        t.wf(),
        t.interrupt_stack_table@[DOUBLE_FAULT_IST_INDEX as int] == Some(
            VirtAddr((double_fault_stack_start.0 + DOUBLE_FAULT_STACK_SIZE) as u64),
        ),
        forall|i: int|
            0 <= i < IST_ENTRIES && i != DOUBLE_FAULT_IST_INDEX ==> #[trigger] t
                .interrupt_stack_table@[i] is None,
{
    let mut tss = TaskStateSegment::new();
    let stack_top = VirtAddr(double_fault_stack_start.0 + DOUBLE_FAULT_STACK_SIZE);
    let ghost before = tss.interrupt_stack_table@;
    let slot: &mut Option<VirtAddr> = &mut tss.interrupt_stack_table[DOUBLE_FAULT_IST_INDEX
        as usize];
    *slot = Some(stack_top);
    proof {
        assert(tss.interrupt_stack_table@ == before.update(
            DOUBLE_FAULT_IST_INDEX as int,
            Some(stack_top),
        ));
    }
    tss
}

/// A descriptor held by the global descriptor table.
#[derive(Debug, Clone, Copy, PartialEq, Eq, Structural)]
pub enum Descriptor {
    /// The 64-bit kernel code segment.
    KernelCodeSegment,
    /// The system segment referring to the task-state segment.
    TssSegment,
}

/// A selector the CPU uses to name a loaded descriptor; slot 0 is the
/// mandatory null descriptor, kept implicit, so real entries start at 1.
#[derive(Debug, Clone, Copy, PartialEq, Eq, Structural)]
pub struct SegmentSelector {
    pub index: u16,
}

/// The global descriptor table.  Long mode no longer segments memory,
/// but the table still carries the kernel code descriptor and the
/// task-state segment reference.
pub struct GlobalDescriptorTable {
    pub entries: Vec<Descriptor>,
}

impl GlobalDescriptorTable {
    pub fn new() -> (g: Self)
        ensures
            g.entries@.len() == 0,
    {
        GlobalDescriptorTable { entries: Vec::new() }
    }

    /// Append a descriptor and return the selector naming it.
    pub fn add_entry(&mut self, d: Descriptor) -> (s: SegmentSelector)
        requires
            old(self).entries@.len() + 1 <= u16::MAX,
        ensures
            final(self).entries@ == old(self).entries@.push(d),
            s.index == old(self).entries@.len() + 1,
    {
        self.entries.push(d);
        SegmentSelector { index: (self.entries.len()) as u16 }
    }
}

/// The selectors the startup code must load: the kernel code segment
/// into the code-segment register, the task-state segment via its
/// selector.
#[derive(Debug, Clone, Copy, PartialEq, Eq, Structural)]
pub struct Selectors {
    pub code_selector: SegmentSelector,
    pub tss_selector: SegmentSelector,
}

/// Build the descriptor tables loaded at startup: a kernel code segment,
/// the task-state segment carrying the reserved double-fault stack, and
/// the selectors for both.  The unverified shell loads the table, reloads
/// the code-segment register and loads the task-state selector — before
/// the interrupt table is installed and before interrupts are enabled.
pub fn init(double_fault_stack_start: VirtAddr) -> (r: (
    GlobalDescriptorTable,
    Selectors,
    TaskStateSegment,
))
    requires
        double_fault_stack_start.0 + DOUBLE_FAULT_STACK_SIZE <= u64::MAX,
    ensures
        r.0.entries@.len() == 2,
        r.0.entries@[0] is KernelCodeSegment,
        r.0.entries@[1] is TssSegment,
        r.1.code_selector.index == 1,
        r.1.tss_selector.index == 2,
        r.2.wf(),
        r.2.interrupt_stack_table@[DOUBLE_FAULT_IST_INDEX as int] == Some(
            VirtAddr((double_fault_stack_start.0 + DOUBLE_FAULT_STACK_SIZE) as u64),
        ),
{
    let tss = build_tss(double_fault_stack_start);
    let mut gdt = GlobalDescriptorTable::new();
    let code_selector = gdt.add_entry(Descriptor::KernelCodeSegment);
    let tss_selector = gdt.add_entry(Descriptor::TssSegment);
    (gdt, Selectors { code_selector, tss_selector }, tss)
}

} // verus!
