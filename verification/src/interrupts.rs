//! The interrupt descriptor table and the dispatch protocol.
//!
//! Each exception or interrupt vector is Unarmed until the table is
//! built, Armed once the table is loaded, and Live once interrupts are
//! globally enabled (see the init sequence at the crate root).  The
//! handlers here are the decision half of the hardware handlers: what
//! each vector does, whether control returns, and which acknowledgment
//! the interrupt controller is owed.  The unverified shell wires them to
//! the CPU's interrupt calling convention and performs the port I/O.

use vstd::prelude::*;

verus! {

use crate::addr::VirtAddr;
use crate::gdt::{DOUBLE_FAULT_IST_INDEX, DOUBLE_FAULT_STACK_SIZE, TaskStateSegment};
use crate::keyboard::DecodedKey;

/// First vector of the primary interrupt controller: past the 32 vectors
/// the CPU reserves for exceptions.
pub const PIC_1_OFFSET: u8 = 32;

/// First vector of the secondary, chained controller.
pub const PIC_2_OFFSET: u8 = PIC_1_OFFSET + 8;

/// CPU exception vector numbers handled by this kernel.
pub const BREAKPOINT_VECTOR: u8 = 3;

pub const DOUBLE_FAULT_VECTOR: u8 = 8;

pub const PAGE_FAULT_VECTOR: u8 = 14;

/// The external interrupt vectors this kernel services.
#[derive(Debug, Clone, Copy, PartialEq, Eq, Structural)]
pub enum InterruptIndex {
    Timer,
    Keyboard,
}

impl InterruptIndex {
    pub fn as_u8(self) -> (v: u8)
        ensures
            self is Timer ==> v == PIC_1_OFFSET,
            self is Keyboard ==> v == PIC_1_OFFSET + 1,
    {
        match self {
            InterruptIndex::Timer => PIC_1_OFFSET,
            InterruptIndex::Keyboard => PIC_1_OFFSET + 1,
        }
    }

    pub fn as_usize(self) -> (v: usize)
        ensures
            self is Timer ==> v == PIC_1_OFFSET,
            self is Keyboard ==> v == PIC_1_OFFSET + 1,
    {
        self.as_u8() as usize
    }
}

/// How a handler leaves the machine: a resumable fault returns to the
/// interrupted code; a halting fault parks the core in a low-power wait
/// forever — this kernel has no fault recovery policy; an external
/// interrupt returns after acknowledging its controller.
#[derive(Debug, Clone, Copy, PartialEq, Eq, Structural)]
pub enum HandlerKind {
    Resumable,
    Halting,
    External,
}

/// One vector's configuration in the interrupt descriptor table.
#[derive(Debug, Clone, Copy, PartialEq, Eq, Structural)]
pub enum VectorEntry {
    /// No handler installed: taking this vector escalates to a double
    /// fault.
    Missing,
    /// A handler, with an optional stack switch through the task-state
    /// segment's interrupt stack table.
    Present { kind: HandlerKind, stack_switch: Option<u16> },
}

/// The interrupt descriptor table: one entry per vector, built once,
/// immutable after the shell loads it.
pub struct InterruptDescriptorTable {
    pub entries: Vec<VectorEntry>,
}

impl InterruptDescriptorTable {
    pub open spec fn wf(self) -> bool {
        self.entries@.len() == 256
    }
}

/// The table layout this kernel installs: breakpoint resumes; double
/// fault halts on the dedicated stack; page fault halts; the timer and
/// keyboard vectors run external-interrupt handlers.  Every other vector
/// is left without a handler.
pub open spec fn spec_idt_entry(v: int) -> VectorEntry {
    if v == BREAKPOINT_VECTOR {
        VectorEntry::Present { kind: HandlerKind::Resumable, stack_switch: None }
    } else if v == DOUBLE_FAULT_VECTOR {
        VectorEntry::Present {
            kind: HandlerKind::Halting,
            stack_switch: Some(DOUBLE_FAULT_IST_INDEX),
        }
    } else if v == PAGE_FAULT_VECTOR {
        VectorEntry::Present { kind: HandlerKind::Halting, stack_switch: None }
    } else if v == PIC_1_OFFSET || v == PIC_1_OFFSET + 1 {
        VectorEntry::Present { kind: HandlerKind::External, stack_switch: None }
    } else {
        VectorEntry::Missing
    }
}

/// The entry installed for one vector (executable mirror of
/// `spec_idt_entry`).
fn idt_entry(v: usize) -> (e: VectorEntry)
    ensures
        e == spec_idt_entry(v as int),
{
    if v == BREAKPOINT_VECTOR as usize {
        VectorEntry::Present { kind: HandlerKind::Resumable, stack_switch: None }
    } else if v == DOUBLE_FAULT_VECTOR as usize {
        VectorEntry::Present {
            kind: HandlerKind::Halting,
            stack_switch: Some(DOUBLE_FAULT_IST_INDEX),
        }
    } else if v == PAGE_FAULT_VECTOR as usize {
        VectorEntry::Present { kind: HandlerKind::Halting, stack_switch: None }
    } else if v == PIC_1_OFFSET as usize || v == PIC_1_OFFSET as usize + 1 {
        VectorEntry::Present { kind: HandlerKind::External, stack_switch: None }
    } else {
        VectorEntry::Missing
    }
}

/// Build the interrupt descriptor table this kernel runs with.  The
/// double-fault entry switches to the reserved stack recorded in the
/// task-state segment before its handler runs.  The shell loads the
/// result into the CPU's table register (Unarmed to Armed), after the
/// segment table and before interrupts are enabled.
pub fn init_idt() -> (idt: InterruptDescriptorTable)
    ensures
        idt.wf(),
        forall|v: int| 0 <= v < 256 ==> #[trigger] idt.entries@[v] == spec_idt_entry(v),
        idt.entries@[DOUBLE_FAULT_VECTOR as int] == (VectorEntry::Present {
            kind: HandlerKind::Halting,
            stack_switch: Some(DOUBLE_FAULT_IST_INDEX),
        }),
{
    let mut entries: Vec<VectorEntry> = Vec::new();
    let mut v: usize = 0;
    while v < 256
        invariant
            v <= 256,
            entries@.len() == v,
            forall|t: int| 0 <= t < v ==> #[trigger] entries@[t] == spec_idt_entry(t),
        decreases 256 - v,
    {
        entries.push(idt_entry(v));
        v = v + 1;
    }
    InterruptDescriptorTable { entries }
}

/// Double-fault isolation: with the tables this kernel builds, the
/// double-fault vector is configured to switch stacks through the
/// reserved interrupt-stack-table slot, and that slot holds the top of
/// the dedicated range `[stack_start, stack_start + size]` — so the
/// exception frame the CPU pushes on a double fault lands inside the
/// reserved stack, not on the (possibly exhausted) faulting one, and the
/// handler halts the core instead of resuming: no cascading triple
/// fault.
pub proof fn lemma_double_fault_isolated(
    idt: InterruptDescriptorTable,
    tss: TaskStateSegment,
    stack_start: VirtAddr,
)
    requires
        idt.wf(),
        forall|v: int| 0 <= v < 256 ==> #[trigger] idt.entries@[v] == spec_idt_entry(v),
        tss.wf(),
        stack_start.0 + DOUBLE_FAULT_STACK_SIZE <= u64::MAX,
        tss.interrupt_stack_table@[DOUBLE_FAULT_IST_INDEX as int] == Some(
            VirtAddr((stack_start.0 + DOUBLE_FAULT_STACK_SIZE) as u64),
        ),
    ensures
        idt.entries@[DOUBLE_FAULT_VECTOR as int] matches VectorEntry::Present {
            kind,
            stack_switch,
        } && kind is Halting && stack_switch == Some(DOUBLE_FAULT_IST_INDEX),
        tss.interrupt_stack_table@[DOUBLE_FAULT_IST_INDEX as int] matches Some(top)
            && stack_start.0 < top.0 <= stack_start.0 + DOUBLE_FAULT_STACK_SIZE,
{
    assert(idt.entries@[DOUBLE_FAULT_VECTOR as int] == spec_idt_entry(DOUBLE_FAULT_VECTOR as int));
}

/// The two chained 8-bit interrupt controllers.  After initialization
/// each serves eight vectors starting at its offset.  Delivery is
/// modelled with an in-service latch: a controller with an
/// unacknowledged interrupt delivers nothing further, which is exactly
/// why every external-interrupt handler must send the end-of-interrupt
/// acknowledgment before returning.
pub struct ChainedPics {
    pub offset1: u8,
    pub offset2: u8,
    pub initialized: bool,
    pub in_service: Option<u8>,
}

impl ChainedPics {
    /// The vectors this pair of controllers serves.
    pub open spec fn handles_vector(self, v: u8) -> bool {
        ||| self.offset1 <= v < self.offset1 + 8
        ||| self.offset2 <= v < self.offset2 + 8
    }

    /// A further interrupt can be delivered: the controllers are set up
    /// and no prior delivery awaits its acknowledgment.
    pub open spec fn can_deliver(self) -> bool {
        self.initialized && self.in_service is None
    }

    /// A controller pair remapped to the given offsets.  The offsets
    /// must clear the 32 CPU-reserved exception vectors, or a device
    /// interrupt would be taken for a fault.
    pub fn new(offset1: u8, offset2: u8) -> (p: Self)
        requires
            offset1 >= 32,
            offset2 >= 32,
            offset1 + 8 <= u8::MAX,
            offset2 + 8 <= u8::MAX,
        ensures
            p.offset1 == offset1,
            p.offset2 == offset2,
            !p.initialized,
            p.in_service is None,
    {
        ChainedPics { offset1, offset2, initialized: false, in_service: None }
    }

    /// Program the controllers (the shell performs the port writes).
    /// Until this has run no device interrupt is delivered.
    pub fn initialize(&mut self)
        requires
            !old(self).initialized,
        ensures
            final(self).offset1 == old(self).offset1,
            final(self).offset2 == old(self).offset2,
            final(self).initialized,
            final(self).in_service is None,
            final(self).can_deliver(),
    {
        self.initialized = true;
        self.in_service = None;
    }

    /// A device interrupt arrives: the controller latches it as
    /// in-service and will deliver nothing further until acknowledged.
    pub fn deliver(&mut self, vector: u8)
        requires
            old(self).can_deliver(),
            old(self).handles_vector(vector),
        ensures
            final(self).offset1 == old(self).offset1,
            final(self).offset2 == old(self).offset2,
            final(self).initialized,
            final(self).in_service == Some(vector),
    {
        self.in_service = Some(vector);
    }

    /// Acknowledge the in-service interrupt (the shell performs the
    /// end-of-interrupt port write).  Afterwards delivery is possible
    /// again: this call, made by every external-interrupt handler before
    /// it returns, is what keeps interrupts flowing.
    pub fn notify_end_of_interrupt(&mut self, vector: u8)
        requires
            old(self).initialized,
            old(self).in_service == Some(vector),
        ensures
            final(self).offset1 == old(self).offset1,
            final(self).offset2 == old(self).offset2,
            final(self).initialized,
            final(self).in_service is None,
            final(self).can_deliver(),
    {
        self.in_service = None;
    }
}

/// Breakpoint exception: diagnostic only; the shell logs the stack frame
/// and execution resumes where it stopped.
pub fn breakpoint_handler() -> (r: HandlerKind)
    ensures
        r is Resumable,
{
    HandlerKind::Resumable
}

/// Double fault: the kernel state is unrecoverable; the shell logs the
/// stack frame and the core halts permanently.  Runs on the reserved
/// stack (see `lemma_double_fault_isolated`).
pub fn double_fault_handler() -> (r: HandlerKind)
    ensures
        r is Halting,
{
    HandlerKind::Halting
}

/// Page fault: the faulting address (read from the CPU's fault-address
/// register) and the access-violation code are logged by the shell; this
/// kernel has no recovery policy, so the core halts in a low-power wait.
pub fn page_fault_handler(_accessed_address: VirtAddr, _error_code: u64) -> (r: HandlerKind)
    ensures
        r is Halting,
{
    HandlerKind::Halting
}

/// Timer interrupt: no device work, but the controller must be
/// acknowledged before returning or no further timer (or lower-priority)
/// interrupt would ever be delivered.
pub fn timer_interrupt_handler(pics: &mut ChainedPics)
    requires
        old(pics).initialized,
        old(pics).in_service == Some(PIC_1_OFFSET),
    ensures
        final(pics).offset1 == old(pics).offset1,
        final(pics).offset2 == old(pics).offset2,
        final(pics).initialized,
        final(pics).can_deliver(),
{
    let eoi = InterruptIndex::Timer.as_u8();
    pics.notify_end_of_interrupt(eoi);
}

/// Keyboard interrupt: the scancode byte (read by the shell from port
/// 0x60 — the byte must be taken out or the device raises no further
/// interrupt) is fed to the decoder; the decoded key, if any, is
/// returned for the shell to print.  The controller is acknowledged
/// before returning, whatever the decoder produced.
pub fn keyboard_interrupt_handler(
    pics: &mut ChainedPics,
    keyboard: &mut crate::keyboard::KeyboardState,
    scancode: u8,
) -> (key: Option<DecodedKey>)
    requires
        old(pics).initialized,
        old(pics).in_service == Some((PIC_1_OFFSET + 1) as u8),
    ensures
        final(pics).offset1 == old(pics).offset1,
        final(pics).offset2 == old(pics).offset2,
        final(pics).initialized,
        final(pics).can_deliver(),
{
    let key = crate::keyboard::decode_scancode(keyboard, scancode);
    let eoi = InterruptIndex::Keyboard.as_u8();
    pics.notify_end_of_interrupt(eoi);
    key
}

/// An external interrupt to be serviced: the timer tick, or a keyboard
/// byte already read from the data port.
#[derive(Debug, Clone, Copy, PartialEq, Eq, Structural)]
pub enum ExternalInterrupt {
    Timer,
    Keyboard(u8),
}

/// What servicing one external interrupt does to the controller state:
/// deliver, handle, acknowledge — nothing, in the end.
pub open spec fn spec_service_external(p: ChainedPics) -> ChainedPics {
    ChainedPics { in_service: None, ..p }
}

/// The controller state after a run of `n` serviced interrupts.
pub open spec fn pics_after_services(p: ChainedPics, n: nat) -> ChainedPics
    decreases n,
{
    if n == 0 {
        p
    } else {
        spec_service_external(pics_after_services(p, (n - 1) as nat))
    }
}

/// Service one external interrupt end to end: the controller delivers
/// it, the vector's handler runs, and the controller is acknowledged.
/// The controller comes out exactly as it went in — ready to deliver
/// the next interrupt.
pub fn service_external_interrupt(
    pics: &mut ChainedPics,
    keyboard: &mut crate::keyboard::KeyboardState,
    event: ExternalInterrupt,
) -> (key: Option<DecodedKey>)
    requires
        old(pics).can_deliver(),
        old(pics).offset1 == PIC_1_OFFSET,
        old(pics).offset1 + 8 <= u8::MAX,
    ensures
        *final(pics) == spec_service_external(*old(pics)),
        *final(pics) == *old(pics),
        final(pics).can_deliver(),
        event is Timer ==> key is None,
{
    match event {
        ExternalInterrupt::Timer => {
            let v = InterruptIndex::Timer.as_u8();
            pics.deliver(v);
            timer_interrupt_handler(pics);
            None
        },
        ExternalInterrupt::Keyboard(scancode) => {
            let v = InterruptIndex::Keyboard.as_u8();
            pics.deliver(v);
            keyboard_interrupt_handler(pics, keyboard, scancode)
        },
    }
}

/// Interrupt acknowledgment liveness: every serviced external interrupt
/// is acknowledged before its handler returns, so after any number of
/// serviced timer interrupts the controller can still deliver a
/// subsequent interrupt of the same or lower priority — acknowledgment
/// was sent each time, not just the first.
pub proof fn lemma_interrupt_liveness(p: ChainedPics, n: nat)
    requires
        p.can_deliver(),
    ensures
        pics_after_services(p, n).can_deliver(),
        pics_after_services(p, n) == p,
    decreases n,
{
    if n > 0 {
        lemma_interrupt_liveness(p, (n - 1) as nat);
    }
}

} // verus!
