use qxg_os::interrupts::{
    breakpoint_handler, double_fault_handler, init_idt, page_fault_handler,
    service_external_interrupt, ChainedPics, ExternalInterrupt, HandlerKind, InterruptIndex,
    VectorEntry, DOUBLE_FAULT_VECTOR, PIC_1_OFFSET, PIC_2_OFFSET,
};
use qxg_os::addr::VirtAddr;
use qxg_os::gdt::DOUBLE_FAULT_IST_INDEX;
use qxg_os::keyboard::{new_keyboard, DecodedKey};

#[test]
fn interrupt_index_vectors() {
    assert_eq!(PIC_1_OFFSET, 32);
    assert_eq!(PIC_2_OFFSET, 40);
    assert_eq!(InterruptIndex::Timer.as_u8(), 32);
    assert_eq!(InterruptIndex::Keyboard.as_u8(), 33);
    assert_eq!(InterruptIndex::Timer.as_usize(), 32);
    assert_eq!(InterruptIndex::Keyboard.as_usize(), 33);
}

#[test]
fn idt_layout() {
    let idt = init_idt();
    assert_eq!(idt.entries.len(), 256);
    assert_eq!(
        idt.entries[3],
        VectorEntry::Present { kind: HandlerKind::Resumable, stack_switch: None }
    );
    assert_eq!(
        idt.entries[DOUBLE_FAULT_VECTOR as usize],
        VectorEntry::Present {
            kind: HandlerKind::Halting,
            stack_switch: Some(DOUBLE_FAULT_IST_INDEX),
        }
    );
    assert_eq!(
        idt.entries[14],
        VectorEntry::Present { kind: HandlerKind::Halting, stack_switch: None }
    );
    assert_eq!(
        idt.entries[32],
        VectorEntry::Present { kind: HandlerKind::External, stack_switch: None }
    );
    assert_eq!(
        idt.entries[33],
        VectorEntry::Present { kind: HandlerKind::External, stack_switch: None }
    );
    // Everything else is left unhandled.
    for v in 0..256 {
        if ![3usize, 8, 14, 32, 33].contains(&v) {
            assert_eq!(idt.entries[v], VectorEntry::Missing);
        }
    }
}

#[test]
fn fault_handlers_resolutions() {
    assert_eq!(breakpoint_handler(), HandlerKind::Resumable);
    assert_eq!(double_fault_handler(), HandlerKind::Halting);
    assert_eq!(page_fault_handler(VirtAddr::new(0xdead_beaf), 0x2), HandlerKind::Halting);
}

#[test]
fn timer_interrupts_keep_acknowledging() {
    // Interrupt acknowledgment liveness: after N serviced timer
    // interrupts, a subsequent interrupt (same or lower priority) is
    // still delivered and serviced.
    let mut pics = ChainedPics::new(PIC_1_OFFSET, PIC_2_OFFSET);
    pics.initialize();
    let mut keyboard = new_keyboard();
    for _ in 0..1000 {
        let key = service_external_interrupt(&mut pics, &mut keyboard, ExternalInterrupt::Timer);
        assert!(key.is_none());
    }
    // The keyboard interrupt, lower priority than the timer, still comes
    // through and is fully serviced.
    let key = service_external_interrupt(
        &mut pics,
        &mut keyboard,
        ExternalInterrupt::Keyboard(0x1E),
    );
    assert!(matches!(key, Some(DecodedKey::Unicode('a'))));
    // And the controller is ready again afterwards.
    let key = service_external_interrupt(&mut pics, &mut keyboard, ExternalInterrupt::Timer);
    assert!(key.is_none());
}

#[test]
fn pics_state_after_initialize() {
    let mut pics = ChainedPics::new(PIC_1_OFFSET, PIC_2_OFFSET);
    assert_eq!(pics.offset1, 32);
    assert_eq!(pics.offset2, 40);
    assert!(!pics.initialized);
    pics.initialize();
    assert!(pics.initialized);
    assert!(pics.in_service.is_none());
}
