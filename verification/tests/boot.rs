use qxg_os::{InitSequence, QemuExitCode};

#[test]
fn trivial_assertion() {
    assert_eq!(1, 1);
}

#[test]
fn qemu_exit_codes() {
    assert_eq!(QemuExitCode::Success.code(), 0x10);
    assert_eq!(QemuExitCode::Failed.code(), 0x11);
    assert_ne!(QemuExitCode::Success, QemuExitCode::Failed);
}

#[test]
fn init_sequence_runs_in_order() {
    let mut seq = InitSequence::new();
    assert!(!seq.gdt_loaded);
    seq.record_gdt_loaded();
    seq.record_idt_loaded();
    seq.record_pics_initialized();
    seq.record_interrupts_enabled();
    assert!(seq.gdt_loaded);
    assert!(seq.idt_loaded);
    assert!(seq.pics_initialized);
    assert!(seq.interrupts_enabled);
}
