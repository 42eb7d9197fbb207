use qxg_os::addr::VirtAddr;
use qxg_os::gdt::{
    init, Descriptor, DOUBLE_FAULT_IST_INDEX, DOUBLE_FAULT_STACK_SIZE,
};

#[test]
fn descriptor_tables_layout() {
    let stack_start = VirtAddr::new(0x0000_7fff_0000_0000);
    let (gdt, selectors, tss) = init(stack_start);
    assert_eq!(gdt.entries.len(), 2);
    assert_eq!(gdt.entries[0], Descriptor::KernelCodeSegment);
    assert_eq!(gdt.entries[1], Descriptor::TssSegment);
    assert_eq!(selectors.code_selector.index, 1);
    assert_eq!(selectors.tss_selector.index, 2);
    // The double-fault stack slot holds the top of the reserved range:
    // the CPU pushes the exception frame downward from there, inside the
    // dedicated stack rather than the faulting one.
    let top = tss.interrupt_stack_table[DOUBLE_FAULT_IST_INDEX as usize].unwrap();
    assert_eq!(top.as_u64(), stack_start.as_u64() + DOUBLE_FAULT_STACK_SIZE);
    assert!(top.as_u64() > stack_start.as_u64());
    assert!(top.as_u64() <= stack_start.as_u64() + DOUBLE_FAULT_STACK_SIZE);
    // The reserved stack is five pages.
    assert_eq!(DOUBLE_FAULT_STACK_SIZE, 5 * 4096);
    // Every other stack slot is unused.
    for i in 0..7 {
        if i != DOUBLE_FAULT_IST_INDEX as usize {
            assert!(tss.interrupt_stack_table[i].is_none());
        }
    }
}
