use qxg_os::allocator::bump::BumpAllocator;
use qxg_os::allocator::{align_up, Dummy};

#[test]
fn align_up_exact_values() {
    assert_eq!(align_up(0, 1), 0);
    assert_eq!(align_up(13, 8), 16);
    assert_eq!(align_up(16, 8), 16);
    assert_eq!(align_up(4095, 4096), 4096);
    assert_eq!(align_up(4096, 4096), 4096);
    assert_eq!(align_up(1, 1), 1);
}

#[test]
fn bump_new_is_inert() {
    let mut bump = BumpAllocator::new();
    // Nothing can be carved out of an allocator with no heap.
    assert_eq!(bump.allocate(1, 1), None);
}

#[test]
fn bump_allocate_alignment() {
    // Allocator alignment: every successful allocation is divisible by its
    // alignment and ends inside the heap range.
    let mut bump = BumpAllocator::new();
    bump.init(0x1000, 0x1000);
    let a = bump.allocate(10, 8).unwrap();
    assert_eq!(a % 8, 0);
    assert_eq!(a, 0x1000);
    let b = bump.allocate(5, 16).unwrap();
    assert_eq!(b % 16, 0);
    assert_eq!(b, 0x1010);
    let c = bump.allocate(1, 64).unwrap();
    assert_eq!(c % 64, 0);
    assert_eq!(c, 0x1040);
    assert!(c + 1 - 1 <= 0x1fff);
}

#[test]
fn bump_exhaustion_leaves_state_unchanged() {
    // Allocator exhaustion: the allocation that would cross the end of the
    // heap fails, and the failed call changes nothing.
    let mut bump = BumpAllocator::new();
    bump.init(0x1000, 0x1000);
    assert_eq!(bump.allocate(0x800, 1), Some(0x1000));
    // 0x1800 + 0x900 crosses the end of the heap.
    assert_eq!(bump.allocate(0x900, 1), None);
    // The failed call left `next` where it was: an exact fit still
    // succeeds at the same offset the failed one was tried at, ending on
    // the heap's very last byte.
    assert_eq!(bump.allocate(0x800, 1), Some(0x1800));
    assert_eq!(bump.allocate(1, 1), None);
}

#[test]
fn bump_reclaim_after_all_freed() {
    // Reclaim idempotence: allocate K blocks, free all K in a scrambled
    // order; the whole region is reclaimed and the next allocation starts
    // again at the bottom of the heap.
    let mut bump = BumpAllocator::new();
    bump.init(0x8000, 0x2000);
    let a = bump.allocate(0x100, 8).unwrap();
    let b = bump.allocate(0x200, 8).unwrap();
    let c = bump.allocate(0x300, 8).unwrap();
    assert_eq!(a, 0x8000);
    bump.deallocate(b, 0x200);
    bump.deallocate(a, 0x100);
    bump.deallocate(c, 0x300);
    // The whole region was reclaimed: even an allocation of the full
    // heap size succeeds again at the bottom.
    assert_eq!(bump.allocate(0x2000, 1), Some(0x8000));
}

#[test]
fn bump_partial_free_does_not_reclaim() {
    // One surviving allocation pins the whole heap: freed space in the
    // middle is not reused until the live count reaches zero.
    let mut bump = BumpAllocator::new();
    bump.init(0x8000, 0x2000);
    let a = bump.allocate(0x100, 1).unwrap();
    let _b = bump.allocate(0x100, 1).unwrap();
    bump.deallocate(a, 0x100);
    assert_eq!(bump.allocate(0x100, 1), Some(0x8200));
}

#[test]
fn bump_zero_size_allocation() {
    let mut bump = BumpAllocator::new();
    bump.init(0x1000, 0x10);
    assert_eq!(bump.allocate(0, 4), Some(0x1000));
}

#[test]
fn dummy_allocator_always_fails() {
    let dummy = Dummy;
    assert_eq!(dummy.allocate(1, 1), None);
    assert_eq!(dummy.allocate(4096, 4096), None);
}
