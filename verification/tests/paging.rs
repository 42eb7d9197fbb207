use qxg_os::addr::{PhysAddr, VirtAddr};
use qxg_os::allocator::bump::BumpAllocator;
use qxg_os::allocator::{init_heap, HEAP_SIZE, HEAP_START};
use qxg_os::memory::{self, BootInfoFrameAllocator, MemoryRegion, MemoryRegionKind};
use qxg_os::paging::{MapToError, PageTable, PageTableFlags};

fn frame_source(frames: u64) -> BootInfoFrameAllocator {
    BootInfoFrameAllocator::init(vec![MemoryRegion {
        start: PhysAddr::new(0x10_0000),
        end: PhysAddr::new(0x10_0000 + frames * 4096),
        kind: MemoryRegionKind::Usable,
    }])
}

#[test]
fn phys_to_virt_applies_offset() {
    let mapper = memory::init(VirtAddr::new(0x5000_0000_0000), PageTable::empty());
    let v = mapper.phys_to_virt(PhysAddr::new(0x1234));
    assert_eq!(v.as_u64(), 0x5000_0000_1234);
}

#[test]
fn translate_unmapped_is_none() {
    let mapper = memory::init(VirtAddr::new(0), PageTable::empty());
    assert!(mapper.translate_addr(VirtAddr::new(0xdead_b000)).is_none());
}

#[test]
fn map_then_translate_round_trip() {
    // Mapping round-trip: after map succeeds, translating the page's base
    // address yields the frame's base; an offset within the page carries
    // through unchanged.
    let mut mapper = memory::init(VirtAddr::new(0), PageTable::empty());
    let mut fa = frame_source(16);
    let page = VirtAddr::new(0x2000_0000_0000);
    let frame = PhysAddr::new(0x7000);
    let flags = PageTableFlags::present_writable();
    assert_eq!(mapper.map_to(page, frame, flags, &mut fa), Ok(()));
    assert_eq!(mapper.translate_addr(page), Some(PhysAddr::new(0x7000)));
    assert_eq!(
        mapper.translate_addr(VirtAddr::new(page.as_u64() + 0x123)),
        Some(PhysAddr::new(0x7123))
    );
    // A neighbouring page stays unmapped.
    assert!(mapper.translate_addr(VirtAddr::new(page.as_u64() + 0x1000)).is_none());
}

#[test]
fn map_never_overwrites_existing_mapping() {
    let mut mapper = memory::init(VirtAddr::new(0), PageTable::empty());
    let mut fa = frame_source(16);
    let page = VirtAddr::new(0x4000_0000);
    let flags = PageTableFlags::present_writable();
    assert_eq!(mapper.map_to(page, PhysAddr::new(0x3000), flags, &mut fa), Ok(()));
    assert_eq!(
        mapper.map_to(page, PhysAddr::new(0x8000), flags, &mut fa),
        Err(MapToError::PageAlreadyMapped)
    );
    // The first association survives the refused second map.
    assert_eq!(mapper.translate_addr(page), Some(PhysAddr::new(0x3000)));
}

#[test]
fn map_fails_when_frames_run_out() {
    let mut mapper = memory::init(VirtAddr::new(0), PageTable::empty());
    // Two frames cannot cover the three intermediate tables a fresh
    // hierarchy needs.
    let mut fa = frame_source(2);
    let r = mapper.map_to(
        VirtAddr::new(0x4000_0000),
        PhysAddr::new(0x3000),
        PageTableFlags::present_writable(),
        &mut fa,
    );
    assert_eq!(r, Err(MapToError::FrameAllocationFailed));
}

#[test]
fn two_pages_map_to_distinct_frames() {
    let mut mapper = memory::init(VirtAddr::new(0), PageTable::empty());
    let mut fa = frame_source(16);
    let flags = PageTableFlags::present_writable();
    let page_a = VirtAddr::new(0x1000_0000);
    let page_b = VirtAddr::new(0x1000_1000);
    assert_eq!(mapper.map_to(page_a, PhysAddr::new(0xa000), flags, &mut fa), Ok(()));
    assert_eq!(mapper.map_to(page_b, PhysAddr::new(0xb000), flags, &mut fa), Ok(()));
    assert_eq!(mapper.translate_addr(page_a), Some(PhysAddr::new(0xa000)));
    assert_eq!(mapper.translate_addr(page_b), Some(PhysAddr::new(0xb000)));
}

#[test]
fn init_heap_maps_range_and_activates_allocator() {
    let mut mapper = memory::init(VirtAddr::new(0), PageTable::empty());
    let mut fa = frame_source(256);
    let mut bump = BumpAllocator::new();
    assert_eq!(init_heap(&mut mapper, &mut fa, &mut bump), Ok(()));
    // Every heap page is reachable afterwards.
    assert!(mapper.translate_addr(VirtAddr::new(HEAP_START)).is_some());
    assert!(mapper.translate_addr(VirtAddr::new(HEAP_START + HEAP_SIZE - 1)).is_some());
    // The allocator owns exactly the heap range and starts at its base.
    assert_eq!(bump.allocate(64, 8), Some(HEAP_START));
}

#[test]
fn heap_accepts_full_size_allocation() {
    // All S bytes of the heap are usable: a single allocation of the
    // whole heap size succeeds.
    let mut mapper = memory::init(VirtAddr::new(0), PageTable::empty());
    let mut fa = frame_source(256);
    let mut bump = BumpAllocator::new();
    assert_eq!(init_heap(&mut mapper, &mut fa, &mut bump), Ok(()));
    assert_eq!(bump.allocate(HEAP_SIZE, 1), Some(HEAP_START));
    assert_eq!(bump.allocate(1, 1), None);
}

#[test]
fn init_heap_rolls_up_frame_exhaustion() {
    let mut mapper = memory::init(VirtAddr::new(0), PageTable::empty());
    let mut fa = frame_source(2);
    let mut bump = BumpAllocator::new();
    assert_eq!(
        init_heap(&mut mapper, &mut fa, &mut bump),
        Err(MapToError::FrameAllocationFailed)
    );
    // No partial heap is usable: the allocator was never activated.
    assert_eq!(bump.allocate(1, 1), None);
}
