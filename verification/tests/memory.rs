use qxg_os::addr::PhysAddr;
use qxg_os::memory::{BootInfoFrameAllocator, MemoryRegion, MemoryRegionKind};

fn region(start: u64, end: u64, kind: MemoryRegionKind) -> MemoryRegion {
    MemoryRegion { start: PhysAddr::new(start), end: PhysAddr::new(end), kind }
}

fn boot_map() -> Vec<MemoryRegion> {
    vec![
        region(0x0000, 0x4000, MemoryRegionKind::Usable),
        region(0x4000, 0x8000, MemoryRegionKind::Reserved),
        region(0x8000, 0xA000, MemoryRegionKind::Usable),
        region(0xA000, 0xB000, MemoryRegionKind::Device),
    ]
}

#[test]
fn usable_frames_enumeration() {
    let fa = BootInfoFrameAllocator::init(boot_map());
    let frames: Vec<u64> = fa.usable_frames().iter().map(|f| f.as_u64()).collect();
    assert_eq!(frames, vec![0x0000, 0x1000, 0x2000, 0x3000, 0x8000, 0x9000]);
}

#[test]
fn allocate_frame_in_order_then_exhausted() {
    let mut fa = BootInfoFrameAllocator::init(boot_map());
    assert_eq!(fa.allocate_frame(), Some(PhysAddr::new(0x0000)));
    assert_eq!(fa.allocate_frame(), Some(PhysAddr::new(0x1000)));
    assert_eq!(fa.allocate_frame(), Some(PhysAddr::new(0x2000)));
    assert_eq!(fa.allocate_frame(), Some(PhysAddr::new(0x3000)));
    assert_eq!(fa.allocate_frame(), Some(PhysAddr::new(0x8000)));
    assert_eq!(fa.allocate_frame(), Some(PhysAddr::new(0x9000)));
    // No reclamation path: once the regions are exhausted, that is final.
    assert_eq!(fa.allocate_frame(), None);
    assert_eq!(fa.allocate_frame(), None);
}

#[test]
fn frames_unique_and_usable() {
    // Frame uniqueness: N successful calls return N pairwise distinct
    // frames, each inside a region marked usable.
    let mut fa = BootInfoFrameAllocator::init(boot_map());
    let mut got: Vec<u64> = Vec::new();
    while let Some(f) = fa.allocate_frame() {
        got.push(f.as_u64());
    }
    for i in 0..got.len() {
        for j in 0..got.len() {
            if i != j {
                assert_ne!(got[i], got[j]);
            }
        }
        let a = got[i];
        let usable = (0x0000..0x4000).contains(&a) || (0x8000..0xA000).contains(&a);
        assert!(usable, "frame {a:#x} lies outside every usable region");
    }
    assert_eq!(got.len(), 6);
}

#[test]
fn empty_memory_map_has_no_frames() {
    let mut fa = BootInfoFrameAllocator::init(Vec::new());
    assert_eq!(fa.allocate_frame(), None);
}

#[test]
fn empty_region_contributes_no_frames() {
    let mut fa = BootInfoFrameAllocator::init(vec![
        region(0x1000, 0x1000, MemoryRegionKind::Usable),
        region(0x2000, 0x3000, MemoryRegionKind::Usable),
    ]);
    assert_eq!(fa.allocate_frame(), Some(PhysAddr::new(0x2000)));
    assert_eq!(fa.allocate_frame(), None);
}
