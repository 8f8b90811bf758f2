use rust_os::addr::PhysFrame;
use rust_os::memory::{BootInfoFrameAllocator, EmptyFrameAllocator, FrameAllocator};
use rust_os::memory_map::{FrameRange, MemoryMap, MemoryRegion, MemoryRegionType, RegionError};

fn region(start: u64, end: u64, region_type: MemoryRegionType) -> MemoryRegion {
    MemoryRegion { range: FrameRange { start_frame_number: start, end_frame_number: end }, region_type }
}

fn starts(frames: &[PhysFrame]) -> Vec<u64> {
    frames.iter().map(|f| f.start_u64()).collect()
}

#[test]
fn empty_allocator_never_allocates() {
    let mut allocator = EmptyFrameAllocator;
    for _ in 0..10 {
        assert!(allocator.allocate_frame().is_none());
    }
}

#[test]
fn usable_frames_skip_reserved_regions() {
    let mut map = MemoryMap::new();
    assert_eq!(map.add_region(region(0, 1, MemoryRegionType::FrameZero)), Ok(()));
    assert_eq!(map.add_region(region(1, 3, MemoryRegionType::Usable)), Ok(()));
    assert_eq!(map.add_region(region(3, 16, MemoryRegionType::Kernel)), Ok(()));
    assert_eq!(map.add_region(region(16, 18, MemoryRegionType::Usable)), Ok(()));
    let allocator = BootInfoFrameAllocator::init(map);
    assert_eq!(starts(&allocator.usable_frames()), vec![0x1000, 0x2000, 0x10000, 0x11000]);
}

#[test]
fn allocation_is_monotonic_and_then_exhausted() {
    let mut map = MemoryMap::new();
    assert_eq!(map.add_region(region(5, 7, MemoryRegionType::Usable)), Ok(()));
    assert_eq!(map.add_region(region(7, 9, MemoryRegionType::Reserved)), Ok(()));
    assert_eq!(map.add_region(region(2, 3, MemoryRegionType::Usable)), Ok(()));
    let mut allocator = BootInfoFrameAllocator::init(map);
    let mut seen = Vec::new();
    while let Some(frame) = allocator.allocate_frame() {
        assert!(!seen.contains(&frame.start_u64()));
        seen.push(frame.start_u64());
    }
    assert_eq!(seen, vec![0x5000, 0x6000, 0x2000]);
    for _ in 0..5 {
        assert!(allocator.allocate_frame().is_none());
    }
}

#[test]
fn memory_map_rejects_invalid_regions() {
    let mut map = MemoryMap::new();
    assert_eq!(map.add_region(region(4, 8, MemoryRegionType::Usable)), Ok(()));
    assert_eq!(map.add_region(region(7, 9, MemoryRegionType::Usable)), Err(RegionError::Overlap));
    assert_eq!(map.add_region(region(4, 8, MemoryRegionType::Usable)), Err(RegionError::Overlap));
    assert_eq!(map.add_region(region(7, 9, MemoryRegionType::Reserved)), Ok(()));
    assert_eq!(
        map.add_region(region(0x100_0000_0000, 0x100_0000_0001, MemoryRegionType::Usable)),
        Err(RegionError::OutOfBounds)
    );
    assert_eq!(map.len(), 2);
    for _ in 0..62 {
        assert_eq!(map.add_region(region(0, 0, MemoryRegionType::Empty)), Ok(()));
    }
    assert_eq!(map.add_region(region(0, 0, MemoryRegionType::Empty)), Err(RegionError::TooManyRegions));
}
