use rust_os::addr::{PhysAddr, PhysFrame, VirtAddr};
use rust_os::allocator::{init_heap, HEAP_PAGES, HEAP_SIZE, HEAP_START};
use rust_os::mapper::{MapToError, OffsetPageTable, TranslateResult};
use rust_os::memory::{BootInfoFrameAllocator, EmptyFrameAllocator, FrameAllocator};
use rust_os::memory_map::{FrameRange, MemoryMap, MemoryRegion, MemoryRegionType};
use rust_os::paging::PageTableFlags;
use rust_os::table_store::TableStore;

fn allocator(start: u64, end: u64) -> BootInfoFrameAllocator {
    let mut map = MemoryMap::new();
    let range = FrameRange { start_frame_number: start, end_frame_number: end };
    map.add_region(MemoryRegion { range, region_type: MemoryRegionType::Usable }).unwrap();
    BootInfoFrameAllocator::init(map)
}

fn empty_table() -> OffsetPageTable<TableStore> {
    let root = PhysFrame::from_start_address(PhysAddr::new(0x1000)).unwrap();
    OffsetPageTable::new_empty(TableStore::new(), root)
}

fn translate(table: &OffsetPageTable<TableStore>, addr: u64) -> Option<u64> {
    match table.translate(VirtAddr::new(addr)) {
        TranslateResult::Mapped(p) => Some(p.as_u64()),
        _ => None,
    }
}

#[test]
fn heap_constants() {
    assert_eq!(HEAP_START, 0x4444_4444_0000);
    assert_eq!(HEAP_SIZE, 102400);
    assert_eq!(HEAP_PAGES * 4096, HEAP_SIZE);
}

#[test]
fn init_heap_maps_every_page() {
    let mut table = empty_table();
    let mut frames = allocator(0x100, 0x200);
    let region = init_heap(&mut table, &mut frames).unwrap();
    assert_eq!(region.start(), HEAP_START);
    assert_eq!(region.size(), HEAP_SIZE);
    // the first page takes the first frame, three tables follow, then the other pages
    assert_eq!(translate(&table, HEAP_START), Some(0x100000));
    assert_eq!(translate(&table, HEAP_START + 0x1000), Some(0x104000));
    assert_eq!(translate(&table, HEAP_START + 0x2abc), Some(0x105abc));
    for k in 1..25u64 {
        for offset in [0u64, 8, 0xfff] {
            assert_eq!(
                translate(&table, HEAP_START + k * 4096 + offset),
                Some(0x100000 + (k + 3) * 4096 + offset)
            );
        }
    }
    assert_eq!(translate(&table, HEAP_START + HEAP_SIZE - 1), Some(0x11bfff));
    assert_eq!(translate(&table, HEAP_START + HEAP_SIZE), None);
    assert_eq!(translate(&table, HEAP_START - 1), None);
    // 25 frames for pages and 3 for tables are gone
    assert_eq!(frames.allocate_frame().map(|f| f.start_u64()), Some(0x100000 + 28 * 4096));
    let flushed: Vec<u64> = (0..25).map(|k| HEAP_START + k * 4096).collect();
    assert_eq!(table.into_memory().flushed_pages(), &flushed);
}

#[test]
fn init_heap_fails_when_frames_run_out() {
    let mut table = empty_table();
    let mut none = EmptyFrameAllocator;
    assert_eq!(init_heap(&mut table, &mut none).err(), Some(MapToError::FrameAllocationFailed));
    assert_eq!(translate(&table, HEAP_START), None);

    // 27 frames: one short of 25 pages and 3 tables
    let mut table = empty_table();
    let mut frames = allocator(0x100, 0x100 + 27);
    assert_eq!(init_heap(&mut table, &mut frames).err(), Some(MapToError::FrameAllocationFailed));
    assert!(frames.allocate_frame().is_none());
    assert_eq!(translate(&table, HEAP_START + 23 * 4096), Some(0x100000 + 26 * 4096));
    assert_eq!(translate(&table, HEAP_START + 24 * 4096), None);
    assert_eq!(table.into_memory().flushed_pages().len(), 24);

    // exactly 28 frames are enough
    let mut table = empty_table();
    let mut frames = allocator(0x100, 0x100 + 28);
    assert!(init_heap(&mut table, &mut frames).is_ok());
    assert!(frames.allocate_frame().is_none());
}

#[test]
fn init_heap_refuses_a_mapped_heap_page() {
    let mut table = empty_table();
    let mut frames = allocator(0x100, 0x200);
    let page = rust_os::addr::Page::containing_address(VirtAddr::new(HEAP_START + 2 * 4096));
    let frame = PhysFrame::containing_address(PhysAddr::new(0xb8000));
    table.map_to(page, frame, PageTableFlags::present_writable(), &mut frames).unwrap().ignore();
    assert_eq!(init_heap(&mut table, &mut frames).err(), Some(MapToError::PageAlreadyMapped));
    // the two pages before it were mapped, the one in the way is as it was
    assert_eq!(translate(&table, HEAP_START), Some(0x103000));
    assert_eq!(translate(&table, HEAP_START + 4096), Some(0x104000));
    assert_eq!(translate(&table, HEAP_START + 2 * 4096), Some(0xb8000));
    assert_eq!(translate(&table, HEAP_START + 3 * 4096), None);
    // twice in a row: the first page is mapped by now
    assert_eq!(init_heap(&mut table, &mut frames).err(), Some(MapToError::PageAlreadyMapped));
}
