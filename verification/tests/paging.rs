use rust_os::addr::{Page, PhysAddr, PhysFrame, VirtAddr};
use rust_os::mapper::{MapToError, OffsetPageTable, TranslateResult};
use rust_os::memory::{
    create_example_mapping, init, physical_to_virtual, translate_addr, translate_addr_inner,
    BootInfoFrameAllocator,
    EmptyFrameAllocator, FrameAllocator,
};
use rust_os::memory_map::{FrameRange, MemoryMap, MemoryRegion, MemoryRegionType};
use rust_os::paging::{
    FrameError, PageTableEntry, PageTableFlags, PhysicalMemory, HUGE_PAGE, NO_EXECUTE, PRESENT,
    WRITABLE,
};
use rust_os::table_store::TableStore;

const ROOT: u64 = 0x1000;

fn frame(start: u64) -> PhysFrame {
    PhysFrame::from_start_address(PhysAddr::new(start)).unwrap()
}

fn page(start: u64) -> Page {
    Page::from_start_address(VirtAddr::new(start)).unwrap()
}

fn allocator(start: u64, end: u64) -> BootInfoFrameAllocator {
    let mut map = MemoryMap::new();
    let range = FrameRange { start_frame_number: start, end_frame_number: end };
    map.add_region(MemoryRegion { range, region_type: MemoryRegionType::Usable }).unwrap();
    BootInfoFrameAllocator::init(map)
}

fn empty_table() -> OffsetPageTable<TableStore> {
    OffsetPageTable::new_empty(TableStore::new(), frame(ROOT))
}

fn translate(table: &OffsetPageTable<TableStore>, addr: u64) -> Option<u64> {
    match table.translate(VirtAddr::new(addr)) {
        TranslateResult::Mapped(p) => Some(p.as_u64()),
        TranslateResult::NotMapped => None,
        TranslateResult::HugePage => panic!("huge page"),
    }
}

#[test]
fn physical_addresses_have_52_bits() {
    assert_eq!(PhysAddr::try_new(0xf_ffff_ffff_ffff).map(|a| a.as_u64()), Some(0xf_ffff_ffff_ffff));
    assert!(PhysAddr::try_new(0x10_0000_0000_0000).is_none());
    assert!(PhysAddr::try_new(u64::MAX).is_none());
    assert_eq!(PhysAddr::try_new(0).map(|a| a.as_u64()), Some(0));
}

#[test]
fn virtual_addresses_are_made_canonical() {
    assert_eq!(VirtAddr::try_new(0x1234).map(|a| a.as_u64()), Some(0x1234));
    assert_eq!(
        VirtAddr::try_new(0x0000_8000_0000_0000).map(|a| a.as_u64()),
        Some(0xffff_8000_0000_0000)
    );
    assert_eq!(
        VirtAddr::try_new(0xffff_8000_0000_0000).map(|a| a.as_u64()),
        Some(0xffff_8000_0000_0000)
    );
    assert!(VirtAddr::try_new(0x0001_0000_0000_0000).is_none());
    assert!(VirtAddr::try_new(0xfffe_8000_0000_0000).is_none());
}

#[test]
fn address_selects_one_entry_per_level() {
    let addr = VirtAddr::new(0x4444_4444_0123);
    assert_eq!(addr.p4_index(), 136);
    assert_eq!(addr.p3_index(), 273);
    assert_eq!(addr.p2_index(), 34);
    assert_eq!(addr.p1_index(), 64);
    assert_eq!(addr.page_offset(), 0x123);
    let high = VirtAddr::new(0xffff_ffff_ffff_ffff);
    assert_eq!(high.p4_index(), 511);
    assert_eq!(high.p3_index(), 511);
    assert_eq!(high.p2_index(), 511);
    assert_eq!(high.p1_index(), 511);
    assert_eq!(high.page_offset(), 0xfff);
}

#[test]
fn frames_and_pages_start_at_multiples_of_4096() {
    assert_eq!(PhysFrame::containing_address(PhysAddr::new(0xb8123)).start_u64(), 0xb8000);
    assert_eq!(PhysFrame::containing_address(PhysAddr::new(0xb8000)).start_address().as_u64(), 0xb8000);
    assert!(PhysFrame::from_start_address(PhysAddr::new(0xb8001)).is_none());
    let p = Page::containing_address(VirtAddr::new(0xffff_8000_0000_1fff));
    assert_eq!(p.start_address().as_u64(), 0xffff_8000_0000_1000);
    assert!(Page::from_start_address(VirtAddr::new(0x1001)).is_none());
    assert_eq!(page(0x2000).start_address().as_u64(), 0x2000);
}

#[test]
fn entry_holds_frame_and_flags() {
    let mut entry = PageTableEntry::new();
    assert!(entry.is_unused());
    assert_eq!(entry.frame(), Err(FrameError::FrameNotPresent));
    entry.set_frame(frame(0xb8000), PageTableFlags::present_writable());
    assert_eq!(entry.bits(), 0xb8003);
    assert_eq!(entry.addr().as_u64(), 0xb8000);
    assert_eq!(entry.flags().bits(), 3);
    assert_eq!(entry.frame().map(|f| f.start_u64()), Ok(0xb8000));
    let huge = PageTableEntry::from_bits(0x20_0000 | PRESENT | HUGE_PAGE);
    assert_eq!(huge.frame(), Err(FrameError::HugeFrame));
    let absent = PageTableEntry::from_bits(0x20_0000 | WRITABLE);
    assert_eq!(absent.frame(), Err(FrameError::FrameNotPresent));
    entry.set_unused();
    assert_eq!(entry.bits(), 0);
}

#[test]
fn flags_keep_no_address_bits() {
    let flags = PageTableFlags::from_bits_truncate(u64::MAX);
    assert_eq!(flags.bits(), 0xfff0_0000_0000_0fff);
    assert!(flags.contains(NO_EXECUTE));
    assert!(!PageTableFlags::present_writable().contains(HUGE_PAGE));
    assert_eq!(PageTableFlags::empty().union(PageTableFlags::present_writable()).bits(), 3);
}

#[test]
fn empty_table_maps_nothing() {
    let table = empty_table();
    for addr in [0u64, 0x1000, 0xb8000, 0x4444_4444_0000, 0xffff_8000_0000_0000, 0xffff_ffff_ffff_ffff] {
        assert_eq!(table.translate(VirtAddr::new(addr)), TranslateResult::NotMapped);
    }
}

#[test]
fn mapped_page_translates_to_frame_plus_offset() {
    let mut table = empty_table();
    let mut frames = allocator(16, 32);
    let flush = table
        .map_to(page(0x4000_0000), frame(0xb8000), PageTableFlags::present_writable(), &mut frames)
        .unwrap();
    table.flush(flush);
    for offset in [0u64, 1, 0x123, 0x900, 0xfff] {
        assert_eq!(translate(&table, 0x4000_0000 + offset), Some(0xb8000 + offset));
    }
    assert_eq!(translate(&table, 0x4000_1000), None);
    assert_eq!(translate(&table, 0x3fff_ffff), None);
    assert_eq!(translate(&table, 0x4444_4444_0000), None);
    // three tables were made from the first three usable frames
    assert_eq!(frames.allocate_frame().map(|f| f.start_u64()), Some(0x13000));
    assert_eq!(table.into_memory().flushed_pages(), &vec![0x4000_0000]);
}

#[test]
fn neighbours_share_tables() {
    let mut table = empty_table();
    let mut frames = allocator(16, 19);
    let flags = PageTableFlags::present_writable();
    table.map_to(page(0x4000_0000), frame(0xa000), flags, &mut frames).unwrap().ignore();
    // no frame is left, but the next page needs no new table
    assert!(frames.allocate_frame().is_none());
    table.map_to(page(0x4000_1000), frame(0xb000), flags, &mut frames).unwrap().ignore();
    assert_eq!(translate(&table, 0x4000_0010), Some(0xa010));
    assert_eq!(translate(&table, 0x4000_1010), Some(0xb010));
    // a page under another level 2 entry needs a level 1 table
    assert_eq!(
        table.map_to(page(0x4020_0000), frame(0xc000), flags, &mut frames).err(),
        Some(MapToError::FrameAllocationFailed)
    );
    assert_eq!(translate(&table, 0x4020_0000), None);
    assert_eq!(translate(&table, 0x4000_0010), Some(0xa010));
}

#[test]
fn mapping_twice_is_refused() {
    let mut table = empty_table();
    let mut frames = allocator(16, 32);
    let flags = PageTableFlags::present_writable();
    table.map_to(page(0x7000), frame(0xa000), flags, &mut frames).unwrap().ignore();
    assert_eq!(
        table.map_to(page(0x7000), frame(0xb000), flags, &mut frames).err(),
        Some(MapToError::PageAlreadyMapped)
    );
    assert_eq!(translate(&table, 0x7004), Some(0xa004));
}

#[test]
fn mapping_without_frames_fails() {
    let mut table = empty_table();
    let mut none = EmptyFrameAllocator;
    assert_eq!(
        table.map_to(page(0x7000), frame(0xa000), PageTableFlags::present_writable(), &mut none).err(),
        Some(MapToError::FrameAllocationFailed)
    );
    assert_eq!(translate(&table, 0x7000), None);
    // two frames are one too few for three tables; they are used all the same
    let mut two = allocator(16, 18);
    assert_eq!(
        table.map_to(page(0x7000), frame(0xa000), PageTableFlags::present_writable(), &mut two).err(),
        Some(MapToError::FrameAllocationFailed)
    );
    assert!(two.allocate_frame().is_none());
    assert_eq!(translate(&table, 0x7000), None);
    // the two tables stay, so one more frame is enough now
    let mut one = allocator(18, 19);
    table.map_to(page(0x7000), frame(0xa000), PageTableFlags::present_writable(), &mut one).unwrap().ignore();
    assert_eq!(translate(&table, 0x7abc), Some(0xaabc));
}

#[test]
fn huge_parent_entry_is_refused() {
    let mut store = TableStore::new();
    // entry 0 of the root table: a present huge page
    store.write_entry(frame(ROOT), 0, 0x4000_0000 | PRESENT | WRITABLE | HUGE_PAGE);
    let mut table = init(store, frame(ROOT));
    let mut frames = allocator(16, 32);
    assert_eq!(
        table.map_to(page(0x7000), frame(0xa000), PageTableFlags::present_writable(), &mut frames).err(),
        Some(MapToError::ParentEntryHugePage)
    );
    assert_eq!(table.translate(VirtAddr::new(0x7000)), TranslateResult::HugePage);
    assert_eq!(frames.allocate_frame().map(|f| f.start_u64()), Some(0x10000));
}

#[test]
fn mapping_without_present_flag_translates_to_nothing() {
    let mut table = empty_table();
    let mut frames = allocator(16, 32);
    let flags = PageTableFlags::from_bits_truncate(WRITABLE);
    table.map_to(page(0x7000), frame(0xa000), flags, &mut frames).unwrap().ignore();
    assert_eq!(translate(&table, 0x7000), None);
}

#[test]
fn translate_addr_walks_tables_in_memory() {
    let mut store = TableStore::new();
    store.write_entry(frame(0x1000), 136, 0x2000 | 3);
    store.write_entry(frame(0x2000), 273, 0x3000 | 3);
    store.write_entry(frame(0x3000), 34, 0x4000 | 3);
    store.write_entry(frame(0x4000), 64, 0xb8000 | 3);
    assert_eq!(store.read_entry(frame(0x4000), 64), 0xb8003);
    assert_eq!(store.read_entry(frame(0x4000), 65), 0);
    assert_eq!(store.read_entry(frame(0x9000), 0), 0);
    let addr = VirtAddr::new(0x4444_4444_0abc);
    assert_eq!(translate_addr(addr, &store, frame(0x1000)).map(|p| p.as_u64()), Some(0xb8abc));
    assert_eq!(translate_addr(VirtAddr::new(0x4444_4444_1abc), &store, frame(0x1000)), None);
    assert_eq!(translate_addr(addr, &store, frame(0x2000)), None);
    assert_eq!(translate_addr_inner(addr, &store, frame(0x1000)).map(|p| p.as_u64()), Some(0xb8abc));
    assert_eq!(translate_addr_inner(VirtAddr::new(0x4444_4444_1abc), &store, frame(0x1000)), None);
    assert_eq!(translate_addr_inner(VirtAddr::new(0), &store, frame(0x1000)), None);
    // the table's own walk tells a huge page from a page that is not mapped
    store.write_entry(frame(0x3000), 34, 0x4000 | PRESENT | HUGE_PAGE);
    let table = init(store, frame(0x1000));
    assert_eq!(table.translate(addr), TranslateResult::HugePage);
    let mut store = table.into_memory();
    store.write_entry(frame(0x2000), 273, 0x3000);
    let table = init(store, frame(0x1000));
    assert_eq!(table.translate(addr), TranslateResult::NotMapped);
    assert_eq!(translate_addr_inner(addr, table.memory_ref(), frame(0x1000)), None);
}

#[test]
fn example_mapping_points_at_the_text_buffer() {
    let mut table = empty_table();
    let mut frames = allocator(16, 32);
    create_example_mapping(page(0), &mut table, &mut frames);
    assert_eq!(translate(&table, 0), Some(0xb8000));
    assert_eq!(translate(&table, 0x7ff), Some(0xb87ff));
    assert_eq!(table.level_4_frame().start_u64(), ROOT);
    assert_eq!(table.into_memory().flushed_pages(), &vec![0]);
}

#[test]
fn physical_memory_is_found_at_an_offset() {
    let offset = VirtAddr::new(0xffff_8000_0000_0000);
    assert_eq!(
        physical_to_virtual(offset, PhysAddr::new(0x1000)).map(|a| a.as_u64()),
        Some(0xffff_8000_0000_1000)
    );
    assert_eq!(physical_to_virtual(VirtAddr::new(0), PhysAddr::new(0xb8000)).map(|a| a.as_u64()), Some(0xb8000));
    // the sum leaves the 64 bits
    assert!(physical_to_virtual(offset, PhysAddr::new(0x8000_0000_0000)).is_none());
    // the sum falls into the hole between the two halves of the address space
    assert!(physical_to_virtual(VirtAddr::new(0x1000), PhysAddr::new(0xf_ffff_ffff_f000)).is_none());
    // the sum only has bit 47 set above the low bits, and is sign extended
    assert_eq!(
        physical_to_virtual(VirtAddr::new(0x7fff_ffff_f000), PhysAddr::new(0x1000)).map(|a| a.as_u64()),
        Some(0xffff_8000_0000_0000)
    );
}
