//! Physical frame allocation, and translation of virtual addresses.

use crate::addr::{canonical_form, table_index, Page, PhysAddr, PhysFrame, VirtAddr};
use crate::mapper::{
    reachable_tables, shared_levels, table_at, tables_created, taken, walk,
    walk_after_map,
    walk_at_leaf, walk_at_level, OffsetPageTable, TablePath, Walk, is_tree,
};
use crate::paging::{
    entry_address, FrameError, PageTableEntry, PageTableFlags, PhysicalMemory,
};
use crate::memory_map::{
    regions_valid, usable_frames, MemoryMap, MemoryRegion, MemoryRegionType, FRAME_NUMBER_LIMIT,
};
use vstd::prelude::*;

verus! {

/// Whether no value occurs twice in `frames`.
pub open spec fn distinct(frames: Seq<int>) -> bool {
    forall|i: int, j: int| 0 <= i < j < frames.len() ==> frames[i] != frames[j]
}

/// Whether every value of `frames` is the first address of a frame.
pub open spec fn all_frame_starts(frames: Seq<int>) -> bool {
    forall|i: int| 0 <= i < frames.len() ==> PhysFrame::is_frame_start(#[trigger] frames[i])
}

/// A source of unused physical frames.
pub trait FrameAllocator {
    spec fn wf(&self) -> bool;

    /// The frames that the coming calls will hand out, in that order.
    spec fn remaining(&self) -> Seq<int>;

    /// A valid allocator never hands out a frame twice.
    proof fn remaining_is_distinct(&self)
        requires
            self.wf(),
        ensures
            distinct(self.remaining()),
            all_frame_starts(self.remaining()),
    ;

    /// Hands out the next unused frame, or `None` when none is left.
    fn allocate_frame(&mut self) -> (r: Option<PhysFrame>)
        requires
            old(self).wf(),
        ensures
            final(self).wf(),
            old(self).remaining().len() == 0 ==> r is None && final(self).remaining() == old(
                self,
            ).remaining(),
            old(self).remaining().len() > 0 ==> r is Some && r.unwrap()@ == old(
                self,
            ).remaining()[0] && final(self).remaining() == old(self).remaining().drop_first(),
    ;
}

/// An allocator that never has a frame.
#[derive(Debug)]
pub struct EmptyFrameAllocator;

impl FrameAllocator for EmptyFrameAllocator {
    open spec fn wf(&self) -> bool {
        true
    }

    open spec fn remaining(&self) -> Seq<int> {
        Seq::empty()
    }

    proof fn remaining_is_distinct(&self) {
    }

    fn allocate_frame(&mut self) -> (r: Option<PhysFrame>) {
        None
    }
}

/// Hands out the usable frames of a memory map, each once, in map order.
#[derive(Debug)]
pub struct BootInfoFrameAllocator {
    memory_map: MemoryMap,
    next: u64,
}

/// The list for `regions` with one more region ends with that region's frames.
pub proof fn usable_frames_push(regions: Seq<MemoryRegion>, region: MemoryRegion)
    ensures
        usable_frames(regions.push(region)) == usable_frames(regions) + region.frames(),
{
    assert(regions.push(region).drop_last() == regions);
}

/// The frames of the first `n` regions open the list of all frames.
pub proof fn usable_frames_prefix(regions: Seq<MemoryRegion>, n: int)
    requires
        0 <= n <= regions.len(),
    ensures
        usable_frames(regions.take(n)).len() <= usable_frames(regions).len(),
        usable_frames(regions.take(n)) == usable_frames(regions).take(
            usable_frames(regions.take(n)).len() as int,
        ),
    decreases regions.len() - n,
{
    if n == regions.len() {
        assert(regions.take(n) == regions);
        assert(usable_frames(regions).take(usable_frames(regions).len() as int) == usable_frames(
            regions,
        ));
    } else {
        usable_frames_prefix(regions, n + 1);
        assert(regions.take(n + 1).drop_last() == regions.take(n));
        let shorter = usable_frames(regions.take(n));
        let longer = usable_frames(regions.take(n + 1));
        assert(longer == shorter + regions[n].frames());
        assert(shorter == longer.take(shorter.len() as int));
        assert(shorter == usable_frames(regions).take(shorter.len() as int));
    }
}

/// Every listed frame lies in a usable region of the list.
pub proof fn usable_frame_origin(regions: Seq<MemoryRegion>, i: int) -> (k: int)
    requires
        0 <= i < usable_frames(regions).len(),
    ensures
        0 <= k < regions.len(),
        regions[k].is_usable(),
        usable_frames(regions)[i] % 4096 == 0,
        regions[k].range.start_frame_number * 4096 <= usable_frames(regions)[i]
            < regions[k].range.end_frame_number * 4096,
    decreases regions.len(),
{
    let head = usable_frames(regions.drop_last());
    if i < head.len() {
        usable_frame_origin(regions.drop_last(), i)
    } else {
        let region = regions.last();
        let k = i - head.len();
        assert(usable_frames(regions)[i] == region.frames()[k]);
        assert(region.frames()[k] == (region.range.start_frame_number + k) * 4096);
        regions.len() - 1
    }
}

/// In a valid region list no frame is listed twice, and every listed value
/// is the first address of a frame.
pub proof fn usable_frames_distinct(regions: Seq<MemoryRegion>)
    requires
        regions_valid(regions),
    ensures
        distinct(usable_frames(regions)),
        all_frame_starts(usable_frames(regions)),
        usable_frames(regions).len() <= regions.len() * FRAME_NUMBER_LIMIT,
    decreases regions.len(),
{
    if regions.len() > 0 {
        let init = regions.drop_last();
        let last = regions.last();
        assert(regions_valid(init)) by {
            assert forall|i: int| 0 <= i < init.len() implies (#[trigger] init[i]).in_bounds() by {
                assert(regions[i].in_bounds());
            }
            assert forall|i: int, j: int| 0 <= i < j < init.len() implies (#[trigger] init[i])
                .compatible(#[trigger] init[j]) by {
                assert(regions[i].compatible(regions[j]));
            }
        }
        usable_frames_distinct(init);
        let head = usable_frames(init);
        let all = usable_frames(regions);
        assert(last.in_bounds());
        assert(all.len() <= regions.len() * FRAME_NUMBER_LIMIT) by {
            assert(head.len() <= init.len() * FRAME_NUMBER_LIMIT);
            assert(last.frames().len() <= FRAME_NUMBER_LIMIT);
            assert(regions.len() * FRAME_NUMBER_LIMIT == init.len() * FRAME_NUMBER_LIMIT
                + FRAME_NUMBER_LIMIT) by (nonlinear_arith)
                requires
                    regions.len() == init.len() + 1,
            ;
        }
        assert forall|i: int| 0 <= i < all.len() implies PhysFrame::is_frame_start(
            #[trigger] all[i],
        ) by {
            if i >= head.len() {
                let k = i - head.len();
                assert(all[i] == (last.range.start_frame_number + k) * 4096);
            } else {
                assert(all[i] == head[i]);
            }
        }
        assert forall|i: int, j: int| 0 <= i < j < all.len() implies all[i] != all[j] by {
            if j < head.len() {
                assert(all[i] == head[i] && all[j] == head[j]);
            } else if i >= head.len() {
                assert(all[i] == (last.range.start_frame_number + (i - head.len())) * 4096);
                assert(all[j] == (last.range.start_frame_number + (j - head.len())) * 4096);
            } else {
                let k = usable_frame_origin(init, i);
                assert(all[i] == head[i]);
                assert(all[j] == (last.range.start_frame_number + (j - head.len())) * 4096);
                assert(regions[k].compatible(regions[regions.len() - 1]));
                assert(init[k] == regions[k]);
            }
        }
    }
}

/// A usable region that is not empty contributes all its frames to the list.
pub proof fn usable_region_gives_frames(regions: Seq<MemoryRegion>, k: int)
    requires
        0 <= k < regions.len(),
    ensures
        usable_frames(regions).len() >= regions[k].usable_count(),
    decreases regions.len(),
{
    if k < regions.len() - 1 {
        usable_region_gives_frames(regions.drop_last(), k);
    }
}

/// The frames that a valid allocator hands out on successive calls are all
/// different, and no two of them overlap.
pub proof fn allocated_frames_do_not_overlap<A: FrameAllocator>(allocator: &A, i: int, j: int)
    requires
        allocator.wf(),
        0 <= i < j < allocator.remaining().len(),
    ensures
        allocator.remaining()[i] != allocator.remaining()[j],
        allocator.remaining()[i] + 4096 <= allocator.remaining()[j] || allocator.remaining()[j]
            + 4096 <= allocator.remaining()[i],
{
    allocator.remaining_is_distinct();
    let a = allocator.remaining()[i];
    let b = allocator.remaining()[j];
    assert(PhysFrame::is_frame_start(a));
    assert(PhysFrame::is_frame_start(b));
}

impl BootInfoFrameAllocator {
    /// The memory map that the allocator draws from.
    pub closed spec fn memory_map(&self) -> MemoryMap {
        self.memory_map
    }

    /// Number of frames handed out so far.
    pub closed spec fn next(&self) -> nat {
        self.next as nat
    }

    /// All usable frames of the memory map, in the order of allocation.
    pub open spec fn frames(&self) -> Seq<int> {
        usable_frames(self.memory_map()@)
    }

    /// A valid allocator draws from a valid memory map, in which no frame is
    /// listed twice; what is left to hand out is the list of all frames
    /// without those handed out so far.
    pub proof fn remaining_is_rest(&self)
        requires
            self.wf(),
        ensures
            self.memory_map().wf(),
            regions_valid(self.memory_map()@),
            distinct(self.frames()),
            self.next() <= self.frames().len(),
            self.remaining() == self.frames().skip(self.next() as int),
    {
        self.memory_map.wf_is_regions_valid();
        usable_frames_distinct(self.memory_map@);
    }

    /// An allocator over `memory_map` that has handed out nothing yet.
    pub fn init(memory_map: MemoryMap) -> (a: BootInfoFrameAllocator)
        requires
            memory_map.wf(),
        ensures
            a.wf(),
            a.memory_map() == memory_map,
            a.next() == 0,
            a.remaining() == usable_frames(memory_map@),
    {
        let a = BootInfoFrameAllocator { memory_map, next: 0 };
        proof {
            memory_map.wf_is_regions_valid();
            usable_frames_distinct(memory_map@);
            assert(a.frames().skip(0) == a.frames());
        }
        a
    }

    /// The frames of the memory map that can be allocated, in order.
    pub fn usable_frames(&self) -> (frames: Vec<PhysFrame>)
        requires
            self.wf(),
            self.frames().len() <= usize::MAX,
        ensures
            frames@.len() == self.frames().len(),
            forall|i: int| 0 <= i < frames@.len() ==> (#[trigger] frames@[i])@ == self.frames()[i],
    {
        let mut frames: Vec<PhysFrame> = Vec::new();
        let n = self.memory_map.len();
        let mut i: usize = 0;
        proof {
            self.memory_map.wf_is_regions_valid();
            assert(self.memory_map@.take(0) == Seq::<MemoryRegion>::empty());
        }
        while i < n
            invariant
                i <= n,
                n == self.memory_map@.len(),
                self.wf(),
                regions_valid(self.memory_map@),
                self.frames().len() <= usize::MAX,
                frames@.len() == usable_frames(self.memory_map@.take(i as int)).len(),
                forall|k: int|
                    0 <= k < frames@.len() ==> (#[trigger] frames@[k])@ == usable_frames(
                        self.memory_map@.take(i as int),
                    )[k],
            decreases n - i,
        {
            let region = self.memory_map.region(i);
            let ghost before = usable_frames(self.memory_map@.take(i as int));
            proof {
                assert(self.memory_map@.take(i + 1).drop_last() == self.memory_map@.take(i as int));
                assert(usable_frames(self.memory_map@.take(i + 1)) == before + region.frames());
                usable_frames_prefix(self.memory_map@, i + 1);
                assert(region.in_bounds());
            }
            if matches!(region.region_type, MemoryRegionType::Usable) {
                let mut number = region.range.start_frame_number;
                let end = region.range.end_frame_number;
                while number < end
                    invariant
                        region.is_usable(),
                        region.in_bounds(),
                        end == region.range.end_frame_number,
                        region.range.start_frame_number <= number,
                        region.range.count() > 0 ==> number <= end,
                        region.range.count() == 0 ==> number == region.range.start_frame_number,
                        before.len() + region.frames().len() <= usize::MAX,
                        frames@.len() == before.len() + (number - region.range.start_frame_number),
                        forall|k: int|
                            0 <= k < frames@.len() ==> (#[trigger] frames@[k])@ == (before
                                + region.frames())[k],
                    decreases end - number,
                {
                    let address = PhysAddr::new(number * 4096);
                    let frame = PhysFrame::containing_address(address);
                    proof {
                        let k = number - region.range.start_frame_number;
                        assert((before + region.frames())[before.len() + k] == region.frames()[k]);
                    }
                    frames.push(frame);
                    number += 1;
                }
            }
            i += 1;
        }
        proof {
            assert(self.memory_map@.take(n as int) == self.memory_map@);
        }
        frames
    }
}

impl FrameAllocator for BootInfoFrameAllocator {
    closed spec fn wf(&self) -> bool {
        &&& self.memory_map.wf()
        &&& self.next <= usable_frames(self.memory_map@).len()
    }

    closed spec fn remaining(&self) -> Seq<int> {
        usable_frames(self.memory_map@).skip(self.next as int)
    }

    proof fn remaining_is_distinct(&self) {
        self.memory_map.wf_is_regions_valid();
        usable_frames_distinct(self.memory_map@);
        let all = usable_frames(self.memory_map@);
        let rest = self.remaining();
        assert forall|i: int, j: int| 0 <= i < j < rest.len() implies rest[i] != rest[j] by {
            assert(rest[i] == all[i + self.next]);
            assert(rest[j] == all[j + self.next]);
        }
        assert forall|i: int| 0 <= i < rest.len() implies PhysFrame::is_frame_start(
            #[trigger] rest[i],
        ) by {
            assert(rest[i] == all[i + self.next]);
        }
    }

    fn allocate_frame(&mut self) -> (r: Option<PhysFrame>)
        ensures
            final(self).memory_map() == old(self).memory_map(),
            final(self).next() == old(self).next() + if r is Some {
                1int
            } else {
                0int
            },
    {
        let n = self.memory_map.len();
        let mut skip: u64 = self.next;
        let mut i: usize = 0;
        let ghost all = usable_frames(self.memory_map@);
        proof {
            self.memory_map.wf_is_regions_valid();
            usable_frames_distinct(self.memory_map@);
            assert(self.memory_map@.take(0) == Seq::<MemoryRegion>::empty());
            assert(all.len() <= 0x4000_0000_0000) by (nonlinear_arith)
                requires
                    all.len() <= self.memory_map@.len() * FRAME_NUMBER_LIMIT,
                    self.memory_map@.len() <= 64,
                    FRAME_NUMBER_LIMIT == 0x100_0000_0000,
            ;
        }
        while i < n
            invariant
                i <= n,
                n == self.memory_map@.len(),
                *self == *old(self),
                all.len() <= 0x4000_0000_0000,
                self.wf(),
                regions_valid(self.memory_map@),
                all == usable_frames(self.memory_map@),
                all_frame_starts(all),
                self.next == skip + usable_frames(self.memory_map@.take(i as int)).len(),
            decreases n - i,
        {
            let region = self.memory_map.region(i);
            let ghost before = usable_frames(self.memory_map@.take(i as int));
            proof {
                assert(self.memory_map@.take(i + 1).drop_last() == self.memory_map@.take(i as int));
                assert(usable_frames(self.memory_map@.take(i + 1)) == before + region.frames());
                usable_frames_prefix(self.memory_map@, i + 1);
                assert(region.in_bounds());
            }
            let start = region.range.start_frame_number;
            let end = region.range.end_frame_number;
            if matches!(region.region_type, MemoryRegionType::Usable) && start < end {
                let count = end - start;
                if skip < count {
                    let address = PhysAddr::new((start + skip) * 4096);
                    let frame = PhysFrame::containing_address(address);
                    proof {
                        let longer = usable_frames(self.memory_map@.take(i + 1));
                        assert(longer[self.next as int] == region.frames()[skip as int]);
                        assert(all.take(longer.len() as int)[self.next as int] == all[self.next as int]);
                        assert(old(self).remaining()[0] == all[self.next as int]);
                        assert(all.skip(self.next as int).drop_first() == all.skip(
                            self.next as int + 1,
                        ));
                    }
                    self.next = self.next + 1;
                    return Some(frame);
                }
                skip = skip - count;
            }
            i += 1;
        }
        proof {
            assert(self.memory_map@.take(n as int) == self.memory_map@);
        }
        None
    }
}

/// The frame that `create_example_mapping` maps a page to: the text buffer
/// of the display.
pub const EXAMPLE_FRAME: u64 = 0xb8000;

/// The page table whose root table lies in `level_4_table_frame`, over the
/// given view of physical memory. The tables below the root must form a tree.
///
/// A view of physical memory cannot be duplicated, so a second page table over
/// the same memory cannot be made while the first one lives.
pub fn init<M: PhysicalMemory>(memory: M, level_4_table_frame: PhysFrame) -> (t: OffsetPageTable<M>)
    requires
        memory.wf(),
        exists|dir: Map<int, TablePath>| is_tree(&memory, level_4_table_frame@, dir),
    ensures
        t.wf(),
        t.memory() == memory,
        t.root() == level_4_table_frame@,
        t.tables() == reachable_tables(&memory, level_4_table_frame@),
{
    OffsetPageTable::new(memory, level_4_table_frame)
}

/// The virtual address at which the physical address `addr` is found when all
/// of physical memory is mapped at `physical_memory_offset`: the sum of the
/// two, or `None` when the sum is no virtual address.
pub fn physical_to_virtual(physical_memory_offset: VirtAddr, addr: PhysAddr) -> (r: Option<
    VirtAddr,
>)
    ensures
        r is Some <==> physical_memory_offset@ + addr@ <= u64::MAX && canonical_form(
            (physical_memory_offset@ + addr@) as u64,
        ) is Some,
        r matches Some(v) ==> v@ == canonical_form(
            (physical_memory_offset@ + addr@) as u64,
        ).unwrap(),
{
    match physical_memory_offset.as_u64().checked_add(addr.as_u64()) {
        Some(sum) => VirtAddr::try_new(sum),
        None => None,
    }
}

/// Translates `addr` to the physical address it is mapped to, or `None`
/// when it is not mapped. Huge pages are not supported: the walk for `addr`
/// must not meet one.
pub fn translate_addr<M: PhysicalMemory>(
    addr: VirtAddr,
    memory: &M,
    level_4_table_frame: PhysFrame,
) -> (r: Option<PhysAddr>)
    requires
        memory.wf(),
        !(walk(memory, level_4_table_frame@, addr@) is Huge),
    ensures
        match walk(memory, level_4_table_frame@, addr@) {
            Walk::Leaf(e) => r matches Some(p) && p@ == entry_address(e) + addr@ % 4096,
            _ => r is None,
        },
{
    translate_addr_inner(addr, memory, level_4_table_frame)
}

/// Walks the four levels of tables for `addr`, from the root table in
/// `level_4_table_frame`: `None` as soon as an entry is not present, else
/// the address in the frame that the level 1 entry leads to. Huge pages are
/// not supported: the walk must not meet one.
pub fn translate_addr_inner<M: PhysicalMemory>(
    addr: VirtAddr,
    memory: &M,
    level_4_table_frame: PhysFrame,
) -> (r: Option<PhysAddr>)
    requires
        memory.wf(),
        !(walk(memory, level_4_table_frame@, addr@) is Huge),
    ensures
        match walk(memory, level_4_table_frame@, addr@) {
            Walk::Leaf(e) => r matches Some(p) && p@ == entry_address(e) + addr@ % 4096,
            _ => r is None,
        },
{
    let table_indexes = [addr.p4_index(), addr.p3_index(), addr.p2_index(), addr.p1_index()];
    let mut frame = level_4_table_frame;
    let mut level: usize = 4;
    let ghost root = level_4_table_frame@;
    while level > 0
        invariant
            memory.wf(),
            root == level_4_table_frame@,
            !(walk(memory, root, addr@) is Huge),
            0 <= level <= 4,
            forall|l: int| 1 <= l <= 4 ==> table_indexes@[4 - l] == table_index(addr@, l),
            level >= 1 ==> table_at(memory, root, addr@, level as int) == Some(frame@),
            level == 0 ==> (walk(memory, root, addr@) matches Walk::Leaf(e) && entry_address(e)
                == frame@),
        decreases level,
    {
        let index = table_indexes[4 - level];
        let entry = PageTableEntry::from_bits(memory.read_entry(frame, index));
        proof {
            if level >= 2 {
                walk_at_level(memory, root, addr@, level as int, frame@);
            } else {
                walk_at_leaf(memory, root, addr@, frame@);
            }
        }
        frame = match entry.frame() {
            Ok(frame) => frame,
            Err(FrameError::FrameNotPresent) => {
                return None;
            },
            Err(FrameError::HugeFrame) => {
                proof {
                    assert(false);
                }
                return None;
            },
        };
        level = level - 1;
    }
    let start = frame.start_u64();
    let offset = addr.page_offset();
    Some(PhysAddr::new(start + offset as u64))
}

/// Maps `page` to the frame of the display's text buffer, readable and
/// writable, and flushes the page. The mapping must be possible.
pub fn create_example_mapping<M: PhysicalMemory, A: FrameAllocator>(
    page: Page,
    mapper: &mut OffsetPageTable<M>,
    frame_allocator: &mut A,
)
    requires
        old(mapper).wf(),
        old(frame_allocator).wf(),
        old(mapper).apart_from(old(frame_allocator)),
        old(mapper).walk_of(page@) matches Walk::Missing(l) && old(frame_allocator).remaining().len()
            >= l - 1,
    ensures
        final(mapper).wf(),
        final(frame_allocator).wf(),
        final(mapper).apart_from(final(frame_allocator)),
        final(mapper).root() == old(mapper).root(),
        final(mapper).memory().flushed() == old(mapper).memory().flushed().push(page@),
        ({
            let target = old(mapper).walk_of(page@);
            let frames = old(frame_allocator).remaining();
            let created = tables_created(target, frames.len() as int);
            &&& final(frame_allocator).remaining() == frames.skip(created)
            &&& final(mapper).tables() == old(mapper).tables().union(taken(frames, created))
            &&& forall|q: int| #[trigger]
                final(mapper).walk_of(q) == walk_after_map(
                    old(mapper).walk_of(q),
                    target,
                    shared_levels(page@, q),
                    created,
                    Some(0xb8003),
                )
        }),
{
    let frame = PhysFrame::containing_address(PhysAddr::new(EXAMPLE_FRAME));
    let flags = PageTableFlags::present_writable();
    assert(0xb8000u64 | 3u64 == 0xb8003u64) by (bit_vector);
    let map_to_result = mapper.map_to(page, frame, flags, frame_allocator);
    match map_to_result {
        Ok(flush) => {
            mapper.flush(flush);
        },
        Err(_) => {
            assert(false);
        },
    }
}

} // verus!
