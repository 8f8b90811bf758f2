//! Setting up the kernel heap: mapping every page of the heap range, so that
//! the range can be handed to a dynamic allocator.

use crate::addr::{table_index, Page, PhysFrame, VirtAddr};
use crate::mapper::{
    leaf_walk, map_to_error, shared_levels, tables_created, taken, translation, walk_after_map,
    walk_level, MapToError,
    OffsetPageTable, Walk,
};
use crate::memory::{all_frame_starts, FrameAllocator};
use crate::paging::{entry_of_parts, PageTableFlags, PhysicalMemory};
use vstd::prelude::*;

verus! {

/// First address of the heap.
pub const HEAP_START: u64 = 0x_4444_4444_0000;

/// Size of the heap in bytes: 100 KiB.
pub const HEAP_SIZE: u64 = 100 * 1024;

/// Number of pages that the heap covers.
pub const HEAP_PAGES: u64 = 25;

/// The extent of a heap whose every page is mapped. Only `init_heap` makes
/// one, so holding one shows that the mapping was done.
#[derive(Debug)]
pub struct HeapRegion {
    start: u64,
    size: u64,
}

impl HeapRegion {
    /// First address and size in bytes.
    pub closed spec fn view(&self) -> (int, int) {
        (self.start as int, self.size as int)
    }

    pub fn start(&self) -> (a: u64)
        ensures
            a == self@.0,
    {
        self.start
    }

    pub fn size(&self) -> (n: u64)
        ensures
            n == self@.1,
    {
        self.size
    }
}

/// The first address of the heap page with number `k`.
pub open spec fn heap_page(k: int) -> int {
    HEAP_START + k * 4096
}

/// Whether `addr` lies in one of the first `count` pages of the heap. All
/// heap pages share their level 1 table, where the first has index 64.
pub open spec fn in_heap_pages(addr: int, count: int) -> bool {
    shared_levels(HEAP_START as int, addr) >= 3 && 0 <= table_index(addr, 1) - 64 < count
}

/// The frame that heap page `k` is mapped to, when `frames` are the frames
/// that the allocator had to give and `created` tables had to be made: the
/// first page takes the first frame, then come the tables, then the other
/// pages.
pub open spec fn heap_frame(frames: Seq<int>, created: int, k: int) -> int {
    if k == 0 {
        frames[0]
    } else {
        frames[k + created]
    }
}

/// The walk of an address once the first `count` heap pages are mapped.
/// `before` is its walk before, `first` the walk of the first heap page
/// before, `shared` the number of leading indices that the address has in
/// common with the heap's first address, and `index` its level 1 index.
pub open spec fn heap_walk_at(
    before: Walk,
    first: Walk,
    shared: int,
    index: int,
    frames: Seq<int>,
    created: int,
    count: int,
) -> Walk {
    if shared >= 3 && 0 <= index - 64 < count {
        Walk::Leaf((heap_frame(frames, created, index - 64) as u64) | 3)
    } else {
        walk_after_map(before, first, shared, created, None)
    }
}

/// The walk of `addr` once the first `count` heap pages are mapped. `before`
/// is its walk before and `first` the walk of the first heap page before.
pub open spec fn heap_walk(
    before: Walk,
    first: Walk,
    addr: int,
    frames: Seq<int>,
    created: int,
    count: int,
) -> Walk {
    heap_walk_at(
        before,
        first,
        shared_levels(HEAP_START as int, addr),
        table_index(addr, 1),
        frames,
        created,
        count,
    )
}

/// The error that stops `init_heap` at heap page `k`, if the pages before it
/// were mapped. `first` is the walk of the first heap page before the call,
/// `own` that of page `k`, and `available` the number of frames that the
/// allocator had.
pub open spec fn heap_page_error(first: Walk, own: Walk, available: int, k: int) -> Option<
    MapToError,
> {
    if available < 1 {
        Some(MapToError::FrameAllocationFailed)
    } else if k == 0 {
        map_to_error(first, available - 1)
    } else if available < k + tables_created(first, available - 1) + 1 {
        Some(MapToError::FrameAllocationFailed)
    } else if walk_level(first) >= 2 {
        None
    } else {
        match own {
            Walk::Missing(_) => None,
            _ => Some(MapToError::PageAlreadyMapped),
        }
    }
}

/// The heap pages share the entries above level 1; at level 1 page `k` has
/// index 64 + `k`.
proof fn heap_page_indices(k: u64)
    requires
        k < 25,
    ensures
        shared_levels(HEAP_START as int, heap_page(k as int)) == if k == 0 {
            4int
        } else {
            3int
        },
        table_index(heap_page(k as int), 1) == 64 + k,
        table_index(HEAP_START as int, 1) == 64,
        heap_page(k as int) == (0x4444_4444_0000u64 + k * 4096) as int,
{
    let a = (0x4444_4444_0000u64 + k * 4096) as u64;
    assert((a / 0x80_0000_0000) % 512 == (0x4444_4444_0000u64 / 0x80_0000_0000) % 512 && (a
        / 0x4000_0000) % 512 == (0x4444_4444_0000u64 / 0x4000_0000) % 512 && (a / 0x20_0000) % 512
        == (0x4444_4444_0000u64 / 0x20_0000) % 512 && (a / 0x1000) % 512 == 64 + k && (
    0x4444_4444_0000u64 / 0x1000) % 512 == 64) by (bit_vector)
        requires
            k < 25,
            a == 0x4444_4444_0000u64 + k * 4096,
    ;
}

impl<M: PhysicalMemory> OffsetPageTable<M> {
    /// Number of heap pages, counted from page `from`, that `init_heap` maps
    /// before it stops: 25 when it succeeds.
    pub open spec fn heap_pages_mapped(&self, available: int, from: int) -> int
        decreases 25 - from,
    {
        if from >= 25 {
            25
        } else if heap_page_error(
            self.walk_of(HEAP_START as int),
            self.walk_of(heap_page(from)),
            available,
            from,
        ) is Some {
            from
        } else {
            self.heap_pages_mapped(available, from + 1)
        }
    }

    /// What holds once the first `count` heap pages are mapped and flushed.
    /// `before` is the table before the first of them was mapped, and
    /// `frames` what the allocator had to give then.
    pub open spec fn heap_mapped<A: FrameAllocator>(
        &self,
        before: &Self,
        allocator: &A,
        frames: Seq<int>,
        count: int,
    ) -> bool {
        let first = before.walk_of(HEAP_START as int);
        let created = tables_created(
            first,
            if frames.len() > 0 {
                frames.len() - 1
            } else {
                0
            },
        );
        &&& self.wf()
        &&& allocator.wf()
        &&& self.apart_from(allocator)
        &&& self.root() == before.root()
        &&& self.memory().flushed() == before.memory().flushed() + Seq::new(
            count as nat,
            |k: int| heap_page(k),
        )
        &&& forall|q: int| #[trigger]
            self.walk_of(q) == heap_walk(before.walk_of(q), first, q, frames, created, count)
        &&& self.tables() == before.tables().union(taken(frames.skip(1), created))
    }
}

/// How mapping heap page `count` changes the walk of one address. `before`
/// is the walk of the address before any heap page was mapped, `target` the
/// walk of the page just before the step, `near` the number of leading
/// indices that the address has in common with the page, `made` the number of
/// tables made in the step, and `leaf` the entry written, if the step
/// succeeded.
proof fn heap_step_walk(
    before: Walk,
    first: Walk,
    shared: int,
    index: int,
    near: int,
    frames: Seq<int>,
    created: int,
    count: int,
    target: Walk,
    made: int,
    leaf: Option<u64>,
)
    requires
        0 <= count < 25,
        0 <= shared <= 4,
        0 <= near <= 4,
        1 <= walk_level(first) <= 4,
        shared == 4 <==> shared >= 3 && index == 64,
        count == 0 ==> near == shared && target == first && made == created,
        count >= 1 ==> (near == 4 <==> shared >= 3 && index == 64 + count) && made == 0 && (
        leaf is Some ==> target == Walk::Missing(1)) && (leaf is None ==> !(target is Missing)),
        leaf is Some ==> target is Missing && leaf_walk(leaf.unwrap()) == Walk::Leaf(
            (heap_frame(frames, created, count) as u64) | 3,
        ),
    ensures
        walk_after_map(
            if count == 0 {
                before
            } else {
                heap_walk_at(before, first, shared, index, frames, created, count)
            },
            target,
            near,
            made,
            leaf,
        ) == heap_walk_at(
            before,
            first,
            shared,
            index,
            frames,
            created,
            if leaf is Some {
                count + 1
            } else {
                count
            },
        ),
{
}

/// What holds before heap page `count` is mapped.
spec fn heap_ready<M: PhysicalMemory, A: FrameAllocator>(
    mapper: &OffsetPageTable<M>,
    before: &OffsetPageTable<M>,
    allocator: &A,
    frames: Seq<int>,
    count: int,
) -> bool {
    let first = before.walk_of(HEAP_START as int);
    let created = tables_created(
        first,
        if frames.len() > 0 {
            frames.len() - 1
        } else {
            0
        },
    );
    &&& before.wf()
    &&& 0 <= count <= 25
    &&& before.heap_pages_mapped(frames.len() as int, 0) == before.heap_pages_mapped(
        frames.len() as int,
        count,
    )
    &&& count == 0 ==> *mapper == *before && allocator.remaining() == frames && mapper.apart_from(
        allocator,
    ) && allocator.wf()
    &&& count >= 1 ==> mapper.heap_mapped(before, allocator, frames, count) && first is Missing
        && created == walk_level(first) - 1 && count + created <= frames.len()
        && allocator.remaining() == frames.skip(count + created)
}

/// Maps heap page `count` to a fresh frame and flushes it.
fn map_heap_page<M: PhysicalMemory, A: FrameAllocator>(
    mapper: &mut OffsetPageTable<M>,
    frame_allocator: &mut A,
    count: u64,
    Ghost(before): Ghost<&OffsetPageTable<M>>,
    Ghost(frames): Ghost<Seq<int>>,
) -> (r: Result<(), MapToError>)
    requires
        count < 25,
        heap_ready(old(mapper), before, old(frame_allocator), frames, count as int),
    ensures
        r is Ok ==> heap_ready(final(mapper), before, final(frame_allocator), frames, count + 1),
        r matches Err(e) ==> final(mapper).heap_mapped(
            before,
            final(frame_allocator),
            frames,
            count as int,
        ) && before.heap_pages_mapped(frames.len() as int, 0) == count && heap_page_error(
            before.walk_of(HEAP_START as int),
            before.walk_of(heap_page(count as int)),
            frames.len() as int,
            count as int,
        ) == Some(e),
{
    let ghost first = before.walk_of(HEAP_START as int);
    let ghost n = frames.len() as int;
    let ghost created = tables_created(
        first,
        if n > 0 {
            n - 1
        } else {
            0
        },
    );
    let ghost here = *mapper;
    let ghost own = before.walk_of(heap_page(count as int));
    let ghost offered = frame_allocator.remaining();
    proof {
        heap_page_indices(count);
        heap_page_indices(0);
        before.same_table_same_level(HEAP_START as int, heap_page(count as int));
        frame_allocator.remaining_is_distinct();
        assert(1 <= walk_level(first) <= 4);
        if count == 0 {
            assert(frames.skip(0) == frames);
            assert(before.tables().union(taken(frames.skip(1), 0)) == before.tables());
            assert(before.memory().flushed() + Seq::new(0, |k: int| heap_page(k))
                == before.memory().flushed());
        }
    }
    let page = Page::containing_address(VirtAddr::new(HEAP_START + count * 4096));
    let frame = match frame_allocator.allocate_frame() {
        Some(frame) => frame,
        None => {
            proof {
                assert forall|q: int| #[trigger]
                    mapper.walk_of(q) == heap_walk(
                        before.walk_of(q),
                        first,
                        q,
                        frames,
                        created,
                        count as int,
                    ) by {
                    assert(0 <= shared_levels(HEAP_START as int, q) <= 4);
                }
            }
            return Err(MapToError::FrameAllocationFailed);
        },
    };
    let flags = PageTableFlags::present_writable();
    let ghost rest = frame_allocator.remaining();
    let ghost target = mapper.walk_of(page@);
    proof {
        assert forall|i: int| 0 <= i < rest.len() implies !mapper.tables().contains(
            #[trigger] rest[i],
        ) by {
            assert(rest[i] == offered[i + 1]);
        }
        assert(3u64 & 0x000f_ffff_ffff_f000 == 0 && 3u64 & 1 == 1 && 3u64 & 0x80 != 0x80)
            by (bit_vector);
        assert(frame@ == offered[0]);
        entry_of_parts(frame@ as u64, 3);
        assert(frame@ == heap_frame(frames, created, count as int));
    }
    let r = mapper.map_to(page, frame, flags, frame_allocator);
    let ghost made = tables_created(target, rest.len() as int);
    let ghost leaf = if r is Ok {
        Some((frame@ as u64) | 3)
    } else {
        None
    };
    let ghost mapped = *mapper;
    proof {
        assert(rest == offered.skip(1));
        if count == 0 {
            assert(offered.skip(1).skip(made) == frames.skip(1 + made));
        } else {
            assert(rest.skip(0) == rest);
            assert(offered.skip(1) == frames.skip(count + created + 1));
            assert(taken(rest, 0) == Set::<int>::empty());
            assert(mapped.tables() == here.tables().union(taken(rest, 0)));
            assert(mapped.tables() == here.tables());
        }
        assert forall|q: int| #[trigger]
            mapped.walk_of(q) == heap_walk(
                before.walk_of(q),
                first,
                q,
                frames,
                created,
                if r is Ok {
                    count + 1
                } else {
                    count as int
                },
            ) by {
            assert(0 <= shared_levels(HEAP_START as int, q) <= 4);
            assert(0 <= shared_levels(page@, q) <= 4);
            assert(here.walk_of(q) == if count == 0 {
                before.walk_of(q)
            } else {
                heap_walk(before.walk_of(q), first, q, frames, created, count as int)
            });
            heap_step_walk(
                before.walk_of(q),
                first,
                shared_levels(HEAP_START as int, q),
                table_index(q, 1),
                shared_levels(page@, q),
                frames,
                created,
                count as int,
                target,
                made,
                leaf,
            );
        }
    }
    match r {
        Ok(flush) => {
            mapper.flush(flush);
            proof {
                assert(Seq::new((count + 1) as nat, |k: int| heap_page(k)) == Seq::new(
                    count as nat,
                    |k: int| heap_page(k),
                ).push(page@));
            }
            Ok(())
        },
        Err(e) => Err(e),
    }
}

/// Maps every page of the heap range to a fresh frame, readable and writable.
/// On success the result names the heap's extent, which may then be handed to
/// a dynamic allocator; on failure there is no such result.
pub fn init_heap<M: PhysicalMemory, A: FrameAllocator>(
    mapper: &mut OffsetPageTable<M>,
    frame_allocator: &mut A,
) -> (r: Result<HeapRegion, MapToError>)
    requires
        old(mapper).wf(),
        old(frame_allocator).wf(),
        old(mapper).apart_from(old(frame_allocator)),
    ensures
        ({
            let frames = old(frame_allocator).remaining();
            let first = old(mapper).walk_of(HEAP_START as int);
            let mapped = old(mapper).heap_pages_mapped(frames.len() as int, 0);
            &&& final(mapper).heap_mapped(old(mapper), final(frame_allocator), frames, mapped)
            &&& r is Ok <==> mapped == 25
            &&& r matches Ok(region) ==> region@ == (HEAP_START as int, HEAP_SIZE as int)
                && final(frame_allocator).remaining() == frames.skip(
                25 + tables_created(first, frames.len() - 1),
            )
            &&& r matches Err(e) ==> heap_page_error(
                first,
                old(mapper).walk_of(heap_page(mapped)),
                frames.len() as int,
                mapped,
            ) == Some(e)
        }),
{
    let ghost before = *mapper;
    let ghost frames = frame_allocator.remaining();
    let heap_start = VirtAddr::new(HEAP_START);
    let heap_end = VirtAddr::new(HEAP_START + HEAP_SIZE - 1);
    let first_page = Page::containing_address(heap_start).start_address().as_u64();
    let last_page = Page::containing_address(heap_end).start_address().as_u64();
    let mut start = first_page;
    let mut count: u64 = 0;
    while start <= last_page
        invariant
            first_page == HEAP_START,
            last_page == HEAP_START + 24 * 4096,
            0 <= count <= 25,
            start == HEAP_START + count * 4096,
            before == *old(mapper),
            frames == old(frame_allocator).remaining(),
            heap_ready(mapper, &before, frame_allocator, frames, count as int),
        decreases 25 - count,
    {
        match map_heap_page(mapper, frame_allocator, count, Ghost(&before), Ghost(frames)) {
            Ok(()) => {},
            Err(e) => {
                return Err(e);
            },
        }
        count = count + 1;
        start = start + 4096;
    }
    Ok(HeapRegion { start: HEAP_START, size: HEAP_SIZE })
}

/// Once all heap pages are mapped, every address of the heap translates to
/// the frame of its page plus its offset in the page.
pub proof fn mapped_heap_translates<M: PhysicalMemory, A: FrameAllocator>(
    mapper: &OffsetPageTable<M>,
    before: &OffsetPageTable<M>,
    allocator: &A,
    frames: Seq<int>,
    addr: u64,
)
    requires
        mapper.heap_mapped(before, allocator, frames, 25),
        all_frame_starts(frames),
        frames.len() >= 25 + tables_created(before.walk_of(HEAP_START as int), frames.len() - 1),
        tables_created(before.walk_of(HEAP_START as int), frames.len() - 1) >= 0,
        HEAP_START <= addr < HEAP_START + HEAP_SIZE,
    ensures
        translation(mapper.walk_of(addr as int), addr as int) == Some(
            heap_frame(
                frames,
                tables_created(before.walk_of(HEAP_START as int), frames.len() - 1),
                (addr - HEAP_START) / 4096,
            ) + addr % 4096,
        ),
{
    let k = ((addr - HEAP_START) / 4096) as u64;
    let created = tables_created(before.walk_of(HEAP_START as int), frames.len() - 1);
    let frame = heap_frame(frames, created, k as int);
    assert((addr / 0x80_0000_0000) % 512 == (0x4444_4444_0000u64 / 0x80_0000_0000) % 512 && (addr
        / 0x4000_0000) % 512 == (0x4444_4444_0000u64 / 0x4000_0000) % 512 && (addr / 0x20_0000)
        % 512 == (0x4444_4444_0000u64 / 0x20_0000) % 512 && (addr / 0x1000) % 512 == 64 + (addr
        - 0x4444_4444_0000u64) / 4096 && (addr - 0x4444_4444_0000u64) / 4096 < 25) by (bit_vector)
        requires
            0x4444_4444_0000u64 <= addr < 0x4444_4444_0000u64 + 0x19000u64,
    ;
    assert(PhysFrame::is_frame_start(frame));
    assert(3u64 & 0x000f_ffff_ffff_f000 == 0) by (bit_vector);
    entry_of_parts(frame as u64, 3);
    assert(mapper.walk_of(addr as int) == heap_walk(
        before.walk_of(addr as int),
        before.walk_of(HEAP_START as int),
        addr as int,
        frames,
        created,
        25,
    ));
}

} // verus!
