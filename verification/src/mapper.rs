//! The four-level page table: walking it and adding mappings to it.

use crate::addr::{align_down_spec, is_canonical, table_index, Page, PhysAddr, PhysFrame, VirtAddr};
use crate::memory::FrameAllocator;
use crate::paging::{
    entry_address, entry_huge, entry_links, entry_of_parts, entry_present, FrameError,
    PageTableEntry, PageTableFlags, PhysicalMemory, ADDRESS_MASK, HUGE_PAGE, PRESENT,
};
use vstd::prelude::*;

verus! {

/// How far the walk for one address gets.
pub enum Walk {
    /// The entry read in the table of this level (4 is the root) is not present.
    Missing(int),
    /// The entry read in the table of this level is marked as a huge page.
    Huge(int),
    /// The walk reached this level 1 entry, which leads to a frame.
    Leaf(u64),
}

/// What a level 1 entry with the bits `e` means for the walk.
pub open spec fn leaf_walk(e: u64) -> Walk {
    if !entry_present(e) {
        Walk::Missing(1)
    } else if entry_huge(e) {
        Walk::Huge(1)
    } else {
        Walk::Leaf(e)
    }
}

/// The walk for `addr` through the tables in `mem`, from the root table in
/// the frame at `root`.
pub open spec fn walk<M: PhysicalMemory>(mem: &M, root: int, addr: int) -> Walk {
    let e4 = mem.entry(root, table_index(addr, 4));
    if !entry_present(e4) {
        Walk::Missing(4)
    } else if entry_huge(e4) {
        Walk::Huge(4)
    } else {
        let e3 = mem.entry(entry_address(e4), table_index(addr, 3));
        if !entry_present(e3) {
            Walk::Missing(3)
        } else if entry_huge(e3) {
            Walk::Huge(3)
        } else {
            let e2 = mem.entry(entry_address(e3), table_index(addr, 2));
            if !entry_present(e2) {
                Walk::Missing(2)
            } else if entry_huge(e2) {
                Walk::Huge(2)
            } else {
                leaf_walk(mem.entry(entry_address(e2), table_index(addr, 1)))
            }
        }
    }
}

/// The frame of the table of `level` that the walk for `addr` reads, if the
/// walk gets that far.
pub open spec fn table_at<M: PhysicalMemory>(mem: &M, root: int, addr: int, level: int) -> Option<
    int,
>
    decreases 4 - level,
{
    if level >= 4 {
        Some(root)
    } else {
        match table_at(mem, root, addr, level + 1) {
            Some(parent) => {
                let e = mem.entry(parent, table_index(addr, level + 1));
                if entry_links(e) {
                    Some(entry_address(e))
                } else {
                    None
                }
            },
            None => None,
        }
    }
}

/// Number of leading table indices, from level 4 down, that two addresses
/// have in common.
pub open spec fn shared_levels(a: int, b: int) -> int {
    if table_index(a, 4) != table_index(b, 4) {
        0
    } else if table_index(a, 3) != table_index(b, 3) {
        1
    } else if table_index(a, 2) != table_index(b, 2) {
        2
    } else if table_index(a, 1) != table_index(b, 1) {
        3
    } else {
        4
    }
}

/// What translating an address gives.
#[derive(Clone, Copy, Debug, PartialEq, Eq, Structural)]
pub enum TranslateResult {
    /// The address is mapped to this physical address.
    Mapped(PhysAddr),
    /// An entry on the way is not present.
    NotMapped,
    /// An entry on the way is marked as a huge page.
    HugePage,
}

/// The physical address that `addr` translates to when its walk is `w`.
pub open spec fn translation(w: Walk, addr: int) -> Option<int> {
    match w {
        Walk::Leaf(e) => Some(entry_address(e) + addr % 4096),
        _ => None,
    }
}

/// Where a table sits in the tree: how many steps below the root, and the
/// indices that lead to it.
pub struct TablePath {
    pub depth: int,
    pub p4: int,
    pub p3: int,
    pub p2: int,
}

impl TablePath {
    pub open spec fn root() -> TablePath {
        TablePath { depth: 0, p4: 0, p3: 0, p2: 0 }
    }

    /// The place of the table that the walk for `addr` reads after `depth` steps.
    pub open spec fn of(addr: int, depth: int) -> TablePath {
        TablePath {
            depth,
            p4: if depth >= 1 {
                table_index(addr, 4)
            } else {
                0
            },
            p3: if depth >= 2 {
                table_index(addr, 3)
            } else {
                0
            },
            p2: if depth >= 3 {
                table_index(addr, 2)
            } else {
                0
            },
        }
    }

    /// The place of the table that entry `index` of the table here leads to.
    pub open spec fn child(self, index: int) -> TablePath {
        if self.depth == 0 {
            TablePath { depth: 1, p4: index, p3: 0, p2: 0 }
        } else if self.depth == 1 {
            TablePath { depth: 2, p4: self.p4, p3: index, p2: 0 }
        } else {
            TablePath { depth: 3, p4: self.p4, p3: self.p3, p2: index }
        }
    }
}

/// Whether `dir` records the tables below `root` as a tree: every entry that
/// leads from a recorded table to a lower one leads to a table recorded at
/// exactly that place, so that no table is reached along two ways.
pub open spec fn is_tree<M: PhysicalMemory>(mem: &M, root: int, dir: Map<int, TablePath>) -> bool {
    &&& dir.dom().contains(root)
    &&& dir[root] == TablePath::root()
    &&& forall|f: int| #[trigger] dir.dom().contains(f) ==> 0 <= dir[f].depth <= 3
    &&& forall|f: int, i: int|
        dir.dom().contains(f) && 0 <= i < 512 && dir[f].depth < 3 && entry_links(
            #[trigger] mem.entry(f, i),
        ) ==> dir.dom().contains(entry_address(mem.entry(f, i))) && dir[entry_address(
            mem.entry(f, i),
        )] == dir[f].child(i)
}

/// In a tree, the tables that a walk reads are recorded at the places that
/// the address names.
pub proof fn walk_stays_in_tree<M: PhysicalMemory>(
    mem: &M,
    root: int,
    dir: Map<int, TablePath>,
    addr: int,
    level: int,
)
    requires
        is_tree(mem, root, dir),
        1 <= level <= 4,
        table_at(mem, root, addr, level) is Some,
    ensures
        dir.dom().contains(table_at(mem, root, addr, level).unwrap()),
        dir[table_at(mem, root, addr, level).unwrap()] == TablePath::of(addr, 4 - level),
    decreases 4 - level,
{
    if level < 4 {
        walk_stays_in_tree(mem, root, dir, addr, level + 1);
        let parent = table_at(mem, root, addr, level + 1).unwrap();
        let i = table_index(addr, level + 1);
        assert(0 <= i < 512);
        assert(entry_links(mem.entry(parent, i)));
    }
}

/// The frames of the tables that some walk from the root reads.
pub open spec fn reachable_tables<M: PhysicalMemory>(mem: &M, root: int) -> Set<int> {
    Set::new(
        |f: int|
            exists|addr: int, level: int|
                1 <= level <= 4 && #[trigger] table_at(mem, root, addr, level) == Some(f),
    )
}

/// The address that selects the given entries at the four levels, with
/// offset zero.
pub open spec fn address_of(i4: int, i3: int, i2: int, i1: int) -> int {
    i4 * 0x80_0000_0000 + i3 * 0x4000_0000 + i2 * 0x20_0000 + i1 * 0x1000
}

/// `address_of` selects the entries it was made from.
pub proof fn address_of_selects(i4: u64, i3: u64, i2: u64, i1: u64)
    requires
        i4 < 512,
        i3 < 512,
        i2 < 512,
        i1 < 512,
    ensures
        table_index(address_of(i4 as int, i3 as int, i2 as int, i1 as int), 4) == i4,
        table_index(address_of(i4 as int, i3 as int, i2 as int, i1 as int), 3) == i3,
        table_index(address_of(i4 as int, i3 as int, i2 as int, i1 as int), 2) == i2,
        table_index(address_of(i4 as int, i3 as int, i2 as int, i1 as int), 1) == i1,
{
    let a = (i4 * 0x80_0000_0000 + i3 * 0x4000_0000 + i2 * 0x20_0000 + i1 * 0x1000) as u64;
    assert((a / 0x80_0000_0000) % 512 == i4 && (a / 0x4000_0000) % 512 == i3 && (a / 0x20_0000)
        % 512 == i2 && (a / 0x1000) % 512 == i1) by (bit_vector)
        requires
            i4 < 512,
            i3 < 512,
            i2 < 512,
            i1 < 512,
            a == i4 * 0x80_0000_0000 + i3 * 0x4000_0000 + i2 * 0x20_0000 + i1 * 0x1000,
    ;
}

/// The table that a walk reads at a level depends on the address only by
/// the entries that the address selects above that level.
pub proof fn table_at_same_prefix<M: PhysicalMemory>(
    mem: &M,
    root: int,
    a: int,
    b: int,
    level: int,
)
    requires
        1 <= level <= 4,
        forall|l: int| level < l <= 4 ==> table_index(a, l) == table_index(b, l),
    ensures
        table_at(mem, root, a, level) == table_at(mem, root, b, level),
    decreases 4 - level,
{
    if level < 4 {
        table_at_same_prefix(mem, root, a, b, level + 1);
        assert(table_index(a, level + 1) == table_index(b, level + 1));
    }
}

/// A record of a tree stays one when it is cut down to the tables that walks
/// reach.
pub proof fn reachable_tables_form_tree<M: PhysicalMemory>(
    mem: &M,
    root: int,
    dir: Map<int, TablePath>,
)
    requires
        is_tree(mem, root, dir),
    ensures
        is_tree(mem, root, dir.restrict(reachable_tables(mem, root))),
{
    let reached = reachable_tables(mem, root);
    let cut = dir.restrict(reached);
    assert(table_at(mem, root, 0, 4) == Some(root));
    assert(reached.contains(root));
    assert forall|f: int, i: int|
        cut.dom().contains(f) && 0 <= i < 512 && cut[f].depth < 3 && entry_links(
            #[trigger] mem.entry(f, i),
        ) implies cut.dom().contains(entry_address(mem.entry(f, i))) && cut[entry_address(
        mem.entry(f, i),
    )] == cut[f].child(i) by {
        let child = entry_address(mem.entry(f, i));
        let (addr, level) = choose|addr: int, level: int|
            1 <= level <= 4 && #[trigger] table_at(mem, root, addr, level) == Some(f);
        walk_stays_in_tree(mem, root, dir, addr, level);
        assert(2 <= level <= 4);
        let i4 = if level < 4 {
            table_index(addr, 4)
        } else {
            i
        };
        let i3 = if level < 3 {
            table_index(addr, 3)
        } else if level == 3 {
            i
        } else {
            0
        };
        let i2 = if level == 2 {
            i
        } else {
            0
        };
        address_of_selects(i4 as u64, i3 as u64, i2 as u64, 0);
        let next = address_of(i4, i3, i2, 0);
        table_at_same_prefix(mem, root, addr, next, level);
        assert(table_index(next, level) == i);
        assert(table_at(mem, root, next, level - 1) == Some(child));
        assert(reached.contains(child));
    }
}

/// A page table tree together with the memory that holds it.
pub struct OffsetPageTable<M: PhysicalMemory> {
    memory: M,
    level_4_frame: PhysFrame,
    directory: Ghost<Map<int, TablePath>>,
}

impl<M: PhysicalMemory> OffsetPageTable<M> {
    /// The memory that holds the tables.
    pub closed spec fn memory(&self) -> M {
        self.memory
    }

    /// The first address of the frame that holds the root table.
    pub closed spec fn root(&self) -> int {
        self.level_4_frame@
    }

    /// The frames that hold the tables of the tree.
    pub closed spec fn tables(&self) -> Set<int> {
        self.directory@.dom()
    }

    pub closed spec fn wf(&self) -> bool {
        &&& self.memory.wf()
        &&& is_tree(&self.memory, self.level_4_frame@, self.directory@)
    }

    /// The walk for `addr`.
    pub open spec fn walk_of(&self, addr: int) -> Walk {
        walk(&self.memory(), self.root(), addr)
    }

    /// Whether none of the frames that `allocator` will hand out holds a
    /// table of the tree.
    pub open spec fn apart_from<A: FrameAllocator>(&self, allocator: &A) -> bool {
        forall|i: int|
            0 <= i < allocator.remaining().len() ==> !self.tables().contains(
                #[trigger] allocator.remaining()[i],
            )
    }

    /// The root table is one of the tables.
    pub proof fn root_is_table(&self)
        requires
            self.wf(),
        ensures
            self.tables().contains(self.root()),
    {
    }

    /// The page table whose root table lies in `level_4_frame`. The tables
    /// in `memory` below that root must form a tree. Its tables are those
    /// that a walk from the root can reach.
    pub fn new(memory: M, level_4_frame: PhysFrame) -> (t: Self)
        requires
            memory.wf(),
            exists|dir: Map<int, TablePath>| is_tree(&memory, level_4_frame@, dir),
        ensures
            t.wf(),
            t.memory() == memory,
            t.root() == level_4_frame@,
            t.tables() == reachable_tables(&memory, level_4_frame@),
    {
        let ghost dir = choose|dir: Map<int, TablePath>| is_tree(&memory, level_4_frame@, dir);
        let ghost reached = reachable_tables(&memory, level_4_frame@);
        proof {
            reachable_tables_form_tree(&memory, level_4_frame@, dir);
            assert(dir.restrict(reached).dom() =~= reached) by {
                assert forall|f: int| reached.contains(f) implies dir.dom().contains(f) by {
                    let (addr, level) = choose|addr: int, level: int|
                        1 <= level <= 4 && #[trigger] table_at(
                            &memory,
                            level_4_frame@,
                            addr,
                            level,
                        ) == Some(f);
                    walk_stays_in_tree(&memory, level_4_frame@, dir, addr, level);
                }
            }
        }
        OffsetPageTable { memory, level_4_frame, directory: Ghost(dir.restrict(reached)) }
    }

    /// A page table that maps nothing: the table in `level_4_frame` is
    /// cleared and becomes the root.
    pub fn new_empty(memory: M, level_4_frame: PhysFrame) -> (t: Self)
        requires
            memory.wf(),
        ensures
            t.wf(),
            t.root() == level_4_frame@,
            t.tables() == set![level_4_frame@],
            t.memory().flushed() == memory.flushed(),
            forall|addr: int| #[trigger] t.walk_of(addr) == Walk::Missing(4),
    {
        let mut memory = memory;
        clear_table(&mut memory, level_4_frame);
        let ghost dir = map![level_4_frame@ => TablePath::root()];
        let t = OffsetPageTable { memory, level_4_frame, directory: Ghost(dir) };
        proof {
            assert(t.tables() =~= set![level_4_frame@]);
            assert(entry_present(0u64) == false) by (bit_vector);
            assert forall|addr: int| #[trigger] t.walk_of(addr) == Walk::Missing(4) by {
                assert(0 <= table_index(addr, 4) < 512);
            }
        }
        t
    }

    pub fn level_4_frame(&self) -> (f: PhysFrame)
        ensures
            f@ == self.root(),
    {
        self.level_4_frame
    }

    /// Hands back the memory. The memory of a valid table is valid.
    pub fn into_memory(self) -> (m: M)
        ensures
            m == self.memory(),
            self.wf() ==> m.wf(),
    {
        self.memory
    }

    /// The memory of a valid table is valid, and its tables form a tree.
    pub proof fn memory_is_valid(&self)
        requires
            self.wf(),
        ensures
            self.memory().wf(),
            exists|dir: Map<int, TablePath>| is_tree(&self.memory(), self.root(), dir),
    {
        assert(is_tree(&self.memory(), self.root(), self.directory@));
    }

    /// The memory, to read from.
    pub fn memory_ref(&self) -> (m: &M)
        ensures
            *m == self.memory(),
            self.wf() ==> m.wf(),
    {
        &self.memory
    }

    /// Translates `addr` by walking the four levels of tables.
    pub fn translate(&self, addr: VirtAddr) -> (r: TranslateResult)
        requires
            self.wf(),
        ensures
            match self.walk_of(addr@) {
                Walk::Leaf(e) => r matches TranslateResult::Mapped(p) && p@ == entry_address(e)
                    + addr@ % 4096,
                Walk::Missing(_) => r == TranslateResult::NotMapped,
                Walk::Huge(_) => r == TranslateResult::HugePage,
            },
    {
        let table_indexes = [addr.p4_index(), addr.p3_index(), addr.p2_index(), addr.p1_index()];
        let mut frame = self.level_4_frame;
        let mut level: usize = 4;
        while level > 0
            invariant
                self.wf(),
                0 <= level <= 4,
                forall|l: int| 1 <= l <= 4 ==> table_indexes@[4 - l] == table_index(addr@, l),
                level >= 1 ==> table_at(&self.memory, self.level_4_frame@, addr@, level as int)
                    == Some(frame@),
                level == 0 ==> (self.walk_of(addr@) matches Walk::Leaf(e) && entry_address(e)
                    == frame@),
            decreases level,
        {
            let index = table_indexes[4 - level];
            let entry = PageTableEntry::from_bits(self.memory.read_entry(frame, index));
            proof {
                if level >= 2 {
                    walk_at_level(&self.memory, self.level_4_frame@, addr@, level as int, frame@);
                } else {
                    walk_at_leaf(&self.memory, self.level_4_frame@, addr@, frame@);
                }
            }
            frame = match entry.frame() {
                Ok(frame) => frame,
                Err(FrameError::FrameNotPresent) => {
                    return TranslateResult::NotMapped;
                },
                Err(FrameError::HugeFrame) => {
                    return TranslateResult::HugePage;
                },
            };
            level = level - 1;
        }
        let start = frame.start_u64();
        let offset = addr.page_offset();
        TranslateResult::Mapped(PhysAddr::new(start + offset as u64))
    }
}

/// Sets all entries of the table in `frame` to zero.
pub fn clear_table<M: PhysicalMemory>(memory: &mut M, frame: PhysFrame)
    requires
        old(memory).wf(),
    ensures
        final(memory).wf(),
        final(memory).flushed() == old(memory).flushed(),
        forall|f: int, i: int| #[trigger]
            final(memory).entry(f, i) == if f == frame@ && 0 <= i < 512 {
                0
            } else {
                old(memory).entry(f, i)
            },
{
    let mut index: u16 = 0;
    while index < 512
        invariant
            index <= 512,
            memory.wf(),
            memory.flushed() == old(memory).flushed(),
            forall|f: int, i: int| #[trigger]
                memory.entry(f, i) == if f == frame@ && 0 <= i < index {
                    0
                } else {
                    old(memory).entry(f, i)
                },
        decreases 512 - index,
    {
        memory.write_entry(frame, index, 0);
        index += 1;
    }
}

/// Why a mapping was not added.
#[derive(Clone, Copy, Debug, PartialEq, Eq, Structural)]
pub enum MapToError {
    /// A table was missing and the allocator had no frame left for it.
    FrameAllocationFailed,
    /// An entry above level 1 on the way to the page is marked as a huge page.
    ParentEntryHugePage,
    /// The level 1 entry of the page is present already.
    PageAlreadyMapped,
}

/// The duty to discard the cached translation of a page whose mapping changed.
#[must_use]
#[derive(Debug)]
pub struct MapperFlush {
    page: Page,
}

impl MapperFlush {
    /// The first address of the page to flush.
    pub closed spec fn page(&self) -> int {
        self.page@
    }

    /// Drops the duty: for a page that was not in use before.
    pub fn ignore(self) {
    }
}

/// Number of tables that were made on the way to a page whose walk was
/// `target`, with `available` frames left in the allocator.
pub open spec fn tables_created(target: Walk, available: int) -> int {
    match target {
        Walk::Missing(l) => if available >= l - 1 {
            l - 1
        } else {
            available
        },
        _ => 0,
    }
}

/// The error, if any, of mapping a page whose walk was `target`, with
/// `available` frames left in the allocator.
pub open spec fn map_to_error(target: Walk, available: int) -> Option<MapToError> {
    match target {
        Walk::Missing(l) => if available >= l - 1 {
            None
        } else {
            Some(MapToError::FrameAllocationFailed)
        },
        Walk::Huge(l) => if l >= 2 {
            Some(MapToError::ParentEntryHugePage)
        } else {
            Some(MapToError::PageAlreadyMapped)
        },
        Walk::Leaf(_) => Some(MapToError::PageAlreadyMapped),
    }
}

/// The walk of an address after a page was mapped. `before` is its walk
/// before, `target` the walk of the page before, `shared` the number of
/// leading indices that the address has in common with the page, `created`
/// the number of tables made, and `leaf` the level 1 entry written, if the
/// mapping succeeded.
pub open spec fn walk_after_map(
    before: Walk,
    target: Walk,
    shared: int,
    created: int,
    leaf: Option<u64>,
) -> Walk {
    match target {
        Walk::Missing(l) => if shared >= 5 - l {
            if shared == 4 && leaf is Some {
                leaf_walk(leaf.unwrap())
            } else if 4 - shared >= l - created {
                Walk::Missing(4 - shared)
            } else {
                Walk::Missing(l - created)
            }
        } else {
            before
        },
        _ => before,
    }
}

impl<M: PhysicalMemory> OffsetPageTable<M> {
    /// Discards the cached translation of the page that `flush` names.
    pub fn flush(&mut self, flush: MapperFlush)
        requires
            old(self).wf(),
        ensures
            final(self).wf(),
            final(self).root() == old(self).root(),
            final(self).tables() == old(self).tables(),
            final(self).memory().flushed() == old(self).memory().flushed().push(flush.page()),
            forall|q: int| #[trigger] final(self).walk_of(q) == old(self).walk_of(q),
    {
        self.memory.flush(flush.page);
    }

    /// The table that entry `index` of `table` leads to; a missing one is
    /// made from a fresh frame first.
    fn create_next_table<A: FrameAllocator>(
        &mut self,
        table: PhysFrame,
        index: u16,
        allocator: &mut A,
        Ghost(addr): Ghost<int>,
        Ghost(level): Ghost<int>,
    ) -> (r: Result<PhysFrame, MapToError>)
        requires
            old(self).wf(),
            old(allocator).wf(),
            old(self).apart_from(old(allocator)),
            2 <= level <= 4,
            index == table_index(addr, level),
            table_at(&old(self).memory, old(self).level_4_frame@, addr, level) == Some(table@),
        ensures
            final(self).wf(),
            final(allocator).wf(),
            final(self).apart_from(final(allocator)),
            final(self).level_4_frame == old(self).level_4_frame,
            final(self).memory.flushed() == old(self).memory.flushed(),
            ({
                let e = old(self).memory.entry(table@, index as int);
                let n = old(allocator).remaining().len();
                let root = old(self).level_4_frame@;
                if entry_present(e) || n == 0 {
                    &&& *final(self) == *old(self)
                    &&& final(allocator).remaining() == old(allocator).remaining()
                    &&& !entry_present(e) ==> r == Err::<PhysFrame, MapToError>(
                        MapToError::FrameAllocationFailed,
                    )
                    &&& entry_present(e) && entry_huge(e) ==> r == Err::<PhysFrame, MapToError>(
                        MapToError::ParentEntryHugePage,
                    )
                    &&& entry_links(e) ==> r is Ok
                } else {
                    &&& r matches Ok(f) && f@ == old(allocator).remaining()[0]
                    &&& final(allocator).remaining() == old(allocator).remaining().drop_first()
                    &&& final(self).directory@.dom() == old(self).directory@.dom().insert(
                        old(allocator).remaining()[0],
                    )
                    &&& forall|q: int| #[trigger]
                        walk(&final(self).memory, root, q) == if shared_levels(addr, q) >= 5
                            - level {
                            Walk::Missing(level - 1)
                        } else {
                            walk(&old(self).memory, root, q)
                        }
                }
            }),
            r is Ok ==> table_at(
                &final(self).memory,
                final(self).level_4_frame@,
                addr,
                level - 1,
            ) == Some(r.unwrap()@),
    {
        let ghost root = self.level_4_frame@;
        let ghost old_mem = self.memory;
        let ghost dir = self.directory@;
        proof {
            walk_stays_in_tree(&old_mem, root, dir, addr, level);
        }
        let entry = PageTableEntry::from_bits(self.memory.read_entry(table, index));
        match entry.frame() {
            Ok(next) => Ok(next),
            Err(FrameError::HugeFrame) => Err(MapToError::ParentEntryHugePage),
            Err(FrameError::FrameNotPresent) => {
                proof {
                    allocator.remaining_is_distinct();
                }
                match allocator.allocate_frame() {
                    None => Err(MapToError::FrameAllocationFailed),
                    Some(frame) => {
                        let mut link = PageTableEntry::new();
                        link.set_frame(frame, PageTableFlags::present_writable());
                        clear_table(&mut self.memory, frame);
                        self.memory.write_entry(table, index, link.bits());
                        proof {
                            let new_dir = dir.insert(frame@, dir[table@].child(index as int));
                            self.directory@ = new_dir;
                            assert(entry_present(0u64) == false) by (bit_vector);
                            assert(!dir.dom().contains(frame@)) by {
                                assert(old(allocator).remaining()[0] == frame@);
                            }
                            assert(is_tree(&self.memory, root, new_dir)) by {
                                assert forall|f: int, i: int|
                                    new_dir.dom().contains(f) && 0 <= i < 512 && new_dir[f].depth
                                        < 3 && entry_links(
                                        #[trigger] self.memory.entry(f, i),
                                    ) implies new_dir.dom().contains(
                                    entry_address(self.memory.entry(f, i)),
                                ) && new_dir[entry_address(self.memory.entry(f, i))]
                                    == new_dir[f].child(i) by {
                                    if f == table@ && i == index {
                                    } else if f == frame@ {
                                    } else {
                                        assert(self.memory.entry(f, i) == old_mem.entry(f, i));
                                        assert(entry_links(old_mem.entry(f, i)));
                                    }
                                }
                            }
                            assert forall|i: int|
                                0 <= i < allocator.remaining().len() implies !self.tables().contains(
                                #[trigger] allocator.remaining()[i],
                            ) by {
                                assert(allocator.remaining()[i] == old(allocator).remaining()[i
                                    + 1]);
                            }
                            assert forall|q: int| #[trigger]
                                walk(&self.memory, root, q) == if shared_levels(addr, q) >= 5
                                    - level {
                                    Walk::Missing(level - 1)
                                } else {
                                    walk(&old_mem, root, q)
                                } by {
                                Self::link_changes_walks(
                                    &old_mem,
                                    &self.memory,
                                    root,
                                    dir,
                                    table@,
                                    frame@,
                                    link@,
                                    addr,
                                    level,
                                    q,
                                );
                            }
                            reveal_with_fuel(table_at, 5);
                            assert(table_at(&self.memory, root, addr, level - 1) == Some(frame@))
                                by {
                                Self::link_keeps_path(
                                    &old_mem,
                                    &self.memory,
                                    root,
                                    dir,
                                    table@,
                                    frame@,
                                    link@,
                                    addr,
                                    level,
                                );
                            }
                        }
                        Ok(frame)
                    },
                }
            },
        }
    }

    /// Memory `after` is memory `before` with the table in `fresh` cleared
    /// and the entry of `table` that `addr` selects set to `link`.
    spec fn linked(
        before: &M,
        after: &M,
        table: int,
        fresh: int,
        link: u64,
        addr: int,
        level: int,
    ) -> bool {
        forall|f: int, i: int| #[trigger]
            after.entry(f, i) == if f == table && i == table_index(addr, level) {
                link
            } else if f == fresh && 0 <= i < 512 {
                0
            } else {
                before.entry(f, i)
            }
    }

    /// Linking a fresh, cleared table changes only the walks that read the
    /// new link: they now end one level lower.
    proof fn link_changes_walks(
        before: &M,
        after: &M,
        root: int,
        dir: Map<int, TablePath>,
        table: int,
        fresh: int,
        link: u64,
        addr: int,
        level: int,
        q: int,
    )
        requires
            is_tree(before, root, dir),
            2 <= level <= 4,
            table_at(before, root, addr, level) == Some(table),
            !entry_present(before.entry(table, table_index(addr, level))),
            !dir.dom().contains(fresh),
            entry_links(link),
            entry_address(link) == fresh,
            Self::linked(before, after, table, fresh, link, addr, level),
        ensures
            walk(after, root, q) == if shared_levels(addr, q) >= 5 - level {
                Walk::Missing(level - 1)
            } else {
                walk(before, root, q)
            },
    {
        reveal_with_fuel(table_at, 5);
        assert(entry_present(0u64) == false) by (bit_vector);
        walk_stays_in_tree(before, root, dir, addr, level);
        assert(0 <= table_index(q, 4) < 512);
        assert(0 <= table_index(q, 3) < 512);
        assert(0 <= table_index(q, 2) < 512);
        assert(0 <= table_index(q, 1) < 512);
        assert(0 <= table_index(addr, 4) < 512);
        assert(0 <= table_index(addr, 3) < 512);
        assert(0 <= table_index(addr, 2) < 512);
        if table_at(before, root, q, 3) is Some {
            walk_stays_in_tree(before, root, dir, q, 3);
        }
        if table_at(before, root, q, 2) is Some {
            walk_stays_in_tree(before, root, dir, q, 2);
        }
        if table_at(before, root, q, 1) is Some {
            walk_stays_in_tree(before, root, dir, q, 1);
        }
    }

    /// Linking a fresh table leaves the tables on the way to it in place.
    proof fn link_keeps_path(
        before: &M,
        after: &M,
        root: int,
        dir: Map<int, TablePath>,
        table: int,
        fresh: int,
        link: u64,
        addr: int,
        level: int,
    )
        requires
            is_tree(before, root, dir),
            2 <= level <= 4,
            table_at(before, root, addr, level) == Some(table),
            !entry_present(before.entry(table, table_index(addr, level))),
            !dir.dom().contains(fresh),
            entry_links(link),
            entry_address(link) == fresh,
            Self::linked(before, after, table, fresh, link, addr, level),
        ensures
            table_at(after, root, addr, level - 1) == Some(fresh),
    {
        reveal_with_fuel(table_at, 5);
        walk_stays_in_tree(before, root, dir, addr, level);
        assert(0 <= table_index(addr, 4) < 512);
        assert(0 <= table_index(addr, 3) < 512);
        assert(0 <= table_index(addr, 2) < 512);
        if level <= 3 {
            walk_stays_in_tree(before, root, dir, addr, 4);
        }
        if level <= 2 {
            walk_stays_in_tree(before, root, dir, addr, 3);
        }
    }
}

/// The first `count` frames of `frames`, as a set.
pub open spec fn taken(frames: Seq<int>, count: int) -> Set<int> {
    Set::new(|f: int| exists|i: int| 0 <= i < count && i < frames.len() && frames[i] == f)
}

/// Number of tables made once all tables above level `below` are in place,
/// on the way to a page whose walk was `target`.
spec fn created_above(target: Walk, below: int) -> int {
    match target {
        Walk::Missing(l) => if l > below {
            l - below
        } else {
            0
        },
        _ => 0,
    }
}

impl<M: PhysicalMemory> OffsetPageTable<M> {
    /// What holds between the state before `map_to` and the state in which
    /// the tables above level `below` are in place.
    spec fn tables_in_place<A: FrameAllocator>(
        &self,
        before: &Self,
        allocator: &A,
        frames: Seq<int>,
        addr: int,
        below: int,
        table: int,
    ) -> bool {
        let target = before.walk_of(addr);
        let created = created_above(target, below);
        &&& self.wf()
        &&& allocator.wf()
        &&& self.apart_from(allocator)
        &&& self.root() == before.root()
        &&& self.memory().flushed() == before.memory().flushed()
        &&& created <= frames.len()
        &&& allocator.remaining() == frames.skip(created)
        &&& self.tables() == before.tables().union(taken(frames, created))
        &&& table_at(&self.memory(), self.root(), addr, below) == Some(table)
        &&& target matches Walk::Huge(l) ==> l <= below
        &&& forall|q: int| #[trigger]
            self.walk_of(q) == walk_after_map(
                before.walk_of(q),
                target,
                shared_levels(addr, q),
                created,
                None,
            )
    }

    /// One step of `map_to`: the table below `table`, made if it is missing.
    fn descend<A: FrameAllocator>(
        &mut self,
        table: PhysFrame,
        index: u16,
        allocator: &mut A,
        Ghost(before): Ghost<&Self>,
        Ghost(frames): Ghost<Seq<int>>,
        Ghost(addr): Ghost<int>,
        Ghost(level): Ghost<int>,
    ) -> (r: Result<PhysFrame, MapToError>)
        requires
            2 <= level <= 4,
            index == table_index(addr, level),
            before.wf(),
            old(self).tables_in_place(before, old(allocator), frames, addr, level, table@),
        ensures
            r matches Ok(next) ==> final(self).tables_in_place(
                before,
                final(allocator),
                frames,
                addr,
                level - 1,
                next@,
            ),
            r matches Err(e) ==> final(self).failed(before, final(allocator), frames, addr)
                && map_to_error_above(before.walk_of(addr), frames.len() as int) == Some(e),
    {
        let ghost target = before.walk_of(addr);
        let ghost created = created_above(target, level);
        let ghost start = *self;
        let r = self.create_next_table(table, index, allocator, Ghost(addr), Ghost(level));
        proof {
            let e = start.memory.entry(table@, index as int);
            let here = start.walk_of(addr);
            walk_at_level(&start.memory, start.level_4_frame@, addr, level, table@);
            assert(shared_levels(addr, addr) == 4);
            assert(here == walk_after_map(target, target, 4, created, None));
            if !entry_present(e) && frames.skip(created).len() > 0 {
                let fresh = frames[created];
                assert(frames.skip(created)[0] == fresh);
                assert(frames.skip(created).drop_first() == frames.skip(created + 1));
                assert(taken(frames, created + 1) == taken(frames, created).insert(fresh));
                assert(self.tables() == before.tables().union(taken(frames, created + 1)));
                assert forall|q: int| #[trigger]
                    self.walk_of(q) == walk_after_map(
                        before.walk_of(q),
                        target,
                        shared_levels(addr, q),
                        created + 1,
                        None,
                    ) by {
                    assert(start.walk_of(q) == walk_after_map(
                        before.walk_of(q),
                        target,
                        shared_levels(addr, q),
                        created,
                        None,
                    ));
                    assert(0 <= shared_levels(addr, q) <= 4);
                }
            } else {
                assert(*self == start);
                if !entry_present(e) {
                    assert(frames.skip(created).len() == 0);
                }
            }
        }
        r
    }

    /// What holds when `map_to` fails.
    spec fn failed<A: FrameAllocator>(
        &self,
        before: &Self,
        allocator: &A,
        frames: Seq<int>,
        addr: int,
    ) -> bool {
        let target = before.walk_of(addr);
        let created = tables_created(target, frames.len() as int);
        &&& self.wf()
        &&& allocator.wf()
        &&& self.apart_from(allocator)
        &&& self.root() == before.root()
        &&& self.memory().flushed() == before.memory().flushed()
        &&& allocator.remaining() == frames.skip(created)
        &&& self.tables() == before.tables().union(taken(frames, created))
        &&& forall|q: int| #[trigger]
            self.walk_of(q) == walk_after_map(
                before.walk_of(q),
                target,
                shared_levels(addr, q),
                created,
                None,
            )
    }
}

/// The error of `map_to` that arises above level 1.
spec fn map_to_error_above(target: Walk, available: int) -> Option<MapToError> {
    match target {
        Walk::Missing(l) => if available >= l - 1 {
            None
        } else {
            Some(MapToError::FrameAllocationFailed)
        },
        Walk::Huge(l) => if l >= 2 {
            Some(MapToError::ParentEntryHugePage)
        } else {
            None
        },
        Walk::Leaf(_) => None,
    }
}

/// The level at which a walk ends.
pub open spec fn walk_level(w: Walk) -> int {
    match w {
        Walk::Missing(l) => l,
        Walk::Huge(l) => l,
        Walk::Leaf(_) => 1,
    }
}

/// The entry that a walk reads in the table of `level` decides whether the
/// walk ends there.
pub proof fn walk_at_level<M: PhysicalMemory>(
    mem: &M,
    root: int,
    addr: int,
    level: int,
    table: int,
)
    requires
        2 <= level <= 4,
        table_at(mem, root, addr, level) == Some(table),
    ensures
        ({
            let e = mem.entry(table, table_index(addr, level));
            let w = walk(mem, root, addr);
            &&& !entry_present(e) ==> w == Walk::Missing(level)
            &&& entry_present(e) && entry_huge(e) ==> w == Walk::Huge(level)
            &&& entry_links(e) ==> 1 <= walk_level(w) < level
        }),
{
    reveal_with_fuel(table_at, 5);
}

impl<M: PhysicalMemory> OffsetPageTable<M> {
    /// Writing the level 1 entry of `addr` changes the walks of the
    /// addresses of that page, and no others.
    proof fn leaf_changes_walks(
        before: &M,
        after: &M,
        root: int,
        dir: Map<int, TablePath>,
        table: int,
        leaf: u64,
        addr: int,
        q: int,
    )
        requires
            is_tree(before, root, dir),
            table_at(before, root, addr, 1) == Some(table),
            forall|f: int, i: int| #[trigger]
                after.entry(f, i) == if f == table && i == table_index(addr, 1) {
                    leaf
                } else {
                    before.entry(f, i)
                },
        ensures
            is_tree(after, root, dir),
            walk(after, root, q) == if shared_levels(addr, q) == 4 {
                leaf_walk(leaf)
            } else {
                walk(before, root, q)
            },
    {
        reveal_with_fuel(table_at, 5);
        walk_stays_in_tree(before, root, dir, addr, 1);
        walk_stays_in_tree(before, root, dir, addr, 2);
        walk_stays_in_tree(before, root, dir, addr, 3);
        assert(0 <= table_index(q, 4) < 512);
        assert(0 <= table_index(q, 3) < 512);
        assert(0 <= table_index(q, 2) < 512);
        assert(0 <= table_index(q, 1) < 512);
        assert(0 <= table_index(addr, 4) < 512);
        assert(0 <= table_index(addr, 3) < 512);
        assert(0 <= table_index(addr, 2) < 512);
        if table_at(before, root, q, 3) is Some {
            walk_stays_in_tree(before, root, dir, q, 3);
        }
        if table_at(before, root, q, 2) is Some {
            walk_stays_in_tree(before, root, dir, q, 2);
        }
        if table_at(before, root, q, 1) is Some {
            walk_stays_in_tree(before, root, dir, q, 1);
        }
        assert forall|f: int, i: int|
            dir.dom().contains(f) && 0 <= i < 512 && dir[f].depth < 3 && entry_links(
                #[trigger] after.entry(f, i),
            ) implies dir.dom().contains(entry_address(after.entry(f, i))) && dir[entry_address(
            after.entry(f, i),
        )] == dir[f].child(i) by {
            assert(after.entry(f, i) == before.entry(f, i));
            assert(entry_links(before.entry(f, i)));
        }
    }

    /// Maps `page` to `frame` with `flags`. Tables that are missing on the
    /// way are made from frames of `frame_allocator`.
    pub fn map_to<A: FrameAllocator>(
        &mut self,
        page: Page,
        frame: PhysFrame,
        flags: PageTableFlags,
        frame_allocator: &mut A,
    ) -> (r: Result<MapperFlush, MapToError>)
        requires
            old(self).wf(),
            old(frame_allocator).wf(),
            old(self).apart_from(old(frame_allocator)),
            !flags.has(HUGE_PAGE),
        ensures
            final(self).wf(),
            final(frame_allocator).wf(),
            final(self).apart_from(final(frame_allocator)),
            final(self).root() == old(self).root(),
            final(self).memory().flushed() == old(self).memory().flushed(),
            ({
                let target = old(self).walk_of(page@);
                let frames = old(frame_allocator).remaining();
                let created = tables_created(target, frames.len() as int);
                let error = map_to_error(target, frames.len() as int);
                &&& r is Ok <==> error is None
                &&& r matches Err(e) ==> error == Some(e)
                &&& r matches Ok(fl) ==> fl.page() == page@
                &&& final(frame_allocator).remaining() == frames.skip(created)
                &&& final(self).tables() == old(self).tables().union(taken(frames, created))
                &&& forall|q: int| #[trigger]
                    final(self).walk_of(q) == walk_after_map(
                        old(self).walk_of(q),
                        target,
                        shared_levels(page@, q),
                        created,
                        if r is Ok {
                            Some((frame@ as u64) | flags@)
                        } else {
                            None
                        },
                    )
            }),
    {
        let ghost before = *self;
        let ghost frames = frame_allocator.remaining();
        let ghost target = before.walk_of(page@);
        let addr = page.start_address();
        let root = self.level_4_frame;
        proof {
            assert(frames.skip(0) == frames);
            assert(before.tables().union(taken(frames, 0)) == before.tables());
            assert(1 <= walk_level(target) <= 4);
            assert forall|q: int| #[trigger]
                self.walk_of(q) == walk_after_map(
                    before.walk_of(q),
                    target,
                    shared_levels(page@, q),
                    0,
                    None,
                ) by {
                assert(0 <= shared_levels(page@, q) <= 4);
            }
        }
        let p3 = match self.descend(
            root,
            addr.p4_index(),
            frame_allocator,
            Ghost(&before),
            Ghost(frames),
            Ghost(page@),
            Ghost(4),
        ) {
            Ok(table) => table,
            Err(e) => {
                return Err(e);
            },
        };
        let p2 = match self.descend(
            p3,
            addr.p3_index(),
            frame_allocator,
            Ghost(&before),
            Ghost(frames),
            Ghost(page@),
            Ghost(3),
        ) {
            Ok(table) => table,
            Err(e) => {
                return Err(e);
            },
        };
        let p1 = match self.descend(
            p2,
            addr.p2_index(),
            frame_allocator,
            Ghost(&before),
            Ghost(frames),
            Ghost(page@),
            Ghost(2),
        ) {
            Ok(table) => table,
            Err(e) => {
                return Err(e);
            },
        };
        let index = addr.p1_index();
        let ghost reached = *self;
        let ghost created = created_above(target, 1);
        let entry = PageTableEntry::from_bits(self.memory.read_entry(p1, index));
        proof {
            reveal_with_fuel(table_at, 5);
            assert(shared_levels(page@, page@) == 4);
            assert(reached.walk_of(page@) == walk_after_map(target, target, 4, created, None));
            assert(reached.walk_of(page@) == leaf_walk(entry@));
        }
        if entry.bits() & PRESENT == PRESENT {
            return Err(MapToError::PageAlreadyMapped);
        }
        let mut leaf = PageTableEntry::new();
        leaf.set_frame(frame, flags);
        self.memory.write_entry(p1, index, leaf.bits());
        proof {
            assert forall|q: int| #[trigger]
                self.walk_of(q) == walk_after_map(
                    before.walk_of(q),
                    target,
                    shared_levels(page@, q),
                    created,
                    Some((frame@ as u64) | flags@),
                ) by {
                Self::leaf_changes_walks(
                    &reached.memory,
                    &self.memory,
                    self.level_4_frame@,
                    self.directory@,
                    p1@,
                    leaf@,
                    page@,
                    q,
                );
                assert(reached.walk_of(q) == walk_after_map(
                    before.walk_of(q),
                    target,
                    shared_levels(page@, q),
                    created,
                    None,
                ));
                assert(0 <= shared_levels(page@, q) <= 4);
            }
            Self::leaf_changes_walks(
                &reached.memory,
                &self.memory,
                self.level_4_frame@,
                self.directory@,
                p1@,
                leaf@,
                page@,
                page@,
            );
        }
        Ok(MapperFlush { page })
    }
}

/// A walk that reaches a level 1 table ends with the entry it reads there.
pub proof fn walk_at_leaf<M: PhysicalMemory>(mem: &M, root: int, addr: int, table: int)
    requires
        table_at(mem, root, addr, 1) == Some(table),
    ensures
        walk(mem, root, addr) == leaf_walk(mem.entry(table, table_index(addr, 1))),
{
    reveal_with_fuel(table_at, 5);
}

/// All addresses of one page select the same entries at every level.
pub proof fn page_shares_indices(page: u64, addr: u64)
    requires
        page % 4096 == 0,
        page <= addr,
        addr - page < 4096,
    ensures
        shared_levels(page as int, addr as int) == 4,
        addr % 4096 == addr - page,
{
    assert((addr / 0x80_0000_0000) % 512 == (page / 0x80_0000_0000) % 512 && (addr / 0x4000_0000)
        % 512 == (page / 0x4000_0000) % 512 && (addr / 0x20_0000) % 512 == (page / 0x20_0000) % 512
        && (addr / 0x1000) % 512 == (page / 0x1000) % 512 && addr % 4096 == addr - page)
        by (bit_vector)
        requires
            page % 4096 == 0,
            page <= addr,
            addr - page < 4096,
    ;
}

/// Two canonical addresses that select the same entries at every level lie
/// in the same page.
pub proof fn same_indices_same_page(a: u64, b: u64)
    requires
        is_canonical(a),
        is_canonical(b),
        shared_levels(a as int, b as int) == 4,
    ensures
        align_down_spec(a as int) == align_down_spec(b as int),
{
    assert(a - a % 4096 == b - b % 4096) by (bit_vector)
        requires
            a < 0x8000_0000_0000 || a >= 0xffff_8000_0000_0000,
            b < 0x8000_0000_0000 || b >= 0xffff_8000_0000_0000,
            (a / 0x80_0000_0000) % 512 == (b / 0x80_0000_0000) % 512,
            (a / 0x4000_0000) % 512 == (b / 0x4000_0000) % 512,
            (a / 0x20_0000) % 512 == (b / 0x20_0000) % 512,
            (a / 0x1000) % 512 == (b / 0x1000) % 512,
    ;
}

impl<M: PhysicalMemory> OffsetPageTable<M> {
    /// After `page` was mapped to `frame` with flags that say present, every
    /// address of the page translates to the frame's address plus the
    /// address's offset in the page. `self` is the table after the mapping
    /// and `before` the table before it.
    pub proof fn mapped_page_translates(
        &self,
        before: &Self,
        page: u64,
        frame: u64,
        flags: u64,
        created: int,
        addr: u64,
    )
        requires
            before.walk_of(page as int) is Missing,
            forall|q: int| #[trigger]
                self.walk_of(q) == walk_after_map(
                    before.walk_of(q),
                    before.walk_of(page as int),
                    shared_levels(page as int, q),
                    created,
                    Some(frame | flags),
                ),
            PhysFrame::is_frame_start(frame as int),
            flags & ADDRESS_MASK == 0,
            flags & PRESENT == PRESENT,
            flags & HUGE_PAGE != HUGE_PAGE,
            page % 4096 == 0,
            page <= addr,
            addr - page < 4096,
        ensures
            translation(self.walk_of(addr as int), addr as int) == Some(frame + addr % 4096),
    {
        page_shares_indices(page, addr);
        entry_of_parts(frame, flags);
        assert(1 <= walk_level(before.walk_of(page as int)) <= 4);
    }

    /// Mapping `page` maps no address outside the page: an address that was
    /// unmapped before, in another page, stays unmapped whether the mapping
    /// succeeded or failed. `self` is the table after, `before` the table
    /// before.
    pub proof fn other_pages_stay_unmapped(
        &self,
        before: &Self,
        page: u64,
        created: int,
        leaf: Option<u64>,
        addr: u64,
    )
        requires
            forall|q: int| #[trigger]
                self.walk_of(q) == walk_after_map(
                    before.walk_of(q),
                    before.walk_of(page as int),
                    shared_levels(page as int, q),
                    created,
                    leaf,
                ),
            is_canonical(page),
            is_canonical(addr),
            align_down_spec(addr as int) != align_down_spec(page as int),
            before.walk_of(addr as int) is Missing,
        ensures
            self.walk_of(addr as int) is Missing,
            translation(self.walk_of(addr as int), addr as int) is None,
    {
        if shared_levels(page as int, addr as int) == 4 {
            same_indices_same_page(page, addr);
        }
    }

    /// Mapping `page` leaves the translation of every mapped address in
    /// another page as it was.
    pub proof fn other_pages_keep_translation(
        &self,
        before: &Self,
        page: u64,
        created: int,
        leaf: Option<u64>,
        addr: u64,
    )
        requires
            forall|q: int| #[trigger]
                self.walk_of(q) == walk_after_map(
                    before.walk_of(q),
                    before.walk_of(page as int),
                    shared_levels(page as int, q),
                    created,
                    leaf,
                ),
            is_canonical(page),
            is_canonical(addr),
            align_down_spec(addr as int) != align_down_spec(page as int),
            !(before.walk_of(addr as int) is Missing),
        ensures
            self.walk_of(addr as int) == before.walk_of(addr as int),
    {
        if shared_levels(page as int, addr as int) == 4 {
            same_indices_same_page(page, addr);
        }
        assert(0 <= table_index(addr as int, 4) < 512);
    }
}

impl<M: PhysicalMemory> OffsetPageTable<M> {
    /// Two addresses that share their level 1 table both have walks that
    /// reach it, or neither has.
    pub proof fn same_table_same_level(&self, a: int, b: int)
        requires
            shared_levels(a, b) >= 3,
        ensures
            walk_level(self.walk_of(a)) == 1 <==> walk_level(self.walk_of(b)) == 1,
            1 <= walk_level(self.walk_of(a)) <= 4,
    {
    }
}

} // verus!
