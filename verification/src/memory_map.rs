//! The map of physical memory that the boot hand-off supplies.

use vstd::prelude::*;

verus! {

/// Frame numbers stay below 2^40, so that frame addresses stay below 2^52.
pub const FRAME_NUMBER_LIMIT: u64 = 0x100_0000_0000;

/// A memory map holds at most this many regions.
pub const MAX_MEMORY_MAP_SIZE: usize = 64;

/// What a region of physical memory is used for.
#[derive(Clone, Copy, Debug, PartialEq, Eq, Structural)]
pub enum MemoryRegionType {
    /// Unused memory, free for the kernel.
    Usable,
    /// Memory that is already in use.
    InUse,
    /// Memory reserved by the hardware.
    Reserved,
    /// ACPI reclaimable memory.
    AcpiReclaimable,
    /// ACPI NVS memory.
    AcpiNvs,
    /// Area containing bad memory.
    BadMemory,
    /// Memory that holds the kernel.
    Kernel,
    /// Memory that holds the kernel stack.
    KernelStack,
    /// Memory that holds page tables.
    PageTable,
    /// Memory used by the boot loader.
    Bootloader,
    /// The frame at address zero.
    FrameZero,
    /// An empty region.
    Empty,
    /// Memory that holds the boot information.
    BootInfo,
    /// Memory that holds a supplied package.
    Package,
}

/// A range of frames, given by frame numbers; the end is exclusive.
#[derive(Clone, Copy, Debug, PartialEq, Eq, Structural)]
pub struct FrameRange {
    pub start_frame_number: u64,
    pub end_frame_number: u64,
}

impl FrameRange {
    /// Number of frames in the range.
    pub open spec fn count(self) -> nat {
        if self.start_frame_number < self.end_frame_number {
            (self.end_frame_number - self.start_frame_number) as nat
        } else {
            0
        }
    }

    /// Whether the two ranges share no frame.
    pub open spec fn disjoint(self, other: FrameRange) -> bool {
        self.count() == 0 || other.count() == 0 || self.end_frame_number
            <= other.start_frame_number || other.end_frame_number <= self.start_frame_number
    }

    pub fn is_empty(&self) -> (b: bool)
        ensures
            b == (self.start_frame_number == self.end_frame_number),
    {
        self.start_frame_number == self.end_frame_number
    }
}

/// A region of physical memory and its use.
#[derive(Clone, Copy, Debug, PartialEq, Eq, Structural)]
pub struct MemoryRegion {
    pub range: FrameRange,
    pub region_type: MemoryRegionType,
}

impl MemoryRegion {
    pub open spec fn is_usable(self) -> bool {
        self.region_type == MemoryRegionType::Usable
    }

    /// Number of frames that the region offers for allocation.
    pub open spec fn usable_count(self) -> nat {
        if self.is_usable() {
            self.range.count()
        } else {
            0
        }
    }

    /// The start addresses of the frames that the region offers, ascending.
    pub open spec fn frames(self) -> Seq<int> {
        Seq::new(self.usable_count(), |k: int| (self.range.start_frame_number + k) * 4096)
    }

    /// A usable region must lie below the end of physical address space.
    pub open spec fn in_bounds(self) -> bool {
        self.usable_count() > 0 ==> self.range.end_frame_number <= FRAME_NUMBER_LIMIT
    }

    /// Two regions are compatible unless both are usable and overlap.
    pub open spec fn compatible(self, other: MemoryRegion) -> bool {
        self.is_usable() && other.is_usable() ==> self.range.disjoint(other.range)
    }
}

/// The start addresses of all usable frames of `regions`, region by region.
pub open spec fn usable_frames(regions: Seq<MemoryRegion>) -> Seq<int>
    decreases regions.len(),
{
    if regions.len() == 0 {
        Seq::empty()
    } else {
        usable_frames(regions.drop_last()) + regions.last().frames()
    }
}

/// Validity of a region list: bounded in length, each usable region inside
/// physical address space, and no frame usable twice.
pub open spec fn regions_valid(regions: Seq<MemoryRegion>) -> bool {
    &&& regions.len() <= MAX_MEMORY_MAP_SIZE
    &&& forall|i: int| 0 <= i < regions.len() ==> (#[trigger] regions[i]).in_bounds()
    &&& forall|i: int, j: int|
        0 <= i < j < regions.len() ==> (#[trigger] regions[i]).compatible(#[trigger] regions[j])
}

/// Why a region was not added to a memory map.
#[derive(Clone, Copy, Debug, PartialEq, Eq, Structural)]
pub enum RegionError {
    /// The map already holds the maximum number of regions.
    TooManyRegions,
    /// The usable region reaches beyond physical address space.
    OutOfBounds,
    /// The usable region shares a frame with a usable region of the map.
    Overlap,
}

/// An ordered list of memory regions in which no frame is usable twice.
#[derive(Debug)]
pub struct MemoryMap {
    regions: Vec<MemoryRegion>,
}

impl MemoryMap {
    /// The regions, in the order in which they were added.
    pub closed spec fn view(&self) -> Seq<MemoryRegion> {
        self.regions@
    }

    pub closed spec fn wf(&self) -> bool {
        regions_valid(self.regions@)
    }

    /// Validity is exactly validity of the region list.
    pub proof fn wf_is_regions_valid(&self)
        ensures
            self.wf() == regions_valid(self@),
    {
    }

    /// The empty map.
    pub fn new() -> (m: MemoryMap)
        ensures
            m.wf(),
            m@ == Seq::<MemoryRegion>::empty(),
    {
        MemoryMap { regions: Vec::new() }
    }

    /// What `add_region` answers for `region` on a map that holds `regions`.
    pub open spec fn add_outcome(regions: Seq<MemoryRegion>, region: MemoryRegion) -> Result<
        (),
        RegionError,
    > {
        if regions.len() >= MAX_MEMORY_MAP_SIZE {
            Err(RegionError::TooManyRegions)
        } else if !region.in_bounds() {
            Err(RegionError::OutOfBounds)
        } else if exists|i: int| 0 <= i < regions.len() && !(#[trigger] regions[i]).compatible(region) {
            Err(RegionError::Overlap)
        } else {
            Ok(())
        }
    }

    /// Appends `region`, unless that would make the map invalid.
    pub fn add_region(&mut self, region: MemoryRegion) -> (r: Result<(), RegionError>)
        requires
            old(self).wf(),
        ensures
            final(self).wf(),
            r == Self::add_outcome(old(self)@, region),
            r is Ok ==> final(self)@ == old(self)@.push(region),
            r is Err ==> final(self)@ == old(self)@,
    {
        if self.regions.len() >= MAX_MEMORY_MAP_SIZE {
            return Err(RegionError::TooManyRegions);
        }
        let usable = matches!(region.region_type, MemoryRegionType::Usable);
        let start = region.range.start_frame_number;
        let end = region.range.end_frame_number;
        if usable && start < end {
            if end > FRAME_NUMBER_LIMIT {
                return Err(RegionError::OutOfBounds);
            }
            let mut i: usize = 0;
            while i < self.regions.len()
                invariant
                    i <= self.regions.len(),
                    self.regions@ == old(self).regions@,
                    old(self).wf(),
                    self.regions@.len() < MAX_MEMORY_MAP_SIZE,
                    region.in_bounds(),
                    region.is_usable(),
                    start == region.range.start_frame_number,
                    end == region.range.end_frame_number,
                    start < end,
                    forall|k: int| 0 <= k < i ==> (#[trigger] self.regions@[k]).compatible(region),
                decreases self.regions.len() - i,
            {
                let other = self.regions[i];
                let other_usable = matches!(other.region_type, MemoryRegionType::Usable);
                let s = other.range.start_frame_number;
                let e = other.range.end_frame_number;
                if other_usable && s < e && !(end <= s || e <= start) {
                    assert(!self.regions@[i as int].compatible(region));
                    return Err(RegionError::Overlap);
                }
                i += 1;
            }
        }
        self.regions.push(region);
        proof {
            let old_regions = old(self).regions@;
            let new_regions = self.regions@;
            assert(new_regions == old_regions.push(region));
            assert forall|i: int, j: int| 0 <= i < j < new_regions.len() implies (
            #[trigger] new_regions[i]).compatible(#[trigger] new_regions[j]) by {
                if j < old_regions.len() {
                    assert(old_regions[i].compatible(old_regions[j]));
                } else {
                    assert(old_regions[i].compatible(region));
                }
            }
        }
        Ok(())
    }

    pub fn len(&self) -> (n: usize)
        ensures
            n == self@.len(),
    {
        self.regions.len()
    }

    /// The region at position `index`.
    pub fn region(&self, index: usize) -> (r: MemoryRegion)
        requires
            index < self@.len(),
        ensures
            r == self@[index as int],
    {
        self.regions[index]
    }
}

} // verus!
