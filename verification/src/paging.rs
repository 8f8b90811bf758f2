//! Page table entries, their flags, and the memory that holds page tables.

use crate::addr::{Page, PhysAddr, PhysFrame};
use vstd::prelude::*;

verus! {

/// The bits of an entry that hold the address of a frame.
pub const ADDRESS_MASK: u64 = 0x000f_ffff_ffff_f000;

/// The bits of an entry that hold flags.
pub const FLAGS_MASK: u64 = 0xfff0_0000_0000_0fff;

pub const PRESENT: u64 = 0x1;

pub const WRITABLE: u64 = 0x2;

pub const USER_ACCESSIBLE: u64 = 0x4;

pub const WRITE_THROUGH: u64 = 0x8;

pub const NO_CACHE: u64 = 0x10;

pub const ACCESSED: u64 = 0x20;

pub const DIRTY: u64 = 0x40;

pub const HUGE_PAGE: u64 = 0x80;

pub const GLOBAL: u64 = 0x100;

pub const NO_EXECUTE: u64 = 0x8000_0000_0000_0000;

/// Whether the entry `e` has its present bit set.
pub open spec fn entry_present(e: u64) -> bool {
    e & 0x1 == 0x1
}

/// Whether the entry `e` has its huge-page bit set.
pub open spec fn entry_huge(e: u64) -> bool {
    e & 0x80 == 0x80
}

/// The frame address that the entry `e` holds.
pub open spec fn entry_address(e: u64) -> int {
    (e & 0x000f_ffff_ffff_f000) as int
}

/// The flag bits of the entry `e`.
pub open spec fn entry_flags(e: u64) -> u64 {
    e & 0xfff0_0000_0000_0fff
}

/// Whether the entry `e` leads on to a frame: present, and no huge page.
pub open spec fn entry_links(e: u64) -> bool {
    entry_present(e) && !entry_huge(e)
}

/// The address held by any entry is the first address of a frame.
pub proof fn entry_address_is_frame_start(e: u64)
    ensures
        PhysFrame::is_frame_start(entry_address(e)),
{
    assert((e & 0x000f_ffff_ffff_f000) < 0x10_0000_0000_0000 && (e & 0x000f_ffff_ffff_f000) % 4096
        == 0) by (bit_vector);
}

/// An entry made of a frame address and flag bits holds both unchanged.
pub proof fn entry_of_parts(address: u64, flags: u64)
    requires
        PhysFrame::is_frame_start(address as int),
        flags & ADDRESS_MASK == 0,
    ensures
        entry_address(address | flags) == address,
        entry_flags(address | flags) == flags,
        entry_present(address | flags) == (flags & PRESENT == PRESENT),
        entry_huge(address | flags) == (flags & HUGE_PAGE == HUGE_PAGE),
{
    assert((address | flags) & 0x000f_ffff_ffff_f000 == address && (address | flags)
        & 0xfff0_0000_0000_0fff == flags && ((address | flags) & 1 == 1) == (flags & 1 == 1) && ((
    address | flags) & 0x80 == 0x80) == (flags & 0x80 == 0x80)) by (bit_vector)
        requires
            address < 0x10_0000_0000_0000,
            address % 4096 == 0,
            flags & 0x000f_ffff_ffff_f000 == 0,
    ;
}

/// A set of page table flags: any bits outside the address field.
#[derive(Clone, Copy, Debug, PartialEq, Eq, Structural)]
pub struct PageTableFlags {
    bits: u64,
}

impl PageTableFlags {
    #[verifier::type_invariant]
    spec fn inv(self) -> bool {
        self.bits & ADDRESS_MASK == 0
    }

    /// The flag bits.
    pub closed spec fn view(self) -> u64 {
        self.bits
    }

    /// Whether all bits of `flag` are set.
    pub open spec fn has(self, flag: u64) -> bool {
        self@ & flag == flag
    }

    /// The flags among `bits`; address bits are dropped.
    pub fn from_bits_truncate(bits: u64) -> (f: PageTableFlags)
        ensures
            f@ == bits & FLAGS_MASK,
            f@ & ADDRESS_MASK == 0,
    {
        assert((bits & 0xfff0_0000_0000_0fff) & 0x000f_ffff_ffff_f000 == 0) by (bit_vector);
        PageTableFlags { bits: bits & FLAGS_MASK }
    }

    /// No flag at all.
    pub fn empty() -> (f: PageTableFlags)
        ensures
            f@ == 0,
    {
        assert(0u64 & 0x000f_ffff_ffff_f000 == 0) by (bit_vector);
        PageTableFlags { bits: 0 }
    }

    /// The flags for a mapping that can be read and written.
    pub fn present_writable() -> (f: PageTableFlags)
        ensures
            f@ == PRESENT | WRITABLE,
            f@ == 3,
            f.has(PRESENT),
            f.has(WRITABLE),
            !f.has(HUGE_PAGE),
    {
        assert(3u64 & 0x000f_ffff_ffff_f000 == 0 && 1u64 | 2u64 == 3 && 3u64 & 1 == 1 && 3u64 & 2
            == 2 && 3u64 & 0x80 != 0x80) by (bit_vector);
        PageTableFlags { bits: 3 }
    }

    pub fn bits(self) -> (b: u64)
        ensures
            b == self@,
            b & ADDRESS_MASK == 0,
    {
        proof {
            use_type_invariant(self);
        }
        self.bits
    }

    /// Whether all bits of `flag` are set.
    pub fn contains(self, flag: u64) -> (b: bool)
        ensures
            b == self.has(flag),
    {
        self.bits & flag == flag
    }

    /// The flags of both sets.
    pub fn union(self, other: PageTableFlags) -> (f: PageTableFlags)
        ensures
            f@ == self@ | other@,
    {
        let a = self.bits();
        let b = other.bits();
        assert((a | b) & 0x000f_ffff_ffff_f000 == 0) by (bit_vector)
            requires
                a & 0x000f_ffff_ffff_f000 == 0,
                b & 0x000f_ffff_ffff_f000 == 0,
        ;
        PageTableFlags { bits: a | b }
    }
}

/// Why an entry gives no frame.
#[derive(Clone, Copy, Debug, PartialEq, Eq, Structural)]
pub enum FrameError {
    /// The present bit is not set.
    FrameNotPresent,
    /// The huge-page bit is set.
    HugeFrame,
}

/// One entry of a page table.
#[derive(Clone, Copy, Debug, PartialEq, Eq, Structural)]
pub struct PageTableEntry {
    entry: u64,
}

impl PageTableEntry {
    /// The entry's 64 bits.
    pub closed spec fn view(self) -> u64 {
        self.entry
    }

    /// What `frame` answers for an entry with the bits `e`.
    pub open spec fn frame_of(e: u64) -> Result<int, FrameError> {
        if !entry_present(e) {
            Err(FrameError::FrameNotPresent)
        } else if entry_huge(e) {
            Err(FrameError::HugeFrame)
        } else {
            Ok(entry_address(e))
        }
    }

    /// An unused entry.
    pub fn new() -> (e: PageTableEntry)
        ensures
            e@ == 0,
    {
        PageTableEntry { entry: 0 }
    }

    /// The entry with the given bits.
    pub fn from_bits(bits: u64) -> (e: PageTableEntry)
        ensures
            e@ == bits,
    {
        PageTableEntry { entry: bits }
    }

    pub fn bits(&self) -> (b: u64)
        ensures
            b == self@,
    {
        self.entry
    }

    /// Whether the entry is zero.
    pub fn is_unused(&self) -> (b: bool)
        ensures
            b == (self@ == 0),
    {
        self.entry == 0
    }

    /// Sets the entry to zero.
    pub fn set_unused(&mut self)
        ensures
            final(self)@ == 0,
    {
        self.entry = 0;
    }

    pub fn flags(&self) -> (f: PageTableFlags)
        ensures
            f@ == entry_flags(self@),
    {
        PageTableFlags::from_bits_truncate(self.entry)
    }

    /// The address that the entry holds; it may be zero.
    pub fn addr(&self) -> (a: PhysAddr)
        ensures
            a@ == entry_address(self@),
    {
        proof {
            entry_address_is_frame_start(self.entry);
        }
        PhysAddr::new(self.entry & ADDRESS_MASK)
    }

    /// The frame that the entry leads to.
    pub fn frame(&self) -> (r: Result<PhysFrame, FrameError>)
        ensures
            r is Ok <==> Self::frame_of(self@) is Ok,
            r matches Ok(f) ==> Self::frame_of(self@) == Ok::<int, FrameError>(f@),
            r matches Err(e) ==> Self::frame_of(self@) == Err::<int, FrameError>(e),
    {
        if self.entry & PRESENT != PRESENT {
            Err(FrameError::FrameNotPresent)
        } else if self.entry & HUGE_PAGE == HUGE_PAGE {
            Err(FrameError::HugeFrame)
        } else {
            let address = self.addr();
            proof {
                entry_address_is_frame_start(self.entry);
            }
            Ok(PhysFrame::containing_address(address))
        }
    }

    /// Makes the entry lead to `frame`, with `flags`.
    pub fn set_frame(&mut self, frame: PhysFrame, flags: PageTableFlags)
        ensures
            final(self)@ == (frame@ as u64) | flags@,
            entry_address(final(self)@) == frame@,
            entry_flags(final(self)@) == flags@,
            entry_present(final(self)@) == flags.has(PRESENT),
            entry_huge(final(self)@) == flags.has(HUGE_PAGE),
    {
        let address = frame.start_u64();
        let bits = flags.bits();
        proof {
            entry_of_parts(address, bits);
        }
        self.entry = address | bits;
    }
}

/// Physical memory as far as page tables need it: each frame read and
/// written as a table of 512 entries, and the translation cache of the
/// processor that reads those tables.
pub trait PhysicalMemory {
    /// Whether the memory is fit for use. Unless an implementation says
    /// otherwise, it always is.
    open spec fn wf(&self) -> bool {
        true
    }

    /// The entry at `index` of the table in the frame that starts at `frame`.
    /// Unless an implementation says more, nothing is known of it but what
    /// reading and writing tell.
    open spec fn entry(&self, frame: int, index: int) -> u64 {
        arbitrary()
    }

    /// The pages whose cached translation was discarded, oldest first.
    open spec fn flushed(&self) -> Seq<int> {
        arbitrary()
    }

    fn read_entry(&self, frame: PhysFrame, index: u16) -> (e: u64)
        requires
            self.wf(),
            index < 512,
        ensures
            e == self.entry(frame@, index as int),
    ;

    fn write_entry(&mut self, frame: PhysFrame, index: u16, value: u64)
        requires
            old(self).wf(),
            index < 512,
        ensures
            final(self).wf(),
            final(self).flushed() == old(self).flushed(),
            forall|f: int, i: int| #[trigger]
                final(self).entry(f, i) == if f == frame@ && i == index {
                    value
                } else {
                    old(self).entry(f, i)
                },
    ;

    /// Discards the cached translation of `page`.
    fn flush(&mut self, page: Page)
        requires
            old(self).wf(),
        ensures
            final(self).wf(),
            final(self).flushed() == old(self).flushed().push(page@),
            forall|f: int, i: int| #[trigger] final(self).entry(f, i) == old(self).entry(f, i),
    ;
}

} // verus!
