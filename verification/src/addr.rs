//! Physical and virtual addresses, frames and pages.
//!
//! The address types hold plain integers. Validation, index extraction and
//! alignment are done by the `x86_64` crate; the small functions at the top of
//! this file call it and state, without proof, what its source shows.

use vstd::prelude::*;

verus! {

/// Size of a physical frame and of a virtual page, in bytes.
pub const PAGE_SIZE: u64 = 4096;

/// Number of entries in one page table.
pub const ENTRY_COUNT: u64 = 512;

/// A physical address has at most 52 bits.
pub open spec fn is_phys_addr(addr: u64) -> bool {
    addr < 0x10_0000_0000_0000
}

/// A virtual address is canonical when bits 48 to 63 repeat bit 47.
pub open spec fn is_canonical(addr: u64) -> bool {
    addr < 0x8000_0000_0000 || addr >= 0xffff_8000_0000_0000
}

/// What canonicalisation makes of a raw integer: addresses with only bit 47
/// set above the low 47 bits are sign extended, canonical ones are kept, all
/// others are refused.
pub open spec fn canonical_form(addr: u64) -> Option<u64> {
    if is_canonical(addr) {
        Some(addr)
    } else if addr < 0x1_0000_0000_0000 {
        Some((addr + 0xffff_0000_0000_0000) as u64)
    } else {
        None
    }
}

/// Start of the 4 KiB unit that holds `addr`.
pub open spec fn align_down_spec(addr: int) -> int {
    addr - addr % 4096
}

/// Index into the table of the given level (4 is the root) that `addr` selects.
pub open spec fn table_index(addr: int, level: int) -> int {
    if level == 4 {
        (addr / 0x80_0000_0000) % 512
    } else if level == 3 {
        (addr / 0x4000_0000) % 512
    } else if level == 2 {
        (addr / 0x20_0000) % 512
    } else {
        (addr / 0x1000) % 512
    }
}

/// `x86_64::PhysAddr::try_new` accepts exactly the integers below 2^52.
#[verifier::external_body]
fn phys_addr_is_valid(addr: u64) -> (ok: bool)
    ensures
        ok == is_phys_addr(addr),
{
    x86_64::PhysAddr::try_new(addr).is_ok()
}

/// `x86_64::VirtAddr::try_new` keeps a canonical address, sign extends one
/// whose bits 48 to 63 are zero while bit 47 is set, and refuses the rest.
#[verifier::external_body]
fn virt_addr_try_new(addr: u64) -> (r: Option<u64>)
    ensures
        r == canonical_form(addr),
{
    match x86_64::VirtAddr::try_new(addr) {
        Ok(v) => Some(v.as_u64()),
        Err(_) => None,
    }
}

/// `x86_64::VirtAddr::p4_index`: bits 39 to 47 of the address.
#[verifier::external_body]
fn virt_addr_p4_index(addr: u64) -> (i: u16)
    requires
        is_canonical(addr),
    ensures
        i == table_index(addr as int, 4),
{
    u16::from(x86_64::VirtAddr::new(addr).p4_index())
}

/// `x86_64::VirtAddr::p3_index`: bits 30 to 38 of the address.
#[verifier::external_body]
fn virt_addr_p3_index(addr: u64) -> (i: u16)
    requires
        is_canonical(addr),
    ensures
        i == table_index(addr as int, 3),
{
    u16::from(x86_64::VirtAddr::new(addr).p3_index())
}

/// `x86_64::VirtAddr::p2_index`: bits 21 to 29 of the address.
#[verifier::external_body]
fn virt_addr_p2_index(addr: u64) -> (i: u16)
    requires
        is_canonical(addr),
    ensures
        i == table_index(addr as int, 2),
{
    u16::from(x86_64::VirtAddr::new(addr).p2_index())
}

/// `x86_64::VirtAddr::p1_index`: bits 12 to 20 of the address.
#[verifier::external_body]
fn virt_addr_p1_index(addr: u64) -> (i: u16)
    requires
        is_canonical(addr),
    ensures
        i == table_index(addr as int, 1),
{
    u16::from(x86_64::VirtAddr::new(addr).p1_index())
}

/// `x86_64::VirtAddr::page_offset`: the low 12 bits of the address.
#[verifier::external_body]
fn virt_addr_page_offset(addr: u64) -> (o: u16)
    requires
        is_canonical(addr),
    ensures
        o == addr % 4096,
{
    u16::from(x86_64::VirtAddr::new(addr).page_offset())
}

/// `x86_64::structures::paging::PhysFrame::containing_address` rounds the
/// address down to a multiple of 4096.
#[verifier::external_body]
fn frame_start_containing(addr: u64) -> (start: u64)
    requires
        is_phys_addr(addr),
    ensures
        start == align_down_spec(addr as int),
{
    let frame: x86_64::structures::paging::PhysFrame =
        x86_64::structures::paging::PhysFrame::containing_address(x86_64::PhysAddr::new(addr));
    frame.start_address().as_u64()
}

/// `x86_64::structures::paging::Page::containing_address` rounds a canonical
/// address down to a multiple of 4096.
#[verifier::external_body]
fn page_start_containing(addr: u64) -> (start: u64)
    requires
        is_canonical(addr),
    ensures
        start == align_down_spec(addr as int),
{
    let page: x86_64::structures::paging::Page =
        x86_64::structures::paging::Page::containing_address(x86_64::VirtAddr::new(addr));
    page.start_address().as_u64()
}

/// A physical address. Every value is below 2^52.
#[derive(Clone, Copy, Debug, PartialEq, Eq, Structural)]
pub struct PhysAddr {
    addr: u64,
}

impl PhysAddr {
    #[verifier::type_invariant]
    spec fn inv(self) -> bool {
        is_phys_addr(self.addr)
    }

    /// The address as an integer.
    pub closed spec fn view(self) -> int {
        self.addr as int
    }

    /// The address `addr`, or `None` when a bit from 52 upwards is set.
    pub fn try_new(addr: u64) -> (r: Option<PhysAddr>)
        ensures
            r is Some <==> is_phys_addr(addr),
            r is Some ==> r.unwrap()@ == addr,
    {
        if phys_addr_is_valid(addr) {
            Some(PhysAddr { addr })
        } else {
            None
        }
    }

    /// The address `addr`, which must be below 2^52.
    pub fn new(addr: u64) -> (r: PhysAddr)
        requires
            is_phys_addr(addr),
        ensures
            r@ == addr,
    {
        PhysAddr { addr }
    }

    pub fn as_u64(self) -> (r: u64)
        ensures
            r == self@,
            is_phys_addr(r),
    {
        proof {
            use_type_invariant(self);
        }
        self.addr
    }
}

/// A canonical virtual address.
#[derive(Clone, Copy, Debug, PartialEq, Eq, Structural)]
pub struct VirtAddr {
    addr: u64,
}

impl VirtAddr {
    #[verifier::type_invariant]
    spec fn inv(self) -> bool {
        is_canonical(self.addr)
    }

    /// The address as an integer.
    pub closed spec fn view(self) -> int {
        self.addr as int
    }

    /// The canonical form of `addr`, or `None` when bits 48 to 63 hold
    /// anything but zeros or a sign extension.
    pub fn try_new(addr: u64) -> (r: Option<VirtAddr>)
        ensures
            r is Some <==> canonical_form(addr) is Some,
            r is Some ==> r.unwrap()@ == canonical_form(addr).unwrap(),
    {
        match virt_addr_try_new(addr) {
            Some(a) => Some(VirtAddr { addr: a }),
            None => None,
        }
    }

    /// The address `addr`, which must be canonical.
    pub fn new(addr: u64) -> (r: VirtAddr)
        requires
            is_canonical(addr),
        ensures
            r@ == addr,
    {
        VirtAddr { addr }
    }

    pub fn as_u64(self) -> (r: u64)
        ensures
            r == self@,
            is_canonical(r),
    {
        proof {
            use_type_invariant(self);
        }
        self.addr
    }

    /// Offset of the address within its page.
    pub fn page_offset(self) -> (o: u16)
        ensures
            o == self@ % 4096,
    {
        proof {
            use_type_invariant(self);
        }
        virt_addr_page_offset(self.addr)
    }

    /// Index into the level 1 table.
    pub fn p1_index(self) -> (i: u16)
        ensures
            i == table_index(self@, 1),
            i < 512,
    {
        proof {
            use_type_invariant(self);
        }
        virt_addr_p1_index(self.addr)
    }

    /// Index into the level 2 table.
    pub fn p2_index(self) -> (i: u16)
        ensures
            i == table_index(self@, 2),
            i < 512,
    {
        proof {
            use_type_invariant(self);
        }
        virt_addr_p2_index(self.addr)
    }

    /// Index into the level 3 table.
    pub fn p3_index(self) -> (i: u16)
        ensures
            i == table_index(self@, 3),
            i < 512,
    {
        proof {
            use_type_invariant(self);
        }
        virt_addr_p3_index(self.addr)
    }

    /// Index into the level 4 table.
    pub fn p4_index(self) -> (i: u16)
        ensures
            i == table_index(self@, 4),
            i < 512,
    {
        proof {
            use_type_invariant(self);
        }
        virt_addr_p4_index(self.addr)
    }
}

/// A 4 KiB frame of physical memory, named by its first address.
#[derive(Clone, Copy, Debug, PartialEq, Eq, Structural)]
pub struct PhysFrame {
    start: u64,
}

impl PhysFrame {
    #[verifier::type_invariant]
    spec fn inv(self) -> bool {
        is_phys_addr(self.start) && self.start % 4096 == 0
    }

    /// The frame's first address.
    pub closed spec fn view(self) -> int {
        self.start as int
    }

    /// Whether `addr` can be the first address of a frame.
    pub open spec fn is_frame_start(addr: int) -> bool {
        0 <= addr < 0x10_0000_0000_0000 && addr % 4096 == 0
    }

    /// The frame that holds `address`.
    pub fn containing_address(address: PhysAddr) -> (f: PhysFrame)
        ensures
            f@ == align_down_spec(address@),
            Self::is_frame_start(f@),
    {
        let a = address.as_u64();
        PhysFrame { start: frame_start_containing(a) }
    }

    /// The frame that starts at `address`, or `None` when `address` is not
    /// a multiple of the frame size.
    pub fn from_start_address(address: PhysAddr) -> (r: Option<PhysFrame>)
        ensures
            r is Some <==> address@ % 4096 == 0,
            r is Some ==> r.unwrap()@ == address@,
    {
        let a = address.as_u64();
        if a % PAGE_SIZE == 0 {
            Some(PhysFrame { start: a })
        } else {
            None
        }
    }

    pub fn start_address(self) -> (a: PhysAddr)
        ensures
            a@ == self@,
            Self::is_frame_start(a@),
    {
        proof {
            use_type_invariant(self);
        }
        PhysAddr::new(self.start)
    }

    /// The frame's first address as an integer.
    pub fn start_u64(self) -> (a: u64)
        ensures
            a == self@,
            Self::is_frame_start(a as int),
    {
        proof {
            use_type_invariant(self);
        }
        self.start
    }
}

/// A 4 KiB page of virtual memory, named by its first address.
#[derive(Clone, Copy, Debug, PartialEq, Eq, Structural)]
pub struct Page {
    start: u64,
}

impl Page {
    #[verifier::type_invariant]
    spec fn inv(self) -> bool {
        is_canonical(self.start) && self.start % 4096 == 0
    }

    /// The page's first address.
    pub closed spec fn view(self) -> int {
        self.start as int
    }

    /// Whether `addr` can be the first address of a page.
    pub open spec fn is_page_start(addr: int) -> bool {
        0 <= addr <= u64::MAX && is_canonical(addr as u64) && addr % 4096 == 0
    }

    /// The page that holds `address`.
    pub fn containing_address(address: VirtAddr) -> (p: Page)
        ensures
            p@ == align_down_spec(address@),
            Self::is_page_start(p@),
    {
        let a = address.as_u64();
        let start = page_start_containing(a);
        Page { start }
    }

    /// The page that starts at `address`, or `None` when `address` is not a
    /// multiple of the page size.
    pub fn from_start_address(address: VirtAddr) -> (r: Option<Page>)
        ensures
            r is Some <==> address@ % 4096 == 0,
            r is Some ==> r.unwrap()@ == address@,
    {
        let a = address.as_u64();
        if a % PAGE_SIZE == 0 {
            Some(Page { start: a })
        } else {
            None
        }
    }

    pub fn start_address(self) -> (a: VirtAddr)
        ensures
            a@ == self@,
            Self::is_page_start(a@),
    {
        proof {
            use_type_invariant(self);
        }
        VirtAddr::new(self.start)
    }
}

} // verus!
