use vstd::prelude::*;

use x86_64::structures::paging::{PageTable, PageTableFlags, PhysFrame, Size4KiB};
use x86_64::{PhysAddr, VirtAddr};

verus! {

/// Entry flag: the entry maps something.
pub const PRESENT: u64 = 1;

/// Entry flag: writes are allowed.
pub const WRITABLE: u64 = 2;

/// Entry flag: a level-3 or level-2 entry maps a 1 GiB or 2 MiB page itself.
pub const HUGE_PAGE: u64 = 0x80;

/// The bits of an entry that hold the physical address.
pub const ADDRESS_MASK: u64 = 0x000F_FFFF_FFFF_F000;

#[verifier::external_type_specification]
#[verifier::external_body]
pub struct ExPageTable(PageTable);

/// The 512 entries of a page table, each as the 64-bit value it holds.
pub uninterp spec fn page_table_entries(t: PageTable) -> Seq<u64>;

/// A virtual address is canonical when bits 48 to 63 copy bit 47.
pub open spec fn is_canonical(addr: u64) -> bool {
    addr < 0x0000_8000_0000_0000 || addr >= 0xFFFF_8000_0000_0000
}

/// `VirtAddr::new`: returns the address, which must be canonical (else it panics).
#[verifier::external_body]
pub fn virt_addr(addr: u64) -> (ret: u64)
    requires
        is_canonical(addr),
    ensures
        ret == addr,
{
    VirtAddr::new(addr).as_u64()
}


/// The canonical form of `addr`: bits 48 to 63 become copies of bit 47.
pub open spec fn sign_extend_48(addr: u64) -> u64 {
    if addr & 0x8000_0000_0000u64 != 0 {
        addr | 0xFFFF_0000_0000_0000u64
    } else {
        addr & 0x0000_FFFF_FFFF_FFFFu64
    }
}

/// `VirtAddr::new_truncate`: the address with bits 48 to 63 replaced by copies of
/// bit 47.
#[verifier::external_body]
pub fn virt_addr_truncate(addr: u64) -> (ret: u64)
    ensures
        ret == sign_extend_48(addr),
{
    VirtAddr::new_truncate(addr).as_u64()
}

/// `PhysAddr::new`: returns the address, which must not have bits 52 to 63 set (else it panics).
#[verifier::external_body]
pub fn phys_addr(addr: u64) -> (ret: u64)
    requires
        addr < 0x10_0000_0000_0000,
    ensures
        ret == addr,
{
    PhysAddr::new(addr).as_u64()
}

/// `PhysFrame::from_start_address(PhysAddr::new(addr))`: the 4 KiB frame that starts at
/// `addr`, as its start address; `None` when `addr` is not 4 KiB aligned. `PhysAddr::new`
/// panics when bits 52 to 63 are set.
#[verifier::external_body]
pub fn frame_from_start_address(addr: u64) -> (ret: Option<u64>)
    requires
        addr < 0x10_0000_0000_0000,
    ensures
        ret is Some <==> addr % 4096 == 0,
        ret matches Some(a) ==> a == addr,
{
    match PhysFrame::<Size4KiB>::from_start_address(PhysAddr::new(addr)) {
        Ok(frame) => Some(frame.start_address().as_u64()),
        Err(_) => None,
    }
}

/// `PhysFrame::containing_address(PhysAddr::new(addr))`: the start address of the 4 KiB
/// frame that holds `addr` (`PhysAddr::new` panics when bits 52 to 63 are set).
#[verifier::external_body]
pub fn frame_containing_address(addr: u64) -> (ret: u64)
    requires
        addr < 0x10_0000_0000_0000,
    ensures
        ret == addr - addr % 4096,
{
    PhysFrame::<Size4KiB>::containing_address(PhysAddr::new(addr)).start_address().as_u64()
}

/// `PageTable::new`: a table whose 512 entries are all zero.
#[verifier::external_body]
pub fn new_page_table() -> (ret: PageTable)
    ensures
        page_table_entries(ret) == Seq::new(512, |i: int| 0u64),
{
    PageTable::new()
}

/// `PageTable::iter(..).count()`: the number of entries of a table, which is always 512
/// (the iterator yields entries 0 to 511).
#[verifier::external_body]
pub fn table_entry_count(t: &PageTable) -> (ret: usize)
    ensures
        ret == 512,
        ret == page_table_entries(*t).len(),
{
    t.iter().count()
}

/// `PageTableEntry::is_unused` of entry `i` of table `k`: whether the entry is zero.
#[verifier::external_body]
pub fn entry_is_unused(tables: &Vec<PageTable>, k: usize, i: usize) -> (ret: bool)
    requires
        k < tables@.len(),
        i < 512,
    ensures
        ret == (page_table_entries(tables@[k as int])[i as int] == 0),
{
    tables[k][i].is_unused()
}

/// `PageTableEntry::flags` of entry `i` of table `k`: the bits outside the address bits.
#[verifier::external_body]
pub fn entry_flags(tables: &Vec<PageTable>, k: usize, i: usize) -> (ret: u64)
    requires
        k < tables@.len(),
        i < 512,
    ensures
        ret == page_table_entries(tables@[k as int])[i as int] & !ADDRESS_MASK,
{
    tables[k][i].flags().bits()
}

/// `PageTableEntry::addr` of entry `i` of table `k`: the address bits.
#[verifier::external_body]
pub fn entry_addr(tables: &Vec<PageTable>, k: usize, i: usize) -> (ret: u64)
    requires
        k < tables@.len(),
        i < 512,
    ensures
        ret == page_table_entries(tables@[k as int])[i as int] & ADDRESS_MASK,
{
    tables[k][i].addr().as_u64()
}

/// `PageTableEntry::frame` of entry `i` of table `k`: the start of the 4 KiB frame it maps,
/// or `None` when the entry is not present or maps a huge page.
#[verifier::external_body]
pub fn entry_frame(tables: &Vec<PageTable>, k: usize, i: usize) -> (ret: Option<u64>)
    requires
        k < tables@.len(),
        i < 512,
    ensures
        ret is Some <==> (page_table_entries(tables@[k as int])[i as int] & PRESENT != 0
            && page_table_entries(tables@[k as int])[i as int] & HUGE_PAGE == 0),
        ret matches Some(a) ==> a == page_table_entries(tables@[k as int])[i as int] & ADDRESS_MASK,
{
    match tables[k][i].frame() {
        Ok(frame) => Some(frame.start_address().as_u64()),
        Err(_) => None,
    }
}

/// `PageTableEntry::set_addr` on entry `i` of table `k`: the entry becomes the address
/// with the flags. The address must be 4 KiB aligned and below 2^52 (else it panics).
#[verifier::external_body]
pub fn entry_set_addr(tables: &mut Vec<PageTable>, k: usize, i: usize, addr: u64, flags: u64)
    requires
        k < old(tables)@.len(),
        i < 512,
        addr < 0x10_0000_0000_0000,
        addr % 4096 == 0,
    ensures
        final(tables)@.len() == old(tables)@.len(),
        forall|m: int| 0 <= m < final(tables)@.len() && m != k ==> final(tables)@[m] == old(tables)@[m],
        page_table_entries(final(tables)@[k as int]) == page_table_entries(old(tables)@[k as int]).update(
            i as int, addr | flags),
{
    tables[k][i].set_addr(PhysAddr::new(addr), PageTableFlags::from_bits_retain(flags))
}

/// `PageTableEntry::set_frame` on entry `i` of table `k` with the frame that starts at
/// `frame`: the entry becomes the frame's address with the flags, which must not hold
/// `HUGE_PAGE` (else it panics).
#[verifier::external_body]
pub fn entry_set_frame(tables: &mut Vec<PageTable>, k: usize, i: usize, frame: u64, flags: u64)
    requires
        k < old(tables)@.len(),
        i < 512,
        frame < 0x10_0000_0000_0000,
        frame % 4096 == 0,
        flags & HUGE_PAGE == 0,
    ensures
        final(tables)@.len() == old(tables)@.len(),
        forall|m: int| 0 <= m < final(tables)@.len() && m != k ==> final(tables)@[m] == old(tables)@[m],
        page_table_entries(final(tables)@[k as int]) == page_table_entries(old(tables)@[k as int]).update(
            i as int, frame | flags),
{
    let frame = PhysFrame::<Size4KiB>::from_start_address(PhysAddr::new(frame)).unwrap();
    tables[k][i].set_frame(frame, PageTableFlags::from_bits_retain(flags))
}

/// `PageTableEntry::set_unused` on entry `i` of table `k`: the entry becomes zero.
#[verifier::external_body]
pub fn entry_set_unused(tables: &mut Vec<PageTable>, k: usize, i: usize)
    requires
        k < old(tables)@.len(),
        i < 512,
    ensures
        final(tables)@.len() == old(tables)@.len(),
        forall|m: int| 0 <= m < final(tables)@.len() && m != k ==> final(tables)@[m] == old(tables)@[m],
        page_table_entries(final(tables)@[k as int]) == page_table_entries(old(tables)@[k as int]).update(
            i as int, 0u64),
{
    tables[k][i].set_unused()
}

/// `PageTable::is_empty` of table `k`: whether all 512 entries are zero.
#[verifier::external_body]
pub fn table_is_empty(tables: &Vec<PageTable>, k: usize) -> (ret: bool)
    requires
        k < tables@.len(),
    ensures
        ret == forall|i: int| 0 <= i < 512 ==> #[trigger] page_table_entries(tables@[k as int])[i] == 0,
{
    tables[k].is_empty()
}

} // verus!
