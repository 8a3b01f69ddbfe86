use vstd::prelude::*;

use crate::bootloader::loader::{PageRanges, mark_frame_used, memory_type_in_use};
use crate::kernel::memory::{
    FrameSource, Mapper, bit_set, frame_used, free_frame_count, free_frames_in, is_huge, is_present, lemma_filled_keeps_maps,
    maps_4k, maps_huge, virt2idx,
};
use crate::paging::{ADDRESS_MASK, HUGE_PAGE, PRESENT, WRITABLE, entry_addr, entry_flags};

verus! {

/// The bootloader's page allocator: `n` frames of 4 KiB in a buffer that starts at
/// `base`, and a bitmap with one bit per frame, set while the frame is handed out.
pub struct PageAllocator {
    base: u64,
    n: usize,
    allocated: Vec<u8>,
}

/// The number of bitmap bytes that `allocate_frame` searches: all but the last.
pub open spec fn searched_bytes(n: int) -> int {
    (n + 7) / 8 - 1
}

impl PageAllocator {
    pub closed spec fn spec_base(&self) -> u64 {
        self.base
    }

    pub closed spec fn spec_n(&self) -> usize {
        self.n
    }

    pub closed spec fn bitmap(&self) -> Seq<u8> {
        self.allocated@
    }

    /// The buffer is aligned, lies below 2^52, and the bitmap has a bit for each frame.
    pub open spec fn wf(&self) -> bool {
        &&& self.spec_base() % 4096 == 0
        &&& self.spec_base() + self.spec_n() * 4096 <= 0x10_0000_0000_0000
        &&& self.spec_n() >= 1
        &&& self.spec_n() + 7 <= usize::MAX
        &&& self.bitmap().len() == (self.spec_n() + 7) / 8
    }

    /// An allocator for the `n` frames from `base` on, none of them handed out.
    pub fn new(base: u64, n: usize) -> (ret: Self)
        requires
            n >= 1,
            n + 7 <= usize::MAX,
        ensures
            ret.spec_base() == base,
            ret.spec_n() == n,
            ret.bitmap().len() == (n + 7) / 8,
            forall|i: int| 0 <= i < ret.bitmap().len() ==> #[trigger] ret.bitmap()[i] == 0,
    {
        let len = (n + 7) / 8;
        let mut allocated: Vec<u8> = Vec::new();
        let mut i: usize = 0;
        while i < len
            invariant
                i <= len,
                allocated@.len() == i,
                forall|k: int| 0 <= k < i ==> #[trigger] allocated@[k] == 0,
            decreases len - i,
        {
            allocated.push(0);
            i = i + 1;
        }
        Self { base, n, allocated }
    }

    /// Whether `addr` is taken to belong to the buffer: the number of pages from
    /// `addr` up to the buffer's start is below `n`.
    pub fn owns(&self, addr: u64) -> (ret: bool)
        requires
            addr <= self.spec_base(),
        ensures
            ret == ((self.spec_base() - addr) as u64 >> 12u64 < self.spec_n()),
    {
        (self.base - addr) >> 12u64 < self.n as u64
    }

    /// Hands out the lowest free frame among the frames of all bitmap bytes but the
    /// last, and marks it; `None` when all of them are taken.
    pub fn allocate_frame(&mut self) -> (ret: Option<u64>)
        requires
            old(self).wf(),
        ensures
            final(self).wf(),
            final(self).spec_base() == old(self).spec_base(),
            final(self).spec_n() == old(self).spec_n(),
            ret is None <==> (forall|f: int| 0 <= f < searched_bytes(old(self).spec_n() as int) * 8 ==> #[trigger] frame_used(
                old(self).bitmap(),
                f,
            )),
            ret is None ==> final(self).bitmap() == old(self).bitmap(),
            ret matches Some(addr) ==> {
                let f = (addr - old(self).spec_base()) / 4096;
                &&& addr >= old(self).spec_base()
                &&& (addr - old(self).spec_base()) % 4096 == 0
                &&& 0 <= f < searched_bytes(old(self).spec_n() as int) * 8
                &&& !frame_used(old(self).bitmap(), f)
                &&& forall|g: int| 0 <= g < f ==> #[trigger] frame_used(old(self).bitmap(), g)
                &&& final(self).bitmap() == old(self).bitmap().update(f / 8, old(self).bitmap()[f / 8] | (1u8 << (f
                    % 8) as u8))
            },
    {
        let ghost bm = self.allocated@;
        let count = (self.n + 7) / 8 - 1;
        let mut i: usize = 0;
        while i < count
            invariant
                count == searched_bytes(self.n as int),
                count < bm.len(),
                i <= count,
                self.allocated@ == bm,
                bm == old(self).allocated@,
                self.base == old(self).base,
                self.n == old(self).n,
                old(self).wf(),
                forall|g: int| 0 <= g < i * 8 ==> #[trigger] frame_used(bm, g),
            decreases count - i,
        {
            let byte = self.allocated[i];
            if byte != 0xFF {
                let mut j: u8 = 0;
                while j < 8
                    invariant
                        j <= 8,
                        i < count,
                        count == searched_bytes(self.n as int),
                        count < bm.len(),
                        byte == bm[i as int],
                        self.allocated@ == bm,
                        bm == old(self).allocated@,
                        self.base == old(self).base,
                        self.n == old(self).n,
                        old(self).wf(),
                        forall|g: int| 0 <= g < i * 8 ==> #[trigger] frame_used(bm, g),
                        forall|k: int| 0 <= k < j ==> bit_set(byte, k),
                    decreases 8 - j,
                {
                    let bit: u8 = 1u8 << j;
                    assert(byte & bit == 0 <==> (byte >> j) & 1 != 1) by (bit_vector)
                        requires
                            j < 8,
                            bit == 1u8 << j,
                    ;
                    if byte & bit == 0 {
                        self.allocated.set(i, byte | bit);
                        let f = i * 8 + j as usize;
                        assert(f < self.n) by (nonlinear_arith)
                            requires
                                f == i * 8 + j,
                                j < 8,
                                i < count,
                                count == (self.n + 7) / 8 - 1,
                        ;
                        assert(f * 4096 < self.n * 4096) by (nonlinear_arith)
                            requires
                                f < self.n,
                        ;
                        let addr = self.base + (f as u64) * 4096;
                        proof {
                            assert(f / 8 == i && f % 8 == j);
                            assert(!frame_used(bm, f as int));
                            assert forall|g: int| 0 <= g < f implies #[trigger] frame_used(bm, g) by {
                                if g >= i * 8 {
                                    assert(g / 8 == i);
                                    assert(bit_set(byte, g % 8));
                                }
                            }
                            assert((addr - self.base) / 4096 == f);
                        }
                        return Some(addr);
                    }
                    j = j + 1;
                }
                proof { crate::kernel::memory::lemma_full_byte(byte); }
                assert(false);
            }
            proof {
                crate::kernel::memory::lemma_full_byte(byte);
                assert forall|g: int| 0 <= g < (i + 1) * 8 implies #[trigger] frame_used(bm, g) by {
                    if g >= i * 8 {
                        assert(g / 8 == i);
                    }
                }
            }
            i = i + 1;
        }
        None
    }

    /// Takes back the frame that starts at `frame`: clears bit `p` of byte `p / 8`,
    /// where `p` is the frame's page number counted from address zero. A page number
    /// of `n` or more is a misuse and stops the bootloader.
    pub fn deallocate_frame(&mut self, frame: u64)
        requires
            old(self).wf(),
            frame >= old(self).spec_base(),
            frame >> 12u64 < old(self).spec_n(),
            frame >> 12u64 < 8,
        ensures
            final(self).spec_base() == old(self).spec_base(),
            final(self).spec_n() == old(self).spec_n(),
            final(self).bitmap() == old(self).bitmap().update(
                ((frame >> 12u64) / 8) as int,
                old(self).bitmap()[((frame >> 12u64) / 8) as int] & !(1u8 << (frame >> 12u64) as u8),
            ),
    {
        let addr = frame;
        let page_offset = addr >> 12u64;
        let k = (page_offset / 8) as usize;
        let value = self.allocated[k] & !(1u8 << page_offset as u8);
        self.allocated.set(k, value);
    }
}


impl FrameSource for PageAllocator {
    open spec fn source_wf(&self) -> bool {
        self.wf()
    }

    /// The free frames among those that `allocate_frame` searches.
    open spec fn free_frames(&self) -> nat {
        free_frame_count(self.bitmap().subrange(0, searched_bytes(self.spec_n() as int)))
    }

    open spec fn frame_in_use(&self, addr: u64) -> bool {
        &&& addr >= self.spec_base()
        &&& (addr - self.spec_base()) % 4096 == 0
        &&& (addr - self.spec_base()) / 4096 < searched_bytes(self.spec_n() as int) * 8
        &&& frame_used(self.bitmap(), (addr - self.spec_base()) / 4096)
    }

    fn take_frame(&mut self) -> (ret: u64) {
        let ghost old_bm = self.allocated@;
        let ghost m = searched_bytes(self.n as int);
        let ghost sub = old_bm.subrange(0, m);
        let ghost base = self.base;
        let ghost n = self.n;
        proof {
            if forall|f: int| 0 <= f < m * 8 ==> #[trigger] frame_used(old_bm, f) {
                assert forall|f: int| 0 <= f < sub.len() * 8 implies #[trigger] frame_used(sub, f) by {
                    assert(frame_used(old_bm, f));
                    assert(sub[f / 8] == old_bm[f / 8]);
                }
                crate::kernel::memory::lemma_no_free_frame(sub);
            }
        }
        let ret = self.allocate_frame().unwrap();
        proof {
            let f = (ret - base) / 4096;
            assert(ret - base == f * 4096);
            let i = f / 8;
            let j = (f % 8) as u8;
            let b = old_bm[i];
            assert(!bit_set(b, j as int));
            crate::kernel::memory::lemma_set_bit(b, j);
            crate::kernel::memory::lemma_free_count_update(sub, i, b | (1u8 << j));
            assert(self.allocated@.subrange(0, m) =~= sub.update(i, b | (1u8 << j)));
            assert(f < n);
            assert(ret < 0x10_0000_0000_0000) by (nonlinear_arith)
                requires
                    ret - base == f * 4096,
                    f < n,
                    base + n * 4096 <= 0x10_0000_0000_0000,
            ;
            assert(ret % 4096 == 0) by (nonlinear_arith)
                requires
                    ret - base == f * 4096,
                    base % 4096 == 0,
                    ret >= base,
            ;
            assert forall|a: u64| old(self).frame_in_use(a) implies #[trigger] self.frame_in_use(a) by {
                let g = (a - old(self).base) / 4096;
                if g / 8 == i {
                    assert(g % 8 != j);
                    assert(bit_set(b | (1u8 << j), g % 8) == bit_set(b, g % 8));
                }
            }
        }
        ret
    }
}

/// Each present entry on the way to `v` that points to a table names one of the
/// mapper's tables (the bootloader's tables are reached at their own addresses).
pub open spec fn present_walk_ok(m: &Mapper, v: u64) -> bool {
    is_present(m.entry4(v)) ==> {
        &&& m.has_table(m.entry4(v) & ADDRESS_MASK)
        &&& is_present(m.entry3(v)) && !is_huge(m.entry3(v)) ==> {
            &&& m.has_table(m.entry3(v) & ADDRESS_MASK)
            &&& is_present(m.entry2(v)) && !is_huge(m.entry2(v)) ==> m.has_table(m.entry2(v) & ADDRESS_MASK)
        }
    }
}

/// `v` lies in a present page: the walk meets present entries down to a huge page
/// or a present 4 KiB entry.
pub open spec fn present_mapped(m: &Mapper, v: u64) -> bool {
    &&& is_present(m.entry4(v))
    &&& is_present(m.entry3(v))
    &&& (is_huge(m.entry3(v)) || (is_present(m.entry2(v)) && (is_huge(m.entry2(v)) || is_present(m.entry1(v)))))
}

/// The first level (4 to 1) on the way to `v` whose entry is not present, if any.
pub open spec fn first_missing_level(m: &Mapper, v: u64) -> Option<u8> {
    if !is_present(m.entry4(v)) {
        Some(4u8)
    } else if !is_present(m.entry3(v)) {
        Some(3u8)
    } else if is_huge(m.entry3(v)) {
        None
    } else if !is_present(m.entry2(v)) {
        Some(2u8)
    } else if is_huge(m.entry2(v)) {
        None
    } else if !is_present(m.entry1(v)) {
        Some(1u8)
    } else {
        None
    }
}

/// The table that entry `i` of table `k` points to, at the entry's address.
fn next_table_of(m: &Mapper, k: usize, i: usize) -> (ret: usize)
    requires
        m.wf(),
        k < m.tables@.len(),
        i < 512,
        m.has_table(m.entries(k as int)[i as int] & ADDRESS_MASK),
    ensures
        ret == m.table_index(m.entries(k as int)[i as int] & ADDRESS_MASK),
        ret < m.tables@.len(),
{
    m.find_table(entry_addr(&m.tables, k, i)).unwrap()
}

proof fn lemma_flag_bits(e: u64)
    ensures
        (e & !ADDRESS_MASK) & PRESENT == e & PRESENT,
        (e & !ADDRESS_MASK) & HUGE_PAGE == e & HUGE_PAGE,
{
    assert((e & !ADDRESS_MASK) & PRESENT == e & PRESENT && (e & !ADDRESS_MASK) & HUGE_PAGE == e & HUGE_PAGE)
        by (bit_vector);
}

/// The first level on the way to `addr` whose entry is not present, or `None` when
/// `addr` lies in a present page (see `first_missing_level`).
pub fn unmapped_level(pml4: &Mapper, addr: u64) -> (ret: Option<u8>)
    requires
        pml4.wf(),
        present_walk_ok(pml4, addr),
    ensures
        ret == first_missing_level(pml4, addr),
        ret is None <==> present_mapped(pml4, addr),
{
    let (idx4, idx3, idx2, idx1) = virt2idx(addr);
    proof { lemma_flag_bits(pml4.entries(0)[idx4 as int]); }
    if entry_flags(&pml4.tables, 0, idx4) & PRESENT == 0 {
        return Some(4);
    }
    let t3 = next_table_of(pml4, 0, idx4);
    proof { lemma_flag_bits(pml4.entries(t3 as int)[idx3 as int]); }
    if entry_flags(&pml4.tables, t3, idx3) & PRESENT == 0 {
        return Some(3);
    }
    if entry_flags(&pml4.tables, t3, idx3) & HUGE_PAGE != 0 {
        return None;
    }
    let t2 = next_table_of(pml4, t3, idx3);
    proof { lemma_flag_bits(pml4.entries(t2 as int)[idx2 as int]); }
    if entry_flags(&pml4.tables, t2, idx2) & PRESENT == 0 {
        return Some(2);
    }
    if entry_flags(&pml4.tables, t2, idx2) & HUGE_PAGE != 0 {
        return None;
    }
    let t1 = next_table_of(pml4, t2, idx2);
    proof { lemma_flag_bits(pml4.entries(t1 as int)[idx1 as int]); }
    if entry_flags(&pml4.tables, t1, idx1) & PRESENT == 0 {
        return Some(1);
    }
    None
}

/// Whether `addr` lies in a present page (see `present_mapped`).
pub fn is_mapped(pml4: &Mapper, addr: u64) -> (ret: bool)
    requires
        pml4.wf(),
        present_walk_ok(pml4, addr),
    ensures
        ret == present_mapped(pml4, addr),
{
    unmapped_level(pml4, addr).is_none()
}


impl PageAllocator {
    /// How many frames `allocate_frame` can still hand out.
    pub fn free_frame_total(&self) -> (ret: usize)
        requires
            self.wf(),
        ensures
            ret == self.free_frames(),
    {
        let count = (self.n + 7) / 8 - 1;
        free_frames_in(&self.allocated, count)
    }
}

/// Why the bootloader could not build its tables (each stops the bootloader).
#[derive(Clone, Copy, PartialEq, Eq, Structural, Debug)]
pub enum BuildError {
    /// A table on the way to the address is not one of the bootloader's tables.
    WalkBroken { virt: u64 },
    /// The 2 MiB page is mapped already, or a 1 GiB page is in the way.
    PageMappedTwice { virt: u64 },
    /// The page allocator has no frame left for a table.
    NoFreeFrame { virt: u64 },
    /// Two levels of the walk to the address use the same table.
    TablesShared { virt: u64 },
    /// The page does not lie where a canonical address below 2^47 can map it, or the
    /// frame lies above 2^52.
    AddressTooHigh { page: u64 },
    /// The bitmap of frames has no bit for the page.
    BitmapTooShort { page: u64 },
    /// Mapping a 4 KiB page failed with this message.
    MapFailed { virt: u64 },
}

/// What `map_kernel_page_checked` reports for the 2 MiB page at `v`.
pub open spec fn huge_map_error(m: Mapper, free: nat, v: u64) -> Option<BuildError> {
    if !m.walk_ok(v) {
        Some(BuildError::WalkBroken { virt: v })
    } else if !(m.reaches_level_2(v) && m.huge_slot_free(v)) {
        Some(BuildError::PageMappedTwice { virt: v })
    } else if !m.path_distinct(v) {
        Some(BuildError::TablesShared { virt: v })
    } else if free < m.missing_huge_tables(v) {
        Some(BuildError::NoFreeFrame { virt: v })
    } else {
        None
    }
}

/// Maps 2 MiB page `vpage` to 2 MiB frame `ppage` as `map_kernel_page` does, after
/// checking that it may: the walk is well formed, the level-2 entry is free with no
/// 1 GiB page in the way, the tables on the way are distinct (as they are in tables
/// that the bootloader builds), and the allocator has a frame for each missing table.
/// When a check fails it changes nothing and says which.
pub fn map_kernel_page_checked(pml4: &mut Mapper, allocator: &mut PageAllocator, vpage: u64, ppage: u64) -> (ret: Result<
    (),
    BuildError,
>)
    requires
        vpage < 0x800_0000_0000,
        ppage < 0x8000_0000,
        old(pml4).wf(),
        old(allocator).wf(),
        old(pml4).tables_in_use(old(allocator)),
    ensures
        final(pml4).wf(),
        final(allocator).wf(),
        final(pml4).tables_in_use(final(allocator)),
        ({
            let v = (vpage * 0x20_0000) as u64;
            match huge_map_error(*old(pml4), old(allocator).free_frames(), v) {
                Some(e) => ret == Err::<(), BuildError>(e) && *final(pml4) == *old(pml4) && *final(allocator)
                    == *old(allocator),
                None => ret is Ok && maps_huge(*final(pml4), v, huge_entry(ppage)) && final(pml4).only_filled(
                    old(pml4)),
            }
        }),
{
    let v = vpage * 0x20_0000;
    if !pml4.check_walk(v) {
        return Err(BuildError::WalkBroken { virt: v });
    }
    if !pml4.huge_slot_ready(v) {
        return Err(BuildError::PageMappedTwice { virt: v });
    }
    if !pml4.check_path_distinct(v) {
        return Err(BuildError::TablesShared { virt: v });
    }
    if allocator.free_frame_total() < pml4.huge_tables_missing(v) {
        return Err(BuildError::NoFreeFrame { virt: v });
    }
    map_kernel_page(pml4, allocator, vpage, ppage);
    Ok(())
}

/// The first 2 MiB page of the window in which the kernel sees physical memory
/// (`kernel_window(0) >> 21`).
pub const WINDOW_FIRST_PAGE: u64 = 0x7FF_FFFC_0000;

/// The virtual address of 2 MiB page `n` of the window: level-4 index 511, level-3
/// index `n / 512`, level-2 index `n % 512`.
pub open spec fn window_virt(n: int) -> u64 {
    ((WINDOW_FIRST_PAGE + n) * 0x20_0000) as u64
}

/// How many GiB of physical memory the window maps: `gig_pages`, at most 512.
pub open spec fn window_gigs(gig_pages: u64) -> int {
    if gig_pages < 512 {
        gig_pages as int
    } else {
        512
    }
}

/// The first `upto` pages of the window map physical 2 MiB pages 0, 1, ... as present,
/// writable huge pages.
pub open spec fn window_mapped(m: Mapper, upto: int) -> bool {
    forall|n: int| 0 <= n < upto ==> #[trigger] maps_huge(m, window_virt(n), huge_entry(n as u64))
}

proof fn lemma_window_kept(after: Mapper, before: Mapper, upto: int)
    requires
        before.wf(),
        after.wf(),
        after.only_filled(&before),
        window_mapped(before, upto),
    ensures
        window_mapped(after, upto),
{
    assert forall|n: int| 0 <= n < upto implies #[trigger] maps_huge(after, window_virt(n), huge_entry(n as u64)) by {
        lemma_filled_keeps_maps(after, before, window_virt(n), huge_entry(n as u64));
    }
}

/// Maps the window of physical memory: the first `gig_pages` GiB (at most 512, the
/// window's size), 2 MiB page `n` of the window to physical 2 MiB page `n`, in order.
/// On success every such page is mapped; on failure it stops at the first page that
/// cannot be mapped (see `map_kernel_page_checked`), with the pages before it mapped.
pub fn map_physical_window(pml4: &mut Mapper, allocator: &mut PageAllocator, gig_pages: u64) -> (ret: Result<(), BuildError>)
    requires
        old(pml4).wf(),
        old(allocator).wf(),
        old(pml4).tables_in_use(old(allocator)),
    ensures
        final(pml4).wf(),
        final(allocator).wf(),
        final(pml4).tables_in_use(final(allocator)),
        final(pml4).only_filled(old(pml4)),
        ret is Ok ==> window_mapped(*final(pml4), window_gigs(gig_pages) * 512),
        ret matches Err(e) ==> exists|n: int| 0 <= n < window_gigs(gig_pages) * 512 && window_mapped(*final(pml4), n)
            && #[trigger] huge_map_error(*final(pml4), final(allocator).free_frames(), window_virt(n)) == Some(e),
{
    let count = if gig_pages < 512 { gig_pages } else { 512 };
    let ghost start = *pml4;
    proof { crate::kernel::memory::lemma_filled_refl_pub(*pml4); }
    let mut i: u64 = 0;
    while i < count
        invariant
            count == window_gigs(gig_pages),
            count <= 512,
            i <= count,
            pml4.wf(),
            allocator.wf(),
            pml4.tables_in_use(allocator),
            start.wf(),
            start == *old(pml4),
            pml4.only_filled(&start),
            window_mapped(*pml4, i * 512),
        decreases count - i,
    {
        let mut j: u64 = 0;
        while j < 512
            invariant
                count == window_gigs(gig_pages),
                count <= 512,
                i < count,
                j <= 512,
                pml4.wf(),
                allocator.wf(),
                pml4.tables_in_use(allocator),
                start.wf(),
                start == *old(pml4),
                pml4.only_filled(&start),
                window_mapped(*pml4, i * 512 + j),
            decreases 512 - j,
        {
            let page = i * 512 + j;
            let ghost before = *pml4;
            let r = map_kernel_page_checked(pml4, allocator, WINDOW_FIRST_PAGE + page, page);
            if r.is_err() {
                proof {
                    assert(huge_map_error(*pml4, allocator.free_frames(), window_virt(page as int)) is Some);
                }
                return r;
            }
            proof {
                lemma_window_kept(*pml4, before, page as int);
                crate::kernel::memory::lemma_filled_trans_pub(*pml4, before, start);
                assert(window_virt(page as int) == ((WINDOW_FIRST_PAGE + page) * 0x20_0000) as u64);
            }
            j = j + 1;
        }
        i = i + 1;
    }
    Ok(())
}

/// The first `upto` pages of a region (start, page count, type) are marked used.
pub open spec fn region_marked(bitmap: Seq<u8>, region: (u64, u64, u32), upto: int) -> bool {
    forall|k: int| 0 <= k < upto ==> #[trigger] page_marked(bitmap, (region.0 >> 12u64) + k)
}

/// The bitmap has a bit for page `p`, and it is set.
pub open spec fn page_marked(bitmap: Seq<u8>, p: int) -> bool {
    p / 8 < bitmap.len() && frame_used(bitmap, p)
}

/// Whether a region of the memory map is in use (see `memory_type_in_use`).
pub open spec fn region_in_use(region: (u64, u64, u32)) -> bool {
    !(region.2 == 7 || region.2 == 0 || region.2 == 8)
}

proof fn lemma_mark_keeps(bitmap: Seq<u8>, page: u64)
    requires
        page / 8 < bitmap.len(),
    ensures
        ({
            let after = bitmap.update((page / 8) as int, bitmap[(page / 8) as int] | (1u8 << (page % 8) as u8));
            &&& frame_used(after, page as int)
            &&& forall|f: int| 0 <= f && f / 8 < bitmap.len() && #[trigger] frame_used(bitmap, f) ==> frame_used(after, f)
        }),
{
    let after = bitmap.update((page / 8) as int, bitmap[(page / 8) as int] | (1u8 << (page % 8) as u8));
    crate::kernel::memory::lemma_or_bit(bitmap[(page / 8) as int], (page % 8) as u8);
    assert forall|f: int| 0 <= f && f / 8 < bitmap.len() && #[trigger] frame_used(bitmap, f) implies frame_used(after, f) by {
        if f / 8 == page / 8 {
            if f % 8 != page % 8 {
                assert(bit_set(bitmap[(page / 8) as int] | (1u8 << (page % 8) as u8), f % 8) == bit_set(
                    bitmap[(page / 8) as int], f % 8));
            }
        } else {
            assert(after[f / 8] == bitmap[f / 8]);
        }
    }
}

proof fn lemma_region_stays_marked(bitmap: Seq<u8>, page: u64, region: (u64, u64, u32), n: int)
    requires
        page / 8 < bitmap.len(),
        region_marked(bitmap, region, n),
    ensures
        region_marked(bitmap.update((page / 8) as int, bitmap[(page / 8) as int] | (1u8 << (page % 8) as u8)), region, n),
{
    let after = bitmap.update((page / 8) as int, bitmap[(page / 8) as int] | (1u8 << (page % 8) as u8));
    lemma_mark_keeps(bitmap, page);
    assert forall|k: int| 0 <= k < n implies #[trigger] page_marked(after, (region.0 >> 12u64) + k) by {
        assert(page_marked(bitmap, (region.0 >> 12u64) + k));
    }
}

proof fn lemma_regions_stay_marked(bitmap: Seq<u8>, page: u64, regions: Seq<(u64, u64, u32)>, r: int, k: int)
    requires
        0 <= r < regions.len(),
        page / 8 < bitmap.len(),
        forall|q: int| 0 <= q < r && region_in_use(regions[q]) ==> #[trigger] region_marked(bitmap, regions[q], regions[q].1 as int),
        region_marked(bitmap, regions[r], k),
    ensures
        ({
            let after = bitmap.update((page / 8) as int, bitmap[(page / 8) as int] | (1u8 << (page % 8) as u8));
            &&& forall|q: int| 0 <= q < r && region_in_use(regions[q]) ==> #[trigger] region_marked(after, regions[q], regions[q].1 as int)
            &&& region_marked(after, regions[r], k)
        }),
{
    assert forall|q: int| 0 <= q < r && region_in_use(regions[q]) implies #[trigger] region_marked(
        bitmap.update((page / 8) as int, bitmap[(page / 8) as int] | (1u8 << (page % 8) as u8)), regions[q], regions[q].1 as int) by {
        lemma_region_stays_marked(bitmap, page, regions[q], regions[q].1 as int);
    }
    lemma_region_stays_marked(bitmap, page, regions[r], k);
}

/// The address of page `k` of a region, as a 4 KiB page number.
pub open spec fn region_page(region: (u64, u64, u32), k: int) -> int {
    (region.0 >> 12u64) + k
}

/// The first `upto` pages of a region are identity-mapped: each page's address maps to
/// itself through a present, writable 4 KiB entry.
pub open spec fn region_identity_mapped(m: Mapper, region: (u64, u64, u32), upto: int) -> bool {
    forall|k: int| 0 <= k < upto ==> #[trigger] maps_4k(m, (region_page(region, k) * 4096) as u64, (region_page(region, k)
        * 4096) as u64 | (PRESENT | WRITABLE))
}

/// What `identity_map_in_use` reports for page `k` of a region: an address that is not
/// canonical, a page the bitmap has no bit for, a broken walk, a page that `map`
/// refuses, shared tables, or no frame for the missing tables.
pub open spec fn identity_page_error(m: Mapper, free: nat, bitmap_len: int, region: (u64, u64, u32), k: int) -> Option<
    BuildError,
> {
    let p = region_page(region, k);
    let v = (p * 4096) as u64;
    if p >= 0x8_0000_0000 {
        Some(BuildError::AddressTooHigh { page: region.0 >> 12u64 })
    } else if p / 8 >= bitmap_len {
        Some(BuildError::BitmapTooShort { page: p as u64 })
    } else if !m.walk_ok(v) {
        Some(BuildError::WalkBroken { virt: v })
    } else if !m.map_succeeds(v) {
        Some(BuildError::MapFailed { virt: v })
    } else if !m.path_distinct(v) {
        Some(BuildError::TablesShared { virt: v })
    } else if free < m.missing_tables(v) {
        Some(BuildError::NoFreeFrame { virt: v })
    } else {
        None
    }
}

/// The regions before `r` that are in use are marked and identity-mapped in full.
pub open spec fn regions_done(m: Mapper, bitmap: Seq<u8>, regions: Seq<(u64, u64, u32)>, r: int) -> bool {
    forall|q: int| 0 <= q < r && region_in_use(regions[q]) ==> #[trigger] region_marked(bitmap, regions[q], regions[q].1 as int)
        && region_identity_mapped(m, regions[q], regions[q].1 as int)
}

proof fn lemma_identity_kept(after: Mapper, before: Mapper, region: (u64, u64, u32), upto: int)
    requires
        before.wf(),
        after.wf(),
        after.only_filled(&before),
        region_identity_mapped(before, region, upto),
    ensures
        region_identity_mapped(after, region, upto),
{
    assert forall|k: int| 0 <= k < upto implies #[trigger] maps_4k(after, (region_page(region, k) * 4096) as u64, (
    region_page(region, k) * 4096) as u64 | (PRESENT | WRITABLE)) by {
        lemma_filled_keeps_maps(after, before, (region_page(region, k) * 4096) as u64, (region_page(region, k) * 4096) as u64
            | (PRESENT | WRITABLE));
    }
}

proof fn lemma_regions_done_kept(after: Mapper, before: Mapper, bitmap: Seq<u8>, regions: Seq<(u64, u64, u32)>, r: int)
    requires
        before.wf(),
        after.wf(),
        after.only_filled(&before),
        r <= regions.len(),
        regions_done(before, bitmap, regions, r),
    ensures
        regions_done(after, bitmap, regions, r),
{
    assert forall|q: int| 0 <= q < r && region_in_use(regions[q]) implies #[trigger] region_marked(bitmap, regions[q],
        regions[q].1 as int) && region_identity_mapped(after, regions[q], regions[q].1 as int) by {
        assert(region_marked(bitmap, regions[q], regions[q].1 as int));
        lemma_identity_kept(after, before, regions[q], regions[q].1 as int);
    }
}

/// Identity-maps every 4 KiB page of the memory map's regions that are in use (see
/// `memory_type_in_use`), each region given as its start, its page count and its type,
/// and marks each page's frame used in `allocated_frames`. On success every such page
/// maps to itself through a present, writable 4 KiB entry and is marked; on failure it
/// stops at the first page that cannot be mapped (see `identity_page_error`), with the
/// pages before it mapped and marked.
pub fn identity_map_in_use(
    pml4: &mut Mapper,
    allocator: &mut PageAllocator,
    regions: &Vec<(u64, u64, u32)>,
    allocated_frames: &mut Vec<u8>,
) -> (ret: Result<(), BuildError>)
    requires
        old(pml4).wf(),
        old(allocator).wf(),
        old(pml4).tables_in_use(old(allocator)),
    ensures
        final(pml4).wf(),
        final(allocator).wf(),
        final(pml4).tables_in_use(final(allocator)),
        final(pml4).only_filled(old(pml4)),
        final(allocated_frames)@.len() == old(allocated_frames)@.len(),
        ret is Ok ==> regions_done(*final(pml4), final(allocated_frames)@, regions@, regions@.len() as int),
        ret matches Err(e) ==> exists|q: int, k: int|
            #![trigger identity_page_error(*final(pml4), final(allocator).free_frames(), final(allocated_frames)@.len() as int, regions@[q], k)]
            0 <= q < regions@.len() && region_in_use(regions@[q]) && 0 <= k < regions@[q].1 && regions_done(*final(pml4),
            final(allocated_frames)@, regions@, q) && region_marked(final(allocated_frames)@, regions@[q], k)
            && region_identity_mapped(*final(pml4), regions@[q], k) && identity_page_error(*final(pml4), final(
            allocator).free_frames(), final(allocated_frames)@.len() as int, regions@[q], k) == Some(e),
{
    let ghost len = allocated_frames@.len();
    let ghost start = *pml4;
    proof { crate::kernel::memory::lemma_filled_refl_pub(*pml4); }
    let mut r: usize = 0;
    while r < regions.len()
        invariant
            r <= regions@.len(),
            pml4.wf(),
            allocator.wf(),
            pml4.tables_in_use(allocator),
            start.wf(),
            start == *old(pml4),
            pml4.only_filled(&start),
            allocated_frames@.len() == len,
            len == old(allocated_frames)@.len(),
            regions_done(*pml4, allocated_frames@, regions@, r as int),
        decreases regions@.len() - r,
    {
        let (start_addr, page_count, memory_type) = regions[r];
        if memory_type_in_use(memory_type) {
            let start_page = start_addr >> 12u64;
            let mut k: u64 = 0;
            while k < page_count
                invariant
                    r < regions@.len(),
                    regions@[r as int] == (start_addr, page_count, memory_type),
                    region_in_use(regions@[r as int]),
                    start_page == start_addr >> 12u64,
                    regions_done(*pml4, allocated_frames@, regions@, r as int),
                    region_marked(allocated_frames@, regions@[r as int], k as int),
                    region_identity_mapped(*pml4, regions@[r as int], k as int),
                    k <= page_count,
                    pml4.wf(),
                    allocator.wf(),
                    pml4.tables_in_use(allocator),
                    start.wf(),
                    start == *old(pml4),
                    pml4.only_filled(&start),
                    allocated_frames@.len() == len,
                    len == old(allocated_frames)@.len(),
                decreases page_count - k,
            {
                let ghost region = regions@[r as int];
                if start_page >= 0x8_0000_0000 || k >= 0x8_0000_0000 - start_page {
                    proof {
                        assert(identity_page_error(*pml4, allocator.free_frames(), allocated_frames@.len() as int, region, k as int)
                            is Some);
                    }
                    return Err(BuildError::AddressTooHigh { page: start_page });
                }
                let page = start_page + k;
                let virt = page << 12u64;
                proof {
                    assert(page < 0x8_0000_0000);
                    assert(virt == page * 4096) by (bit_vector)
                        requires
                            page < 0x8_0000_0000,
                            virt == page << 12u64,
                    ;
                    assert(region_page(region, k as int) == page as int);
                }
                if page / 8 >= allocated_frames.len() as u64 {
                    proof {
                        assert(identity_page_error(*pml4, allocator.free_frames(), allocated_frames@.len() as int, region, k as int)
                            is Some);
                    }
                    return Err(BuildError::BitmapTooShort { page });
                }
                if !pml4.check_walk(virt) {
                    return Err(BuildError::WalkBroken { virt });
                }
                if !pml4.map_ready(virt) {
                    return Err(BuildError::MapFailed { virt });
                }
                if !pml4.check_path_distinct(virt) {
                    return Err(BuildError::TablesShared { virt });
                }
                if allocator.free_frame_total() < pml4.tables_missing(virt) {
                    return Err(BuildError::NoFreeFrame { virt });
                }
                let ghost before = *pml4;
                let mapped = map(pml4, allocator, virt, virt);
                assert(mapped is Ok);
                proof {
                    lemma_regions_done_kept(*pml4, before, allocated_frames@, regions@, r as int);
                    lemma_identity_kept(*pml4, before, region, k as int);
                    crate::kernel::memory::lemma_filled_trans_pub(*pml4, before, start);
                    assert(maps_4k(*pml4, virt, virt | (PRESENT | WRITABLE)));
                    lemma_regions_stay_marked(allocated_frames@, page, regions@, r as int, k as int);
                    lemma_mark_keeps(allocated_frames@, page);
                    assert forall|q: int| 0 <= q < r && region_in_use(regions@[q]) implies #[trigger] region_marked(
                        allocated_frames@, regions@[q], regions@[q].1 as int) by {
                        assert(regions_done(*pml4, allocated_frames@, regions@, r as int));
                    }
                }
                let ghost bm_before = allocated_frames@;
                mark_frame_used(allocated_frames, page);
                proof {
                    assert((regions@[r as int].0 >> 12u64) + (k as int) == page as int);
                    assert(page_marked(allocated_frames@, page as int));
                    assert forall|q: int| 0 <= q < r && region_in_use(regions@[q]) implies #[trigger] region_marked(
                        allocated_frames@, regions@[q], regions@[q].1 as int) && region_identity_mapped(*pml4, regions@[q],
                        regions@[q].1 as int) by {
                        assert(regions_done(*pml4, bm_before, regions@, r as int));
                        assert(region_marked(bm_before, regions@[q], regions@[q].1 as int)
                            && region_identity_mapped(*pml4, regions@[q], regions@[q].1 as int));
                    }
                }
                k = k + 1;
            }
        }
        r = r + 1;
    }
    Ok(())
}

/// How many pages of a run are mapped: as many as both its virtual and its physical
/// pages last (none when either goes downwards).
pub open spec fn run_len(run: PageRanges) -> int {
    if run.0.0 <= run.0.1 && run.1.0 <= run.1.1 {
        if run.0.1 - run.0.0 <= run.1.1 - run.1.0 {
            run.0.1 - run.0.0 + 1
        } else {
            run.1.1 - run.1.0 + 1
        }
    } else {
        0
    }
}

/// The first `upto` pages of a run are mapped: virtual page `vstart + n` to physical
/// page `pstart + n`, as present, writable huge pages.
pub open spec fn run_mapped(m: Mapper, run: PageRanges, upto: int) -> bool {
    forall|n: int| 0 <= n < upto ==> #[trigger] maps_huge(m, ((run.0.0 + n) * 0x20_0000) as u64, huge_entry((run.1.0 + n) as u64))
}

/// What `map_kernel_runs` reports for page `n` of a run: a page or frame that lies too
/// high, or what `map_kernel_page_checked` reports.
pub open spec fn run_page_error(m: Mapper, free: nat, run: PageRanges, n: int) -> Option<BuildError> {
    if run.0.0 + n >= 0x800_0000_0000 {
        Some(BuildError::AddressTooHigh { page: (run.0.0 + n) as u64 })
    } else if run.1.0 + n >= 0x8000_0000 {
        Some(BuildError::AddressTooHigh { page: (run.1.0 + n) as u64 })
    } else {
        huge_map_error(m, free, ((run.0.0 + n) * 0x20_0000) as u64)
    }
}

proof fn lemma_run_kept(after: Mapper, before: Mapper, run: PageRanges, upto: int)
    requires
        before.wf(),
        after.wf(),
        after.only_filled(&before),
        run_mapped(before, run, upto),
    ensures
        run_mapped(after, run, upto),
{
    assert forall|n: int| 0 <= n < upto implies #[trigger] maps_huge(after, ((run.0.0 + n) * 0x20_0000) as u64,
        huge_entry((run.1.0 + n) as u64)) by {
        lemma_filled_keeps_maps(after, before, ((run.0.0 + n) * 0x20_0000) as u64, huge_entry((run.1.0 + n) as u64));
    }
}

proof fn lemma_runs_kept(after: Mapper, before: Mapper, runs: Seq<PageRanges>, r: int)
    requires
        before.wf(),
        after.wf(),
        after.only_filled(&before),
        r <= runs.len(),
        forall|k: int| 0 <= k < r ==> #[trigger] run_mapped(before, runs[k], run_len(runs[k])),
    ensures
        forall|k: int| 0 <= k < r ==> #[trigger] run_mapped(after, runs[k], run_len(runs[k])),
{
    assert forall|k: int| 0 <= k < r implies #[trigger] run_mapped(after, runs[k], run_len(runs[k])) by {
        lemma_run_kept(after, before, runs[k], run_len(runs[k]));
    }
}

/// Maps the kernel's runs of 2 MiB pages: in each run, virtual page `vstart + n` to
/// physical page `pstart + n`, for as long as both runs last (`run_len`). On success
/// every such page is mapped; on failure it stops at the first page that cannot be
/// mapped (see `run_page_error`), with the pages before it mapped.
pub fn map_kernel_runs(pml4: &mut Mapper, allocator: &mut PageAllocator, runs: &Vec<PageRanges>) -> (ret: Result<
    (),
    BuildError,
>)
    requires
        old(pml4).wf(),
        old(allocator).wf(),
        old(pml4).tables_in_use(old(allocator)),
    ensures
        final(pml4).wf(),
        final(allocator).wf(),
        final(pml4).tables_in_use(final(allocator)),
        final(pml4).only_filled(old(pml4)),
        ret is Ok ==> forall|k: int| 0 <= k < runs@.len() ==> #[trigger] run_mapped(*final(pml4), runs@[k], run_len(runs@[k])),
        ret matches Err(e) ==> exists|k: int, n: int|
            #![trigger run_page_error(*final(pml4), final(allocator).free_frames(), runs@[k], n)]
            0 <= k < runs@.len() && 0 <= n < run_len(runs@[k]) && (forall|k2: int| 0 <= k2 < k ==> #[trigger] run_mapped(
                *final(pml4), runs@[k2], run_len(runs@[k2]))) && run_mapped(*final(pml4), runs@[k], n)
                && run_page_error(*final(pml4), final(allocator).free_frames(), runs@[k], n) == Some(e),
{
    let ghost start = *pml4;
    proof { crate::kernel::memory::lemma_filled_refl_pub(*pml4); }
    let mut r: usize = 0;
    while r < runs.len()
        invariant
            r <= runs@.len(),
            pml4.wf(),
            allocator.wf(),
            pml4.tables_in_use(allocator),
            start.wf(),
            start == *old(pml4),
            pml4.only_filled(&start),
            forall|k: int| 0 <= k < r ==> #[trigger] run_mapped(*pml4, runs@[k], run_len(runs@[k])),
        decreases runs@.len() - r,
    {
        let ((vstart, vend), (pstart, pend)) = runs[r];
        let ghost run = runs@[r as int];
        let mut vpage = vstart;
        let mut ppage = pstart;
        while vpage <= vend && ppage <= pend
            invariant
                r < runs@.len(),
                run == runs@[r as int],
                run == ((vstart, vend), (pstart, pend)),
                vstart <= vpage,
                vpage - vstart == ppage - pstart,
                vpage - vstart <= run_len(run),
                vpage <= vend && ppage <= pend ==> vpage - vstart < run_len(run),
                !(vpage <= vend && ppage <= pend) ==> vpage - vstart == run_len(run),
                pml4.wf(),
                allocator.wf(),
                pml4.tables_in_use(allocator),
                start.wf(),
                start == *old(pml4),
                pml4.only_filled(&start),
                forall|k: int| 0 <= k < r ==> #[trigger] run_mapped(*pml4, runs@[k], run_len(runs@[k])),
                run_mapped(*pml4, run, vpage - vstart),
            decreases vend - vpage + 1,
        {
            let ghost n: int = vpage - vstart;
            if vpage >= 0x800_0000_0000 {
                proof { assert(run_page_error(*pml4, allocator.free_frames(), runs@[r as int], n) is Some); }
                return Err(BuildError::AddressTooHigh { page: vpage });
            }
            if ppage >= 0x8000_0000 {
                proof { assert(run_page_error(*pml4, allocator.free_frames(), runs@[r as int], n) is Some); }
                return Err(BuildError::AddressTooHigh { page: ppage });
            }
            let ghost before = *pml4;
            let res = map_kernel_page_checked(pml4, allocator, vpage, ppage);
            if res.is_err() {
                proof { assert(run_page_error(*pml4, allocator.free_frames(), runs@[r as int], n) is Some); }
                return res;
            }
            proof {
                lemma_runs_kept(*pml4, before, runs@, r as int);
                lemma_run_kept(*pml4, before, run, n);
                crate::kernel::memory::lemma_filled_trans_pub(*pml4, before, start);
            }
            vpage = vpage + 1;
            ppage = ppage + 1;
        }
        r = r + 1;
    }
    Ok(())
}

/// Maps the 4 KiB page of `virt` to `frame` in the bootloader's tables, taking the
/// frames of missing tables from the bootloader's page allocator (see `Mapper::map`).
pub fn map(pml4: &mut Mapper, allocator: &mut PageAllocator, virt: u64, frame: u64) -> (ret: Result<(), &'static str>)
    requires
        old(pml4).wf(),
        old(allocator).wf(),
        old(pml4).tables_in_use(old(allocator)),
        old(pml4).walk_ok(virt),
        frame % 4096 == 0,
        frame < 0x10_0000_0000_0000,
        old(allocator).free_frames() >= old(pml4).missing_tables(virt),
    ensures
        final(pml4).wf(),
        final(allocator).wf(),
        final(pml4).tables_in_use(final(allocator)),
        ret is Ok <==> old(pml4).map_succeeds(virt),
        ret matches Err(msg) ==> msg@ == (if is_huge(old(pml4).entry3(virt)) {
            "Trying to map to pdp entry containing a 1G page"@
        } else if is_huge(old(pml4).entry2(virt)) {
            "Trying to map to pdp entry containing a 2M page"@
        } else {
            "Trying to map to already existing page"@
        }),
        ret is Ok && old(pml4).path_distinct(virt) ==> {
            &&& final(pml4).walk_ok(virt)
            &&& final(pml4).mapped_4k(virt)
            &&& final(pml4).entry1(virt) == frame | (PRESENT | WRITABLE)
        },
        ret is Err ==> *final(pml4) == *old(pml4) && *final(allocator) == *old(allocator),
        final(pml4).only_filled(old(pml4)),
{
    pml4.map(allocator, virt, frame)
}


/// Maps 2 MiB page `vpage` of the kernel's address space to 2 MiB frame `ppage` with
/// a huge entry, creating the level-3 and level-2 tables on the way that are missing
/// (see `Mapper::map_huge`). The page's level-2 entry must be free: a page mapped
/// twice stops the bootloader.
pub fn map_kernel_page(pml4: &mut Mapper, allocator: &mut PageAllocator, vpage: u64, ppage: u64)
    requires
        vpage < 0x800_0000_0000,
        ppage < 0x8000_0000,
        old(pml4).wf(),
        old(allocator).wf(),
        old(pml4).tables_in_use(old(allocator)),
        old(pml4).walk_ok((vpage * 0x20_0000) as u64),
        old(pml4).reaches_level_2((vpage * 0x20_0000) as u64),
        old(pml4).huge_slot_free((vpage * 0x20_0000) as u64),
        old(allocator).free_frames() >= old(pml4).missing_huge_tables((vpage * 0x20_0000) as u64),
    ensures
        final(pml4).wf(),
        final(allocator).wf(),
        final(pml4).tables_in_use(final(allocator)),
        old(pml4).path_distinct((vpage * 0x20_0000) as u64) ==> maps_huge(*final(pml4), (vpage * 0x20_0000) as u64,
            huge_entry(ppage)),
        final(pml4).only_filled(old(pml4)),
{
    let v = vpage * 0x20_0000;
    let frame = ppage * 0x20_0000;
    pml4.map_huge(allocator, v, frame);
}

/// The level-2 entry that maps 2 MiB page `page` of physical memory as a huge page:
/// its address, present, writable and huge.
pub open spec fn huge_entry(page: u64) -> u64 {
    (page * 0x20_0000) as u64 | (PRESENT | WRITABLE | HUGE_PAGE)
}

/// The table indices (levels 4, 3 and 2) of 2 MiB page number `vpage` of the
/// virtual address space.
pub fn huge_page_indices(vpage: u64) -> (ret: (usize, usize, usize))
    ensures
        ret == (((vpage >> 18u64) & 0x1FF) as usize, ((vpage >> 9u64) & 0x1FF) as usize, (vpage & 0x1FF) as usize),
        ret.0 < 512 && ret.1 < 512 && ret.2 < 512,
{
    proof { crate::kernel::memory::lemma_index_masks(vpage); }
    (((vpage >> 18u64) & 0x1FF) as usize, ((vpage >> 9u64) & 0x1FF) as usize, (vpage & 0x1FF) as usize)
}

/// The entry that maps physical 2 MiB page `ppage`; the page must lie below 2^52.
pub fn huge_page_entry(ppage: u64) -> (ret: u64)
    requires
        ppage * 0x20_0000 < 0x10_0000_0000_0000,
    ensures
        ret == huge_entry(ppage),
{
    let addr = crate::paging::phys_addr(ppage * 0x20_0000);
    addr | (PRESENT | WRITABLE | HUGE_PAGE)
}

/// The virtual address with the given table indices, in canonical form (the
/// bootloader builds addresses whose bit 47 may be set, which this sign-extends).
pub fn idx2virt(i4: usize, i3: usize, i2: usize, i1: usize) -> (ret: u64)
    ensures
        ret == crate::paging::sign_extend_48(crate::kernel::memory::address_of_indices(i4, i3, i2, i1)),
{
    let addr = ((i1 as u64) << 12u64) | ((i2 as u64) << 21u64) | ((i3 as u64) << 30u64) | ((i4 as u64) << 39u64);
    crate::paging::virt_addr_truncate(addr)
}

/// Where the kernel sees physical address `phys` once the bootloader's tables are
/// loaded: in the window that level-4 entry 511 maps.
pub fn kernel_window(phys: u64) -> (ret: u64)
    ensures
        ret == phys | crate::paging::sign_extend_48(crate::kernel::memory::address_of_indices(511, 0, 0, 0)),
{
    phys | idx2virt(511, 0, 0, 0)
}

/// The window's base is the address whose top 25 bits are set.
pub proof fn lemma_window_base()
    ensures
        crate::paging::sign_extend_48(crate::kernel::memory::address_of_indices(511, 0, 0, 0)) == 0xFFFF_FF80_0000_0000u64,
{
    let a = crate::kernel::memory::address_of_indices(511, 0, 0, 0);
    assert(((0usize as u64) << 12u64) | ((0usize as u64) << 21u64) | ((0usize as u64) << 30u64) | ((511usize as u64) << 39u64)
        == 0x0000_FF80_0000_0000u64 && 0x0000_FF80_0000_0000u64 & 0x8000_0000_0000u64 != 0 && 0x0000_FF80_0000_0000u64
        | 0xFFFF_0000_0000_0000u64 == 0xFFFF_FF80_0000_0000u64) by (bit_vector);
}

} // verus!
