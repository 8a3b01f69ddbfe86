use vstd::prelude::*;

use crate::paging::{
    ADDRESS_MASK, HUGE_PAGE, PRESENT, WRITABLE, entry_addr, entry_flags, entry_frame, entry_is_unused,
    entry_set_addr, entry_set_frame, entry_set_unused, new_page_table, table_entry_count, page_table_entries, table_is_empty,
};
use x86_64::structures::paging::PageTable;

verus! {

/// Bit `j` (0 to 7) of a byte.
pub open spec fn bit_set(b: u8, j: int) -> bool {
    (b >> (j as u8)) & 1 == 1
}

/// Whether frame `f` is marked as used in a bitmap that has one bit per frame.
pub open spec fn frame_used(bitmap: Seq<u8>, f: int) -> bool {
    bit_set(bitmap[f / 8], f % 8)
}

/// The number of clear bits of a byte.
pub open spec fn byte_free_count(b: u8) -> nat {
    (if bit_set(b, 0) { 0nat } else { 1nat }) + (if bit_set(b, 1) { 0nat } else { 1nat })
        + (if bit_set(b, 2) { 0nat } else { 1nat }) + (if bit_set(b, 3) { 0nat } else { 1nat })
        + (if bit_set(b, 4) { 0nat } else { 1nat }) + (if bit_set(b, 5) { 0nat } else { 1nat })
        + (if bit_set(b, 6) { 0nat } else { 1nat }) + (if bit_set(b, 7) { 0nat } else { 1nat })
}

/// The number of frames that a bitmap marks as free.
pub open spec fn free_frame_count(bitmap: Seq<u8>) -> nat
    decreases bitmap.len(),
{
    if bitmap.len() == 0 {
        0
    } else {
        free_frame_count(bitmap.drop_last()) + byte_free_count(bitmap.last())
    }
}

/// The lowest free frame is `f`: its bit is clear and every lower frame's bit is set.
pub open spec fn lowest_free_frame(bitmap: Seq<u8>, f: int) -> bool {
    &&& 0 <= f < bitmap.len() * 8
    &&& !frame_used(bitmap, f)
    &&& forall|g: int| 0 <= g < f ==> #[trigger] frame_used(bitmap, g)
}

/// Setting bit `j` of a byte sets it and keeps the other bits.
pub proof fn lemma_or_bit(b: u8, j: u8)
    requires
        j < 8,
    ensures
        bit_set(b | (1u8 << j), j as int),
        forall|k: int| 0 <= k < 8 && k != j ==> bit_set(b | (1u8 << j), k) == bit_set(b, k),
{
    let c = b | (1u8 << j);
    assert(((b | (1u8 << j)) >> j) & 1 == 1) by (bit_vector)
        requires
            j < 8,
    ;
    assert(forall|k: u8| k < 8 && k != j ==> ((b | (1u8 << j)) >> k) & 1 == (b >> k) & 1) by (bit_vector)
        requires
            j < 8,
    ;
    assert forall|k: int| 0 <= k < 8 && k != j implies bit_set(c, k) == bit_set(b, k) by {
        let kk = k as u8;
        assert(((b | (1u8 << j)) >> kk) & 1 == (b >> kk) & 1);
    }
}

pub proof fn lemma_set_bit(b: u8, j: u8)
    requires
        j < 8,
        !bit_set(b, j as int),
    ensures
        bit_set(b | (1u8 << j), j as int),
        forall|k: int| 0 <= k < 8 && k != j ==> bit_set(b | (1u8 << j), k) == bit_set(b, k),
        byte_free_count(b | (1u8 << j)) + 1 == byte_free_count(b),
{
    lemma_or_bit(b, j);
}

proof fn lemma_clear_bit(b: u8, j: u8)
    requires
        j < 8,
    ensures
        !bit_set(b & !(1u8 << j), j as int),
        forall|k: int| 0 <= k < 8 && k != j ==> bit_set(b & !(1u8 << j), k) == bit_set(b, k),
{
    let c = b & !(1u8 << j);
    assert(((b & !(1u8 << j)) >> j) & 1 == 0) by (bit_vector)
        requires
            j < 8,
    ;
    assert(forall|k: u8| k < 8 && k != j ==> ((b & !(1u8 << j)) >> k) & 1 == (b >> k) & 1) by (bit_vector)
        requires
            j < 8,
    ;
    assert forall|k: int| 0 <= k < 8 && k != j implies bit_set(c, k) == bit_set(b, k) by {
        let kk = k as u8;
        assert(((b & !(1u8 << j)) >> kk) & 1 == (b >> kk) & 1);
    }
}

pub proof fn lemma_full_byte(b: u8)
    ensures
        b == 0xFF <==> (forall|k: int| 0 <= k < 8 ==> bit_set(b, k)),
{
    assert(b == 0xFF <==> ((b >> 0u8) & 1 == 1 && (b >> 1u8) & 1 == 1 && (b >> 2u8) & 1 == 1
        && (b >> 3u8) & 1 == 1 && (b >> 4u8) & 1 == 1 && (b >> 5u8) & 1 == 1 && (b >> 6u8) & 1 == 1
        && (b >> 7u8) & 1 == 1)) by (bit_vector);
    if !(b == 0xFF) {
        assert(!(forall|k: int| 0 <= k < 8 ==> bit_set(b, k))) by {
            if !bit_set(b, 0) {} else if !bit_set(b, 1) {} else if !bit_set(b, 2) {} else if !bit_set(b, 3) {}
            else if !bit_set(b, 4) {} else if !bit_set(b, 5) {} else if !bit_set(b, 6) {} else {
                assert(!bit_set(b, 7));
            }
        }
    }
}

pub proof fn lemma_free_count_update(bitmap: Seq<u8>, i: int, b: u8)
    requires
        0 <= i < bitmap.len(),
    ensures
        free_frame_count(bitmap.update(i, b)) + byte_free_count(bitmap[i])
            == free_frame_count(bitmap) + byte_free_count(b),
    decreases bitmap.len(),
{
    if i == bitmap.len() - 1 {
        assert(bitmap.update(i, b).drop_last() =~= bitmap.drop_last());
    } else {
        lemma_free_count_update(bitmap.drop_last(), i, b);
        assert(bitmap.update(i, b).drop_last() =~= bitmap.drop_last().update(i, b));
    }
}

proof fn lemma_free_count_positive(bitmap: Seq<u8>, f: int)
    requires
        0 <= f < bitmap.len() * 8,
        !frame_used(bitmap, f),
    ensures
        free_frame_count(bitmap) > 0,
    decreases bitmap.len(),
{
    if f / 8 == bitmap.len() - 1 {
        let b = bitmap.last();
        assert(byte_free_count(b) > 0);
    } else {
        assert(bitmap.drop_last()[f / 8] == bitmap[f / 8]);
        lemma_free_count_positive(bitmap.drop_last(), f);
    }
}

pub proof fn lemma_no_free_frame(bitmap: Seq<u8>)
    requires
        forall|f: int| 0 <= f < bitmap.len() * 8 ==> #[trigger] frame_used(bitmap, f),
    ensures
        free_frame_count(bitmap) == 0,
    decreases bitmap.len(),
{
    if bitmap.len() > 0 {
        let n = bitmap.len() - 1;
        assert forall|f: int| 0 <= f < bitmap.drop_last().len() * 8 implies #[trigger] frame_used(bitmap.drop_last(), f) by {
            assert(frame_used(bitmap, f));
        }
        lemma_no_free_frame(bitmap.drop_last());
        let b = bitmap.last();
        assert forall|k: int| 0 <= k < 8 implies bit_set(b, k) by {
            assert(frame_used(bitmap, n * 8 + k));
            assert((n * 8 + k) / 8 == n);
            assert((n * 8 + k) % 8 == k);
        }
    }
}

/// The bitmap after frame `f` is marked used.
pub open spec fn bitmap_after_allocate(bitmap: Seq<u8>, f: int) -> Seq<u8> {
    bitmap.update(f / 8, bitmap[f / 8] | (1u8 << (f % 8) as u8))
}

/// The bitmap after `deallocate_frame` for the frame that starts at `frame`: it clears
/// bit `n / 8` of byte `n % 8`, where `n` is the frame number.
pub open spec fn bitmap_after_deallocate(bitmap: Seq<u8>, frame: u64) -> Seq<u8> {
    let n = frame >> 12u64;
    bitmap.update((n % 8) as int, bitmap[(n % 8) as int] & !(1u8 << (n / 8) as u8))
}

/// The allocator of physical frames: a bitmap with one bit per 4 KiB frame, set while
/// the frame is in use.
pub struct FrameAllocator {
    pub allocated_frames: Vec<u8>,
}

impl FrameAllocator {
    /// The bitmap covers physical memory, which ends below 2^52.
    pub open spec fn wf(&self) -> bool {
        &&& self.allocated_frames@.len() * 8 * 4096 <= 0x10_0000_0000_0000
        &&& self.allocated_frames@.len() * 8 <= usize::MAX
    }

    pub fn new(allocated_frames: Vec<u8>) -> (ret: Self)
        ensures
            ret.allocated_frames@ == allocated_frames@,
    {
        FrameAllocator { allocated_frames }
    }

    /// Takes the lowest free frame, marks it used and returns its start address.
    pub fn allocate_frame(&mut self) -> (ret: u64)
        requires
            old(self).wf(),
            free_frame_count(old(self).allocated_frames@) > 0,
        ensures
            final(self).wf(),
            ret % 4096 == 0,
            lowest_free_frame(old(self).allocated_frames@, (ret / 4096) as int),
            final(self).allocated_frames@ == bitmap_after_allocate(old(self).allocated_frames@, (ret / 4096) as int),
            frame_used(final(self).allocated_frames@, (ret / 4096) as int),
            forall|g: int| 0 <= g < final(self).allocated_frames@.len() * 8 && g != (ret / 4096) as int
                ==> #[trigger] frame_used(final(self).allocated_frames@, g) == frame_used(old(self).allocated_frames@, g),
            free_frame_count(final(self).allocated_frames@) + 1 == free_frame_count(old(self).allocated_frames@),
    {
        let ghost bm = self.allocated_frames@;
        let mut i: usize = 0;
        while i < self.allocated_frames.len()
            invariant
                i <= bm.len(),
                self.allocated_frames@ == bm,
                bm == old(self).allocated_frames@,
                bm.len() * 8 * 4096 <= 0x10_0000_0000_0000,
                bm.len() * 8 <= usize::MAX,
                forall|g: int| 0 <= g < i * 8 ==> #[trigger] frame_used(bm, g),
            decreases bm.len() - i,
        {
            let byte = self.allocated_frames[i];
            proof { lemma_full_byte(byte); }
            if byte != 0xFF {
                let mut j: u8 = 0;
                while j < 8
                    invariant
                        j <= 8,
                        i < bm.len(),
                        byte == bm[i as int],
                        byte != 0xFF,
                        self.allocated_frames@ == bm,
                        bm == old(self).allocated_frames@,
                        bm.len() * 8 * 4096 <= 0x10_0000_0000_0000,
                        bm.len() * 8 <= usize::MAX,
                        forall|g: int| 0 <= g < i * 8 ==> #[trigger] frame_used(bm, g),
                        forall|k: int| 0 <= k < j ==> bit_set(byte, k),
                    decreases 8 - j,
                {
                    assert(byte & (1u8 << j) == 0 <==> (byte >> j) & 1 != 1) by (bit_vector)
                        requires
                            j < 8,
                    ;
                    if byte & 1u8 << j == 0 {
                        let new_byte = byte | 1u8 << j;
                        proof {
                            lemma_set_bit(byte, j);
                            lemma_free_count_update(bm, i as int, new_byte);
                        }
                        self.allocated_frames.set(i, new_byte);
                        let frame = (i * 8 + j as usize) as u64;
                        assert(frame < bm.len() * 8);
                        assert(frame * 4096 <= 0x10_0000_0000_0000) by (nonlinear_arith)
                            requires
                                frame < bm.len() * 8,
                                bm.len() * 8 * 4096 <= 0x10_0000_0000_0000,
                        ;
                        let addr = crate::paging::frame_from_start_address(frame * 4096).unwrap();
                        proof {
                            assert(addr / 4096 == frame);
                            assert(frame / 8 == i && frame % 8 == j);
                            assert(!frame_used(bm, frame as int));
                            assert forall|g: int| 0 <= g < frame implies #[trigger] frame_used(bm, g) by {
                                if g >= i * 8 {
                                    assert(g / 8 == i);
                                    assert(bit_set(byte, g % 8));
                                }
                            }
                            assert forall|g: int| 0 <= g < bm.len() * 8 && g != frame
                                implies #[trigger] frame_used(self.allocated_frames@, g) == frame_used(bm, g) by {
                                if g / 8 == i {
                                    assert(g % 8 != j);
                                }
                            }
                        }
                        return addr;
                    }
                    j = j + 1;
                }
                assert(false);
            }
            proof {
                assert forall|g: int| 0 <= g < (i + 1) * 8 implies #[trigger] frame_used(bm, g) by {
                    if g >= i * 8 {
                        assert(g / 8 == i);
                    }
                }
            }
            i = i + 1;
        }
        proof { lemma_no_free_frame(bm); }
        assert(false);
        0
    }

    /// Clears a bit of the bitmap for the frame that starts at `frame`: the bit numbered
    /// by the frame number divided by eight, in the byte numbered by its remainder.
    pub fn deallocate_frame(&mut self, frame: u64)
        requires
            (frame >> 12u64) % 8 < old(self).allocated_frames@.len(),
            (frame >> 12u64) / 8 < 8,
        ensures
            final(self).allocated_frames@ == bitmap_after_deallocate(old(self).allocated_frames@, frame),
    {
        let addr = frame;
        let frame_nr = addr >> 12u64;
        let i = frame_nr % 8;
        let j = frame_nr / 8;
        let value = self.allocated_frames[i as usize] & !(1u8 << j as u8);
        self.allocated_frames.set(i as usize, value);
    }
}

/// Freeing the frame that allocation just handed out gives back the bitmap as it was,
/// for the frames whose number divided by eight equals its remainder (0, 9, 18, ..., 63):
/// `deallocate_frame` clears the bit numbered by the quotient in the byte numbered by the
/// remainder, which is the bit that allocation set only for those frames.
pub proof fn lemma_deallocate_undoes_allocate(bitmap: Seq<u8>, frame: u64)
    requires
        frame % 4096 == 0,
        lowest_free_frame(bitmap, (frame / 4096) as int),
        (frame >> 12u64) % 8 == (frame >> 12u64) / 8,
    ensures
        bitmap_after_deallocate(bitmap_after_allocate(bitmap, (frame / 4096) as int), frame) == bitmap,
{
    assert(frame >> 12u64 == frame / 4096) by (bit_vector);
    let f = (frame / 4096) as int;
    let j = (f % 8) as u8;
    let b = bitmap[f / 8];
    assert(!bit_set(b, j as int));
    assert((b >> j) & 1 != 1 ==> (b | (1u8 << j)) & !(1u8 << j) == b) by (bit_vector)
        requires
            j < 8,
    ;
    assert(bitmap_after_deallocate(bitmap_after_allocate(bitmap, f), frame) =~= bitmap);
}

/// Allocation never hands out a frame that is in use, so two allocations in a row hand
/// out different frames.
pub proof fn lemma_allocations_differ(bitmap: Seq<u8>, f1: int, f2: int)
    requires
        lowest_free_frame(bitmap, f1),
        lowest_free_frame(bitmap_after_allocate(bitmap, f1), f2),
    ensures
        f1 != f2,
        f1 < f2,
{
    let b = bitmap[f1 / 8];
    let j = (f1 % 8) as u8;
    lemma_set_bit(b, j);
    assert(frame_used(bitmap_after_allocate(bitmap, f1), f1));
    if f2 < f1 {
        assert(frame_used(bitmap, f2));
        if f2 / 8 == f1 / 8 {
            assert(f2 % 8 != f1 % 8);
        }
    }
}

// ---------------------------------------------------------------------------
// Page tables

/// The page-table indices of a virtual address: levels 4, 3, 2 and 1.
pub open spec fn virt_indices(addr: u64) -> (usize, usize, usize, usize) {
    (
        ((addr >> 39u64) & 0x1FF) as usize,
        ((addr >> 30u64) & 0x1FF) as usize,
        ((addr >> 21u64) & 0x1FF) as usize,
        ((addr >> 12u64) & 0x1FF) as usize,
    )
}

/// The page-table indices of a virtual address: levels 4, 3, 2 and 1.
pub fn virt2idx(addr: u64) -> (ret: (usize, usize, usize, usize))
    ensures
        ret == virt_indices(addr),
        ret.0 < 512 && ret.1 < 512 && ret.2 < 512 && ret.3 < 512,
{
    proof { lemma_index_masks(addr); }
    let idx4 = (addr >> 39u64 & 0x1FF) as usize;
    let idx3 = (addr >> 30u64 & 0x1FF) as usize;
    let idx2 = (addr >> 21u64 & 0x1FF) as usize;
    let idx1 = (addr >> 12u64 & 0x1FF) as usize;
    (idx4, idx3, idx2, idx1)
}

proof fn lemma_indices_bound(v: u64)
    ensures
        virt_indices(v).0 < 512,
        virt_indices(v).1 < 512,
        virt_indices(v).2 < 512,
        virt_indices(v).3 < 512,
{
    lemma_index_masks(v);
}

/// Nine-bit fields of a 64-bit word are below 512.
pub proof fn lemma_index_masks(x: u64)
    ensures
        (x >> 39u64) & 0x1FF < 512,
        (x >> 30u64) & 0x1FF < 512,
        (x >> 21u64) & 0x1FF < 512,
        (x >> 18u64) & 0x1FF < 512,
        (x >> 12u64) & 0x1FF < 512,
        (x >> 9u64) & 0x1FF < 512,
        x & 0x1FF < 512,
{
    assert((x >> 39u64) & 0x1FF < 512 && (x >> 30u64) & 0x1FF < 512 && (x >> 21u64) & 0x1FF < 512 && (x >> 18u64)
        & 0x1FF < 512 && (x >> 12u64) & 0x1FF < 512 && (x >> 9u64) & 0x1FF < 512 && x & 0x1FF < 512) by (bit_vector);
}

/// The address with the given page-table indices and a zero page offset.
pub open spec fn address_of_indices(i4: usize, i3: usize, i2: usize, i1: usize) -> u64 {
    ((i1 as u64) << 12u64) | ((i2 as u64) << 21u64) | ((i3 as u64) << 30u64) | ((i4 as u64) << 39u64)
}

/// Reading the indices back from the address that `idx2virt` and `idx2phys` build
/// gives the indices again: each is at most 511 and has its own nine bits, and the
/// sign extension that `idx2virt` adds above bit 47 is masked off again.
pub proof fn lemma_indices_round_trip(i4: usize, i3: usize, i2: usize, i1: usize)
    requires
        i4 < 512,
        i3 < 512,
        i2 < 512,
        i1 < 512,
    ensures
        virt_indices(address_of_indices(i4, i3, i2, i1)) == (i4, i3, i2, i1),
        virt_indices(crate::paging::sign_extend_48(address_of_indices(i4, i3, i2, i1))) == (i4, i3, i2, i1),
{
    let x: u64 = i4 as u64;
    let y: u64 = i3 as u64;
    let z: u64 = i2 as u64;
    let w: u64 = i1 as u64;
    let a: u64 = ((w << 12u64) | (z << 21u64) | (y << 30u64) | (x << 39u64));
    let b: u64 = crate::paging::sign_extend_48(a);
    assert(a == address_of_indices(i4, i3, i2, i1));
    assert((a >> 39u64) & 0x1FF == x && (a >> 30u64) & 0x1FF == y && (a >> 21u64) & 0x1FF == z && (a >> 12u64) & 0x1FF
        == w && (b >> 39u64) & 0x1FF == x && (b >> 30u64) & 0x1FF == y && (b >> 21u64) & 0x1FF == z && (b >> 12u64)
        & 0x1FF == w) by (bit_vector)
        requires
            x < 512,
            y < 512,
            z < 512,
            w < 512,
            a == ((w << 12u64) | (z << 21u64) | (y << 30u64) | (x << 39u64)),
            b == (if a & 0x8000_0000_0000u64 != 0 {
                a | 0xFFFF_0000_0000_0000u64
            } else {
                a & 0x0000_FFFF_FFFF_FFFFu64
            }),
    ;
}

/// The virtual address with the given page-table indices, in canonical form: bits 48
/// to 63 copy bit 47 (so every level-4 index, 256 to 511 too, gives an address).
pub fn idx2virt(i4: usize, i3: usize, i2: usize, i1: usize) -> (ret: u64)
    ensures
        ret == crate::paging::sign_extend_48(address_of_indices(i4, i3, i2, i1)),
{
    let addr = ((i1 as u64) << 12u64) | ((i2 as u64) << 21u64) | ((i3 as u64) << 30u64) | ((i4 as u64) << 39u64);
    crate::paging::virt_addr_truncate(addr)
}

/// The physical address with the given page-table indices; it must lie below 2^52.
pub fn idx2phys(i4: usize, i3: usize, i2: usize, i1: usize) -> (ret: u64)
    requires
        address_of_indices(i4, i3, i2, i1) < 0x10_0000_0000_0000,
    ensures
        ret == address_of_indices(i4, i3, i2, i1),
{
    let addr = ((i1 as u64) << 12u64) | ((i2 as u64) << 21u64) | ((i3 as u64) << 30u64) | ((i4 as u64) << 39u64);
    crate::paging::phys_addr(addr)
}

/// The page-table indices of a physical address: levels 4, 3, 2 and 1.
pub fn phys2idx(addr: u64) -> (ret: (usize, usize, usize, usize))
    ensures
        ret == virt_indices(addr),
{
    virt2idx(addr)
}

pub open spec fn is_present(e: u64) -> bool {
    e & PRESENT != 0
}

pub open spec fn is_huge(e: u64) -> bool {
    e & HUGE_PAGE != 0
}

/// The page tables that a mapper edits: `tables[0]` is the level-4 table, and
/// `addresses[k]` is the physical address of `tables[k]`. A frame that `map` takes for a
/// new table holds an empty table: the mapper starts it with 512 zero entries and never
/// reads what the frame held before (the caller writes the tables back to their frames).
pub struct Mapper {
    pub tables: Vec<PageTable>,
    pub addresses: Vec<u64>,
}

impl Mapper {
    pub open spec fn wf(&self) -> bool {
        &&& self.tables@.len() == self.addresses@.len()
        &&& self.tables@.len() >= 1
        &&& self.addresses@.no_duplicates()
        &&& forall|k: int| 0 <= k < self.tables@.len() ==> #[trigger] page_table_entries(self.tables@[k]).len() == 512
    }

    /// The entries of table `k`.
    pub open spec fn entries(&self, k: int) -> Seq<u64> {
        page_table_entries(self.tables@[k])
    }

    pub open spec fn has_table(&self, addr: u64) -> bool {
        self.addresses@.contains(addr)
    }

    /// Which table lives at `addr`.
    pub open spec fn table_index(&self, addr: u64) -> int {
        self.addresses@.index_of(addr)
    }

    /// The entries of the table that entry `e` points to.
    pub open spec fn next_table(&self, e: u64) -> Seq<u64> {
        self.entries(self.table_index(e & ADDRESS_MASK))
    }

    /// The level-4 entry for `v`.
    pub open spec fn entry4(&self, v: u64) -> u64 {
        self.entries(0)[virt_indices(v).0 as int]
    }

    /// The level-3 entry for `v`.
    pub open spec fn entry3(&self, v: u64) -> u64 {
        self.next_table(self.entry4(v))[virt_indices(v).1 as int]
    }

    /// The level-2 entry for `v`.
    pub open spec fn entry2(&self, v: u64) -> u64 {
        self.next_table(self.entry3(v))[virt_indices(v).2 as int]
    }

    /// The level-1 entry for `v`.
    pub open spec fn entry1(&self, v: u64) -> u64 {
        self.next_table(self.entry2(v))[virt_indices(v).3 as int]
    }

    /// Each non-zero entry on the way to `v` that points to a table is present and its
    /// table is one of the mapper's tables.
    pub open spec fn walk_ok(&self, v: u64) -> bool {
        self.entry4(v) != 0 ==> {
            &&& is_present(self.entry4(v))
            &&& !is_huge(self.entry4(v))
            &&& self.has_table(self.entry4(v) & ADDRESS_MASK)
            &&& (self.entry3(v) != 0 && !is_huge(self.entry3(v))) ==> {
                &&& is_present(self.entry3(v))
                &&& self.has_table(self.entry3(v) & ADDRESS_MASK)
                &&& (self.entry2(v) != 0 && !is_huge(self.entry2(v))) ==> {
                    &&& is_present(self.entry2(v))
                    &&& self.has_table(self.entry2(v) & ADDRESS_MASK)
                }
            }
        }
    }

    /// Whether `v` lies in a mapped page: a 1 GiB page, a 2 MiB page or a 4 KiB page.
    pub open spec fn mapped(&self, v: u64) -> bool {
        &&& self.entry4(v) != 0
        &&& self.entry3(v) != 0
        &&& (is_huge(self.entry3(v)) || (self.entry2(v) != 0 && (is_huge(self.entry2(v)) || self.entry1(v) != 0)))
    }

    /// `v` lies in a 4 KiB page whose entry is present.
    pub open spec fn mapped_4k(&self, v: u64) -> bool {
        &&& self.entry4(v) != 0
        &&& self.entry3(v) != 0
        &&& !is_huge(self.entry3(v))
        &&& self.entry2(v) != 0
        &&& !is_huge(self.entry2(v))
        &&& is_present(self.entry1(v))
        &&& !is_huge(self.entry1(v))
    }

    /// A mapper that edits the given level-4 table, which lives at `address`.
    pub fn new(page_table: PageTable, address: u64) -> (ret: Self)
        ensures
            ret.wf(),
            ret.tables@ == seq![page_table],
            ret.addresses@ == seq![address],
    {
        let _count: usize = table_entry_count(&page_table);
        let mut tables = Vec::new();
        tables.push(page_table);
        let mut addresses = Vec::new();
        addresses.push(address);
        Mapper { tables, addresses }
    }

    /// Which table lives at `addr`, if any.
    pub fn find_table(&self, addr: u64) -> (ret: Option<usize>)
        requires
            self.wf(),
        ensures
            ret is Some <==> self.has_table(addr),
            ret matches Some(k) ==> k == self.table_index(addr) && k < self.tables@.len(),
    {
        let mut k: usize = 0;
        while k < self.addresses.len()
            invariant
                self.wf(),
                k <= self.addresses@.len(),
                forall|m: int| 0 <= m < k ==> self.addresses@[m] != addr,
            decreases self.addresses@.len() - k,
        {
            if self.addresses[k] == addr {
                assert(self.addresses@[k as int] == addr);
                proof {
                    let j = self.table_index(addr);
                    assert(self.addresses@.contains(addr));
                    assert(0 <= j < self.addresses@.len() && self.addresses@[j] == addr);
                }
                return Some(k);
            }
            k = k + 1;
        }
        None
    }

    /// The table that entry `i` of table `k` points to: `None` when the entry is zero,
    /// not present, maps a huge page, or points to none of the mapper's tables.
    fn as_page_table(&self, k: usize, i: usize) -> (ret: Option<usize>)
        requires
            self.wf(),
            k < self.tables@.len(),
            i < 512,
        ensures
            ret is Some <==> {
                let e = self.entries(k as int)[i as int];
                e != 0 && is_present(e) && !is_huge(e) && self.has_table(e & ADDRESS_MASK)
            },
            ret matches Some(t) ==> t == self.table_index(self.entries(k as int)[i as int] & ADDRESS_MASK)
                && t < self.tables@.len(),
    {
        if !entry_is_unused(&self.tables, k, i) {
            let flags = entry_flags(&self.tables, k, i);
            let ghost e = self.entries(k as int)[i as int];
            assert(e & !ADDRESS_MASK & PRESENT == e & PRESENT && e & !ADDRESS_MASK & HUGE_PAGE == e & HUGE_PAGE)
                by (bit_vector);
            if flags & PRESENT != 0 && flags & HUGE_PAGE == 0 {
                return self.find_table(entry_addr(&self.tables, k, i));
            }
        }
        None
    }

    /// Whether `virt` lies in a mapped page.
    pub fn is_mapped(&self, virt: u64) -> (ret: bool)
        requires
            self.wf(),
            self.walk_ok(virt),
        ensures
            ret == self.mapped(virt),
    {
        let (idx4, idx3, idx2, idx1) = virt2idx(virt);
        if entry_is_unused(&self.tables, 0, idx4) {
            return false;
        }
        let pdp = self.as_page_table(0, idx4).unwrap();
        if entry_is_unused(&self.tables, pdp, idx3) {
            return false;
        } else if entry_flags(&self.tables, pdp, idx3) & HUGE_PAGE != 0 {
            proof { lemma_flags_huge(self.entries(pdp as int)[idx3 as int]); }
            return true;
        }
        proof { lemma_flags_huge(self.entries(pdp as int)[idx3 as int]); }
        let pd = self.as_page_table(pdp, idx3).unwrap();
        if entry_is_unused(&self.tables, pd, idx2) {
            return false;
        } else if entry_flags(&self.tables, pd, idx2) & HUGE_PAGE != 0 {
            proof { lemma_flags_huge(self.entries(pd as int)[idx2 as int]); }
            return true;
        }
        proof { lemma_flags_huge(self.entries(pd as int)[idx2 as int]); }
        let pt = self.as_page_table(pd, idx2).unwrap();
        if entry_is_unused(&self.tables, pt, idx1) {
            return false;
        }
        true
    }

    /// The frame that `virt` is mapped to; fails when `virt` is not mapped. A mapped
    /// address must lie in a 4 KiB page.
    pub fn get_physical(&self, virt: u64) -> (ret: Result<u64, &'static str>)
        requires
            self.wf(),
            self.walk_ok(virt),
            self.mapped(virt) ==> self.mapped_4k(virt),
        ensures
            ret is Err <==> !self.mapped(virt),
            ret matches Err(msg) ==> msg@ == "Address is not mapped"@,
            ret matches Ok(frame) ==> frame == self.entry1(virt) & ADDRESS_MASK,
    {
        if !self.is_mapped(virt) {
            return Err("Address is not mapped");
        }
        let (idx4, idx3, idx2, idx1) = virt2idx(virt);
        let page_table = self.as_page_table(0, idx4).unwrap();
        let page_table = self.as_page_table(page_table, idx3).unwrap();
        let page_table = self.as_page_table(page_table, idx2).unwrap();
        let frame = entry_frame(&self.tables, page_table, idx1).unwrap();
        Ok(frame)
    }
}

impl Mapper {
    /// Whether the walk to `v` is well formed (see `walk_ok`).
    pub fn check_walk(&self, v: u64) -> (ret: bool)
        requires
            self.wf(),
        ensures
            ret == self.walk_ok(v),
    {
        let (idx4, idx3, idx2, _idx1) = virt2idx(v);
        if entry_is_unused(&self.tables, 0, idx4) {
            return true;
        }
        proof { lemma_flags_huge(self.entries(0)[idx4 as int]); }
        let f4 = entry_flags(&self.tables, 0, idx4);
        if f4 & PRESENT == 0 || f4 & HUGE_PAGE != 0 {
            return false;
        }
        let t3 = match self.find_table(entry_addr(&self.tables, 0, idx4)) {
            Some(t) => t,
            None => {
                return false;
            },
        };
        if entry_is_unused(&self.tables, t3, idx3) {
            return true;
        }
        proof { lemma_flags_huge(self.entries(t3 as int)[idx3 as int]); }
        let f3 = entry_flags(&self.tables, t3, idx3);
        if f3 & HUGE_PAGE != 0 {
            return true;
        }
        if f3 & PRESENT == 0 {
            return false;
        }
        let t2 = match self.find_table(entry_addr(&self.tables, t3, idx3)) {
            Some(t) => t,
            None => {
                return false;
            },
        };
        if entry_is_unused(&self.tables, t2, idx2) {
            return true;
        }
        proof { lemma_flags_huge(self.entries(t2 as int)[idx2 as int]); }
        let f2 = entry_flags(&self.tables, t2, idx2);
        if f2 & HUGE_PAGE != 0 {
            return true;
        }
        if f2 & PRESENT == 0 {
            return false;
        }
        self.find_table(entry_addr(&self.tables, t2, idx2)).is_some()
    }

    /// The level-3 and level-2 entries on the way to `v`, each zero where the walk
    /// stops before it, and whether the level-3 one maps a 1 GiB page.
    fn upper_entries(&self, v: u64) -> (ret: (u64, u64, u64))
        requires
            self.wf(),
            self.walk_ok(v),
        ensures
            ret.0 == self.entry4(v),
            ret.0 != 0 ==> ret.1 == self.entry3(v),
            ret.0 != 0 && ret.1 != 0 && !is_huge(ret.1) ==> ret.2 == self.entry2(v),
    {
        let (idx4, idx3, idx2, _idx1) = virt2idx(v);
        if entry_is_unused(&self.tables, 0, idx4) {
            return (0, 0, 0);
        }
        let e4 = entry_addr(&self.tables, 0, idx4) | entry_flags(&self.tables, 0, idx4);
        proof {
            let e = self.entries(0)[idx4 as int];
            lemma_flags_huge(e);
        }
        let t3 = self.find_table(entry_addr(&self.tables, 0, idx4)).unwrap();
        if entry_is_unused(&self.tables, t3, idx3) {
            return (e4, 0, 0);
        }
        let e3 = entry_addr(&self.tables, t3, idx3) | entry_flags(&self.tables, t3, idx3);
        proof {
            let e = self.entries(t3 as int)[idx3 as int];
            lemma_flags_huge(e);
        }
        if entry_flags(&self.tables, t3, idx3) & HUGE_PAGE != 0 {
            return (e4, e3, 0);
        }
        let t2 = self.find_table(entry_addr(&self.tables, t3, idx3)).unwrap();
        if entry_is_unused(&self.tables, t2, idx2) {
            return (e4, e3, 0);
        }
        let e2 = entry_addr(&self.tables, t2, idx2) | entry_flags(&self.tables, t2, idx2);
        proof {
            let e = self.entries(t2 as int)[idx2 as int];
            lemma_flags_huge(e);
        }
        (e4, e3, e2)
    }

    /// Whether `map_huge` may run for `v` as far as the tables go: no 1 GiB page is in
    /// the way and the level-2 entry is free.
    pub fn huge_slot_ready(&self, v: u64) -> (ret: bool)
        requires
            self.wf(),
            self.walk_ok(v),
        ensures
            ret == (self.reaches_level_2(v) && self.huge_slot_free(v)),
    {
        let (e4, e3, e2) = self.upper_entries(v);
        proof { lemma_flags_huge(e3); }
        if e4 == 0 {
            return true;
        }
        if e3 == 0 {
            return true;
        }
        if e3 & HUGE_PAGE != 0 {
            return false;
        }
        e2 == 0
    }

    /// How many tables `map_huge` creates for `v` (see `missing_huge_tables`).
    pub fn huge_tables_missing(&self, v: u64) -> (ret: usize)
        requires
            self.wf(),
            self.walk_ok(v),
        ensures
            ret == self.missing_huge_tables(v),
    {
        let (e4, e3, _e2) = self.upper_entries(v);
        if e4 == 0 {
            2
        } else if e3 == 0 {
            1
        } else {
            0
        }
    }

    /// How many tables `map` creates for `v` (see `missing_tables`).
    pub fn tables_missing(&self, v: u64) -> (ret: usize)
        requires
            self.wf(),
            self.walk_ok(v),
        ensures
            ret == self.missing_tables(v),
    {
        let (e4, e3, e2) = self.upper_entries(v);
        proof { lemma_flags_huge(e3); }
        if e4 == 0 {
            3
        } else if e3 == 0 {
            2
        } else if e3 & HUGE_PAGE != 0 {
            0
        } else if e2 == 0 {
            1
        } else {
            0
        }
    }
}

impl Mapper {
    /// Whether `map` succeeds for `v` (see `map_succeeds`).
    pub fn map_ready(&self, v: u64) -> (ret: bool)
        requires
            self.wf(),
            self.walk_ok(v),
        ensures
            ret == self.map_succeeds(v),
    {
        let (e4, e3, e2) = self.upper_entries(v);
        proof {
            lemma_flags_huge(e3);
            lemma_flags_huge(e2);
        }
        if e4 == 0 || e3 == 0 {
            return true;
        }
        if e3 & HUGE_PAGE != 0 {
            return false;
        }
        if e2 == 0 {
            return true;
        }
        if e2 & HUGE_PAGE != 0 {
            return false;
        }
        let (_idx4, _idx3, _idx2, idx1) = virt2idx(v);
        let t1 = self.find_table(e2 & ADDRESS_MASK).unwrap();
        entry_is_unused(&self.tables, t1, idx1)
    }

    /// Whether the tables on the way to `v` are distinct (see `path_distinct`), for a
    /// walk with no huge page on the way.
    pub fn check_path_distinct(&self, v: u64) -> (ret: bool)
        requires
            self.wf(),
            self.walk_ok(v),
            self.entry4(v) != 0 && self.entry3(v) != 0 ==> !is_huge(self.entry3(v)),
            self.entry4(v) != 0 && self.entry3(v) != 0 && self.entry2(v) != 0 ==> !is_huge(self.entry2(v)),
        ensures
            ret == self.path_distinct(v),
    {
        let (e4, e3, e2) = self.upper_entries(v);
        if e4 == 0 {
            return true;
        }
        let t3 = self.find_table(e4 & ADDRESS_MASK).unwrap();
        if t3 == 0 {
            return false;
        }
        if e3 == 0 {
            return true;
        }
        let t2 = self.find_table(e3 & ADDRESS_MASK).unwrap();
        if t2 == 0 || t2 == t3 {
            return false;
        }
        if e2 == 0 {
            return true;
        }
        let t1 = self.find_table(e2 & ADDRESS_MASK).unwrap();
        t1 != 0 && t1 != t2 && t1 != t3
    }
}

/// `m` maps the 2 MiB page at `v` by the huge level-2 entry `e`, on a well-formed walk.
pub open spec fn maps_huge(m: Mapper, v: u64, e: u64) -> bool {
    &&& m.walk_ok(v)
    &&& m.mapped(v)
    &&& !is_huge(m.entry3(v))
    &&& m.entry2(v) == e
}

/// `m` maps the 4 KiB page at `v` by the present 4 KiB entry `e`, on a well-formed walk.
pub open spec fn maps_4k(m: Mapper, v: u64, e: u64) -> bool {
    &&& m.walk_ok(v)
    &&& m.mapped_4k(v)
    &&& m.entry1(v) == e
}

/// Filling zero entries and adding tables keeps a huge mapping and a 4 KiB mapping.
pub proof fn lemma_filled_keeps_maps(after: Mapper, before: Mapper, v: u64, e: u64)
    requires
        before.wf(),
        after.wf(),
        after.only_filled(&before),
    ensures
        maps_huge(before, v, e) ==> maps_huge(after, v, e),
        maps_4k(before, v, e) ==> maps_4k(after, v, e),
{
    if maps_huge(before, v, e) {
        lemma_filled_keeps(after, before, v);
    }
    if maps_4k(before, v, e) {
        lemma_mapped_page_is_unmappable(before, v);
        assert(before.mapped(v));
        lemma_filled_keeps(after, before, v);
    }
}

/// The number of clear bits of a byte.
pub fn byte_free_bits(b: u8) -> (ret: u8)
    ensures
        ret == byte_free_count(b),
{
    let mut n: u8 = 0;
    if (b >> 0u8) & 1 != 1 {
        n = n + 1;
    }
    if (b >> 1u8) & 1 != 1 {
        n = n + 1;
    }
    if (b >> 2u8) & 1 != 1 {
        n = n + 1;
    }
    if (b >> 3u8) & 1 != 1 {
        n = n + 1;
    }
    if (b >> 4u8) & 1 != 1 {
        n = n + 1;
    }
    if (b >> 5u8) & 1 != 1 {
        n = n + 1;
    }
    if (b >> 6u8) & 1 != 1 {
        n = n + 1;
    }
    if (b >> 7u8) & 1 != 1 {
        n = n + 1;
    }
    n
}

/// The number of frames that the first `len` bytes of a bitmap mark as free.
pub fn free_frames_in(bitmap: &Vec<u8>, len: usize) -> (ret: usize)
    requires
        len <= bitmap@.len(),
        len * 8 <= usize::MAX,
    ensures
        ret == free_frame_count(bitmap@.subrange(0, len as int)),
{
    let mut count: usize = 0;
    let mut i: usize = 0;
    while i < len
        invariant
            i <= len,
            len <= bitmap@.len(),
            len * 8 <= usize::MAX,
            count <= i * 8,
            count == free_frame_count(bitmap@.subrange(0, i as int)),
        decreases len - i,
    {
        let b = byte_free_bits(bitmap[i]);
        proof {
            let next = bitmap@.subrange(0, i + 1);
            assert(next.drop_last() =~= bitmap@.subrange(0, i as int));
            assert(next.last() == bitmap@[i as int]);
        }
        assert(b <= 8);
        count = count + b as usize;
        i = i + 1;
    }
    count
}

/// A source of free 4 KiB frames, from which `map` takes the frames of new tables.
pub trait FrameSource {
    /// The source's invariant.
    spec fn source_wf(&self) -> bool;

    /// How many frames the source can still hand out.
    spec fn free_frames(&self) -> nat;

    /// Whether the frame that starts at `addr` has been handed out.
    spec fn frame_in_use(&self, addr: u64) -> bool;

    /// Hands out a free frame: one that was not in use and now is.
    fn take_frame(&mut self) -> (ret: u64)
        requires
            old(self).source_wf(),
            old(self).free_frames() > 0,
        ensures
            final(self).source_wf(),
            ret % 4096 == 0,
            ret < 0x10_0000_0000_0000,
            !old(self).frame_in_use(ret),
            final(self).frame_in_use(ret),
            forall|a: u64| old(self).frame_in_use(a) ==> #[trigger] final(self).frame_in_use(a),
            final(self).free_frames() + 1 == old(self).free_frames(),
    ;
}

impl FrameSource for FrameAllocator {
    open spec fn source_wf(&self) -> bool {
        self.wf()
    }

    open spec fn free_frames(&self) -> nat {
        free_frame_count(self.allocated_frames@)
    }

    open spec fn frame_in_use(&self, addr: u64) -> bool {
        &&& addr % 4096 == 0
        &&& addr / 4096 < self.allocated_frames@.len() * 8
        &&& frame_used(self.allocated_frames@, (addr / 4096) as int)
    }

    fn take_frame(&mut self) -> (ret: u64) {
        let ghost len = self.allocated_frames@.len();
        let ret = self.allocate_frame();
        proof {
            let f = (ret / 4096) as int;
            assert(ret == f * 4096);
            assert(ret < 0x10_0000_0000_0000) by (nonlinear_arith)
                requires
                    ret == f * 4096,
                    f < len * 8,
                    len * 8 * 4096 <= 0x10_0000_0000_0000,
            ;
            assert forall|a: u64| old(self).frame_in_use(a) implies #[trigger] self.frame_in_use(a) by {
                if (a / 4096) as int != f {
                    assert(frame_used(self.allocated_frames@, (a / 4096) as int) == frame_used(old(self).allocated_frames@,
                        (a / 4096) as int));
                }
            }
        }
        ret
    }
}

impl Mapper {
    /// Every table of the mapper lives in a frame that the frame source has handed out.
    pub open spec fn tables_in_use<F: FrameSource>(&self, frames: &F) -> bool {
        forall|k: int| 0 <= k < self.addresses@.len() ==> #[trigger] frames.frame_in_use(self.addresses@[k])
    }

    /// How many tables `map` creates on the way to `v`.
    pub open spec fn missing_tables(&self, v: u64) -> nat {
        if self.entry4(v) == 0 {
            3
        } else if self.entry3(v) == 0 {
            2
        } else if is_huge(self.entry3(v)) {
            0
        } else if self.entry2(v) == 0 {
            1
        } else {
            0
        }
    }

    /// Whether `map` succeeds for `v`: no 1 GiB or 2 MiB page is in the way, and the
    /// 4 KiB entry is zero (a missing table counts as a table of zero entries).
    pub open spec fn map_succeeds(&self, v: u64) -> bool {
        ||| self.entry4(v) == 0
        ||| self.entry3(v) == 0
        ||| !is_huge(self.entry3(v)) && (self.entry2(v) == 0 || !is_huge(self.entry2(v)) && self.entry1(v) == 0)
    }

    /// The tables on the way to `v` that already exist are distinct, and none is the
    /// level-4 table.
    pub open spec fn path_distinct(&self, v: u64) -> bool {
        let t3 = self.table_index(self.entry4(v) & ADDRESS_MASK);
        let t2 = self.table_index(self.entry3(v) & ADDRESS_MASK);
        let t1 = self.table_index(self.entry2(v) & ADDRESS_MASK);
        &&& self.entry4(v) != 0 ==> t3 != 0
        &&& self.entry4(v) != 0 && self.entry3(v) != 0 ==> t2 != 0 && t2 != t3
        &&& self.entry4(v) != 0 && self.entry3(v) != 0 && self.entry2(v) != 0 ==> t1 != 0 && t1 != t2 && t1 != t3
    }

    /// Adds an empty table that lives at `addr`.
    fn add_table(&mut self, addr: u64)
        requires
            old(self).wf(),
            !old(self).has_table(addr),
        ensures
            final(self).wf(),
            final(self).tables@.len() == old(self).tables@.len() + 1,
            final(self).addresses@ == old(self).addresses@.push(addr),
            forall|m: int| 0 <= m < old(self).tables@.len() ==> final(self).tables@[m] == old(self).tables@[m],
            final(self).entries(old(self).tables@.len() as int) == Seq::new(512, |i: int| 0u64),
            final(self).table_index(addr) == old(self).tables@.len(),
            forall|b: u64| old(self).has_table(b) ==> #[trigger] final(self).table_index(b) == old(self).table_index(b)
                && final(self).has_table(b),
            final(self).has_table(addr),
    {
        let ghost before = self.addresses@;
        self.tables.push(new_page_table());
        self.addresses.push(addr);
        proof {
            let after = self.addresses@;
            assert(after[before.len() as int] == addr);
            assert(after.contains(addr));
            assert forall|i: int, j: int| 0 <= i < after.len() && 0 <= j < after.len() && i != j
                implies after[i] != after[j] by {
                if i < before.len() && j < before.len() {
                } else if i == before.len() {
                    assert(!before.contains(addr));
                    assert(after[j] == before[j]);
                } else {
                    assert(!before.contains(addr));
                    assert(after[i] == before[i]);
                }
            }
            let k = after.index_of(addr);
            if k != before.len() {
                assert(after[k] == before[k]);
                assert(before.contains(addr));
            }
            assert forall|b: u64| before.contains(b) implies #[trigger] after.index_of(b) == before.index_of(b)
                && after.contains(b) by {
                let i = before.index_of(b);
                assert(after[i] == b);
                assert(after.contains(b));
                let j = after.index_of(b);
                if j != i {
                    assert(after[j] == b);
                }
            }
        }
    }
}

/// Entries only went from zero to something from `b` to `a`.
pub open spec fn seq_only_filled(a: Seq<u64>, b: Seq<u64>) -> bool {
    &&& a.len() == b.len()
    &&& forall|i: int| 0 <= i < a.len() ==> #[trigger] a[i] == b[i] || b[i] == 0
}

impl Mapper {
    /// `self` has the tables of `before`, in which only zero entries changed, and maybe
    /// more tables after them.
    pub open spec fn only_filled(&self, before: &Mapper) -> bool {
        &&& before.tables@.len() <= self.tables@.len()
        &&& before.addresses@.len() <= self.addresses@.len()
        &&& self.addresses@.subrange(0, before.addresses@.len() as int) == before.addresses@
        &&& forall|k: int| 0 <= k < before.tables@.len() ==> #[trigger] seq_only_filled(self.entries(k), before.entries(k))
        &&& forall|b: u64| before.has_table(b) ==> #[trigger] self.table_index(b) == before.table_index(b) && self.has_table(b)
    }

    /// The entry that maps `v`'s page: the 1 GiB entry, the 2 MiB entry, or the 4 KiB
    /// entry, whichever the walk ends at.
    pub open spec fn leaf_entry(&self, v: u64) -> u64 {
        if is_huge(self.entry3(v)) {
            self.entry3(v)
        } else if is_huge(self.entry2(v)) {
            self.entry2(v)
        } else {
            self.entry1(v)
        }
    }
}

proof fn lemma_filled_refl(m: Mapper)
    requires
        m.wf(),
    ensures
        m.only_filled(&m),
{
    assert(m.addresses@.subrange(0, m.addresses@.len() as int) =~= m.addresses@);
}

proof fn lemma_filled_trans(a: Mapper, b: Mapper, c: Mapper)
    requires
        a.wf(),
        b.wf(),
        c.wf(),
        a.only_filled(&b),
        b.only_filled(&c),
    ensures
        a.only_filled(&c),
{
    assert(a.addresses@.subrange(0, c.addresses@.len() as int) =~= c.addresses@) by {
        assert forall|i: int| 0 <= i < c.addresses@.len() implies a.addresses@[i] == c.addresses@[i] by {
            assert(a.addresses@.subrange(0, b.addresses@.len() as int)[i] == b.addresses@[i]);
            assert(b.addresses@.subrange(0, c.addresses@.len() as int)[i] == c.addresses@[i]);
        }
    }
    assert forall|k: int| 0 <= k < c.tables@.len() implies #[trigger] seq_only_filled(a.entries(k), c.entries(k)) by {
        assert(seq_only_filled(a.entries(k), b.entries(k)));
        assert(seq_only_filled(b.entries(k), c.entries(k)));
        assert forall|i: int| 0 <= i < a.entries(k).len() implies #[trigger] a.entries(k)[i] == c.entries(k)[i]
            || c.entries(k)[i] == 0 by {
            assert(a.entries(k)[i] == b.entries(k)[i] || b.entries(k)[i] == 0);
            assert(b.entries(k)[i] == c.entries(k)[i] || c.entries(k)[i] == 0);
        }
    }
    assert forall|x: u64| c.has_table(x) implies #[trigger] a.table_index(x) == c.table_index(x) && a.has_table(x) by {
        assert(b.table_index(x) == c.table_index(x) && b.has_table(x));
    }
}

/// Every mapper has only filled its own zero entries: the relation is reflexive.
pub proof fn lemma_filled_refl_pub(m: Mapper)
    requires
        m.wf(),
    ensures
        m.only_filled(&m),
{
    lemma_filled_refl(m);
}

/// Filling zero entries twice is filling zero entries once.
pub proof fn lemma_filled_trans_pub(a: Mapper, b: Mapper, c: Mapper)
    requires
        a.wf(),
        b.wf(),
        c.wf(),
        a.only_filled(&b),
        b.only_filled(&c),
    ensures
        a.only_filled(&c),
{
    lemma_filled_trans(a, b, c);
}

/// Filling zero entries and adding tables keeps every existing mapping, entry for entry.
proof fn lemma_filled_keeps(after: Mapper, before: Mapper, w: u64)
    requires
        before.wf(),
        after.wf(),
        after.only_filled(&before),
        before.walk_ok(w),
        before.mapped(w),
    ensures
        after.mapped(w),
        after.walk_ok(w),
        after.leaf_entry(w) == before.leaf_entry(w),
        after.entry4(w) == before.entry4(w),
        after.entry3(w) == before.entry3(w),
        !is_huge(before.entry3(w)) ==> after.entry2(w) == before.entry2(w),
        !is_huge(before.entry3(w)) && !is_huge(before.entry2(w)) ==> after.entry1(w) == before.entry1(w),
{
    lemma_indices_bound(w);
    let (i4, i3, i2, i1) = virt_indices(w);
    assert(seq_only_filled(after.entries(0), before.entries(0)));
    assert(after.entry4(w) == before.entry4(w));
    let a4: u64 = before.entry4(w) & ADDRESS_MASK;
    let t3: int = before.table_index(a4);
    assert(before.has_table(a4));
    assert(0 <= t3 < before.tables@.len());
    assert(after.table_index(a4) == t3);
    assert(seq_only_filled(after.entries(t3), before.entries(t3)));
    assert(after.entry3(w) == before.entry3(w));
    if !is_huge(before.entry3(w)) {
        let a3: u64 = before.entry3(w) & ADDRESS_MASK;
        let t2: int = before.table_index(a3);
        assert(before.has_table(a3));
        assert(after.table_index(a3) == t2);
        assert(seq_only_filled(after.entries(t2), before.entries(t2)));
        assert(after.entry2(w) == before.entry2(w));
        if !is_huge(before.entry2(w)) {
            let a2: u64 = before.entry2(w) & ADDRESS_MASK;
            let t1: int = before.table_index(a2);
            assert(before.has_table(a2));
            assert(after.table_index(a2) == t1);
            assert(seq_only_filled(after.entries(t1), before.entries(t1)));
            assert(after.entry1(w) == before.entry1(w));
        }
    }
}

/// What `map` does to the tables only fills zero entries and adds tables, so every
/// address that was mapped before stays mapped by the same entry.
pub proof fn lemma_map_keeps_mappings(after: Mapper, before: Mapper, w: u64)
    requires
        before.wf(),
        after.wf(),
        after.only_filled(&before),
        before.walk_ok(w),
        before.mapped(w),
    ensures
        after.mapped(w),
        after.leaf_entry(w) == before.leaf_entry(w),
{
    lemma_filled_keeps(after, before, w);
}

impl Mapper {
    /// Entry `i` of table `k` on the way to a new mapping: when it is zero, the lowest
    /// free frame is taken for a new empty table, and the entry points to it, present and
    /// writable. Returns the table that the entry points to.
    fn descend_or_create<F: FrameSource>(&mut self, frames: &mut F, k: usize, i: usize) -> (ret: usize)
        requires
            old(self).wf(),
            old(frames).source_wf(),
            old(self).tables_in_use(old(frames)),
            k < old(self).tables@.len(),
            i < 512,
            old(self).entries(k as int)[i as int] != 0 ==> {
                let e = old(self).entries(k as int)[i as int];
                is_present(e) && !is_huge(e) && old(self).has_table(e & ADDRESS_MASK)
            },
            old(self).entries(k as int)[i as int] == 0 ==> old(frames).free_frames() > 0,
        ensures
            final(self).wf(),
            final(frames).source_wf(),
            final(self).tables_in_use(final(frames)),
            ret < final(self).tables@.len(),
            final(self).addresses@.len() >= old(self).addresses@.len(),
            final(self).addresses@.subrange(0, old(self).addresses@.len() as int) == old(self).addresses@,
            final(self).only_filled(old(self)),
            old(self).entries(k as int)[i as int] != 0 ==> {
                &&& *final(self) == *old(self)
                &&& *final(frames) == *old(frames)
                &&& ret == old(self).table_index(old(self).entries(k as int)[i as int] & ADDRESS_MASK)
            },
            old(self).entries(k as int)[i as int] == 0 ==> {
                let a = final(self).addresses@[ret as int];
                &&& ret == old(self).tables@.len()
                &&& final(self).tables@.len() == old(self).tables@.len() + 1
                &&& final(self).entries(ret as int) == Seq::new(512, |j: int| 0u64)
                &&& forall|m: int| 0 <= m < old(self).tables@.len() && m != k ==> final(self).tables@[m] == old(self).tables@[m]
                &&& final(self).entries(k as int) == old(self).entries(k as int).update(i as int, a | (PRESENT | WRITABLE))
                &&& (a | (PRESENT | WRITABLE)) & ADDRESS_MASK == a
                &&& is_present(a | (PRESENT | WRITABLE))
                &&& !is_huge(a | (PRESENT | WRITABLE))
                &&& a | (PRESENT | WRITABLE) != 0
                &&& final(self).table_index(a) == ret
                &&& final(self).has_table(a)
                &&& !old(self).has_table(a)
                &&& forall|b: u64| old(self).has_table(b) ==> #[trigger] final(self).table_index(b) == old(self).table_index(b)
                    && final(self).has_table(b)
                &&& final(frames).free_frames() + 1 == old(frames).free_frames()
            },
    {
        if entry_is_unused(&self.tables, k, i) {
            let addr = frames.take_frame();
            proof {
                if self.has_table(addr) {
                    let m = self.table_index(addr);
                    assert(self.addresses@[m] == addr);
                    assert(old(frames).frame_in_use(self.addresses@[m]));
                }
            }
            let ghost after_alloc = *self;
            assert(after_alloc.tables@ == old(self).tables@);
            entry_set_addr(&mut self.tables, k, i, addr, PRESENT | WRITABLE);
            assert(self.addresses@ == after_alloc.addresses@);
            assert(page_table_entries(self.tables@[k as int]) == page_table_entries(after_alloc.tables@[k as int]).update(
                i as int, addr | (PRESENT | WRITABLE)));
            let ghost after_set = *self;
            self.add_table(addr);
            proof {
                assert(self.tables@[k as int] == after_set.tables@[k as int]);
                assert(self.entries(k as int) == old(self).entries(k as int).update(i as int, addr | (PRESENT | WRITABLE)));
                let a = addr;
                assert(a < 0x10_0000_0000_0000);
                assert((a | (PRESENT | WRITABLE)) & ADDRESS_MASK == a && (a | (PRESENT | WRITABLE)) & PRESENT != 0
                    && (a | (PRESENT | WRITABLE)) & HUGE_PAGE == 0 && a | (PRESENT | WRITABLE) != 0) by (bit_vector)
                    requires
                        a % 4096 == 0,
                        a < 0x10_0000_0000_0000,
                ;
                assert(self.addresses@[self.tables@.len() - 1] == addr);
                assert(self.addresses@.subrange(0, old(self).addresses@.len() as int) =~= old(self).addresses@);
                assert forall|m: int| 0 <= m < old(self).tables@.len() implies #[trigger] seq_only_filled(
                    self.entries(m), old(self).entries(m)) by {
                    if m != k {
                        assert(self.tables@[m] == old(self).tables@[m]);
                    }
                }
                assert forall|m: int| 0 <= m < self.addresses@.len() implies #[trigger] frames.frame_in_use(
                    self.addresses@[m]) by {
                    if m < old(self).addresses@.len() {
                        assert(self.addresses@[m] == old(self).addresses@[m]);
                        assert(old(frames).frame_in_use(old(self).addresses@[m]));
                    }
                }
            }
            self.tables.len() - 1
        } else {
            let ghost e = self.entries(k as int)[i as int];
            proof {
                lemma_flags_huge(e);
                lemma_filled_refl(*self);
            }
            self.as_page_table(k, i).unwrap()
        }
    }
}

impl Mapper {
    /// Maps the 4 KiB page of `virt` to `frame`, present and writable, creating the
    /// tables on the way that are missing. Fails when a 1 GiB or 2 MiB page, or an
    /// existing 4 KiB mapping, is in the way, and then changes nothing. It only fills
    /// zero entries and adds tables, so every existing mapping stays (see
    /// `lemma_map_keeps_mappings`).
    pub fn map<F: FrameSource>(&mut self, frame_allocator: &mut F, virt: u64, frame: u64) -> (ret: Result<(), &'static str>)
        requires
            old(self).wf(),
            old(frame_allocator).source_wf(),
            old(self).tables_in_use(old(frame_allocator)),
            old(self).walk_ok(virt),
            frame % 4096 == 0,
            frame < 0x10_0000_0000_0000,
            old(frame_allocator).free_frames() >= old(self).missing_tables(virt),
        ensures
            final(self).wf(),
            final(frame_allocator).source_wf(),
            final(self).tables_in_use(final(frame_allocator)),
            ret is Ok <==> old(self).map_succeeds(virt),
            ret matches Err(msg) ==> msg@ == (if is_huge(old(self).entry3(virt)) {
                "Trying to map to pdp entry containing a 1G page"@
            } else if is_huge(old(self).entry2(virt)) {
                "Trying to map to pdp entry containing a 2M page"@
            } else {
                "Trying to map to already existing page"@
            }),
            ret is Ok && old(self).path_distinct(virt) ==> {
                &&& final(self).walk_ok(virt)
                &&& final(self).mapped_4k(virt)
                &&& final(self).entry1(virt) == frame | (PRESENT | WRITABLE)
            },
            ret is Err ==> *final(self) == *old(self) && *final(frame_allocator) == *old(frame_allocator),
            final(self).only_filled(old(self)),
    {
        let (idx4, idx3, idx2, idx1) = virt2idx(virt);
        let flags = PRESENT | WRITABLE;
        let ghost s0 = *self;
        let ghost fa0 = *frame_allocator;

        let pdp = self.descend_or_create(frame_allocator, 0, idx4);
        let ghost s1 = *self;
        let ghost a4 = s1.entries(0)[idx4 as int] & ADDRESS_MASK;
        proof {
            if s0.entries(0)[idx4 as int] == 0 {
                assert(s1.entries(0)[idx4 as int] == s1.addresses@[pdp as int] | (PRESENT | WRITABLE));
            } else {
                assert(s0.entry4(virt) == s0.entries(0)[idx4 as int]);
            }
            assert(s1.has_table(a4) && s1.table_index(a4) == pdp);
        }
        let ghost fa1 = *frame_allocator;
        if !entry_is_unused(&self.tables, pdp, idx3) && entry_flags(&self.tables, pdp, idx3) & HUGE_PAGE != 0 {
            proof {
                lemma_flags_huge(self.entries(pdp as int)[idx3 as int]);
                if s0.entries(0)[idx4 as int] == 0 {
                    assert(s1.entries(pdp as int)[idx3 as int] == 0);
                }
                lemma_filled_refl(s0);
            }
            return Err("Trying to map to pdp entry containing a 1G page");
        }
        proof { lemma_flags_huge(self.entries(pdp as int)[idx3 as int]); }
        let pd = self.descend_or_create(frame_allocator, pdp, idx3);
        let ghost s2 = *self;
        let ghost a3 = s2.entries(pdp as int)[idx3 as int] & ADDRESS_MASK;
        proof {
            lemma_prefix_index(s1.addresses@, s2.addresses@, a4);
            if s1.entries(pdp as int)[idx3 as int] == 0 {
                assert(s2.entries(pdp as int)[idx3 as int] == s2.addresses@[pd as int] | (PRESENT | WRITABLE));
            }
            assert(s2.has_table(a3) && s2.table_index(a3) == pd);
        }
        let ghost fa2 = *frame_allocator;
        if !entry_is_unused(&self.tables, pd, idx2) && entry_flags(&self.tables, pd, idx2) & HUGE_PAGE != 0 {
            proof {
                lemma_flags_huge(self.entries(pd as int)[idx2 as int]);
                if s1.entries(pdp as int)[idx3 as int] == 0 {
                    assert(s2.entries(pd as int)[idx2 as int] == 0);
                }
                if s0.entries(0)[idx4 as int] == 0 {
                    assert(s1.entries(pdp as int)[idx3 as int] == 0);
                }
                lemma_filled_refl(s0);
            }
            return Err("Trying to map to pdp entry containing a 2M page");
        }
        proof { lemma_flags_huge(self.entries(pd as int)[idx2 as int]); }
        let pt = self.descend_or_create(frame_allocator, pd, idx2);
        let ghost s3 = *self;
        let ghost a2 = s3.entries(pd as int)[idx2 as int] & ADDRESS_MASK;
        proof {
            lemma_prefix_index(s2.addresses@, s3.addresses@, a4);
            lemma_prefix_index(s2.addresses@, s3.addresses@, a3);
            if s2.entries(pd as int)[idx2 as int] == 0 {
                assert(s3.entries(pd as int)[idx2 as int] == s3.addresses@[pt as int] | (PRESENT | WRITABLE));
            }
            assert(s3.has_table(a2) && s3.table_index(a2) == pt);
        }
        if entry_is_unused(&self.tables, pt, idx1) {
            assert(flags & HUGE_PAGE == 0) by (bit_vector)
                requires
                    flags == PRESENT | WRITABLE,
            ;
            entry_set_frame(&mut self.tables, pt, idx1, frame, flags);
            proof {
                assert(frame | (PRESENT | WRITABLE) != 0 && (frame | (PRESENT | WRITABLE)) & PRESENT != 0
                    && (frame | (PRESENT | WRITABLE)) & HUGE_PAGE == 0) by (bit_vector)
                    requires
                        frame % 4096 == 0,
                ;
                if s0.path_distinct(virt) {
                    assert(pdp != 0);
                    assert(pd != 0 && pd != pdp);
                    assert(pt != 0 && pt != pd && pt != pdp);
                    assert(self.addresses@ == s3.addresses@);
                    // Entry 4 was last written by the first step, entry 3 by the second,
                    // entry 2 by the third; later steps wrote other tables.
                    assert(s2.entries(0) == s1.entries(0));
                    assert(s3.entries(0) == s2.entries(0));
                    assert(s3.entries(pdp as int) == s2.entries(pdp as int));
                    assert(self.entries(0) == s3.entries(0));
                    assert(self.entries(pdp as int) == s3.entries(pdp as int));
                    assert(self.entries(pd as int) == s3.entries(pd as int));
                    assert(self.entry4(virt) == s1.entries(0)[idx4 as int]);
                    assert(self.table_index(a4) == pdp);
                    assert(self.entry3(virt) == s2.entries(pdp as int)[idx3 as int]);
                    assert(self.table_index(a3) == pd);
                    assert(self.entry2(virt) == s3.entries(pd as int)[idx2 as int]);
                    assert(self.table_index(a2) == pt);
                    assert(self.entry1(virt) == self.entries(pt as int)[idx1 as int]);
                    assert(s0 == *old(self));
                    if s0.entries(0)[idx4 as int] != 0 {
                        assert(s1 == s0);
                        assert(s0.entry4(virt) == s0.entries(0)[idx4 as int]);
                        assert(s0.entry3(virt) == s1.entries(pdp as int)[idx3 as int]);
                        if s1.entries(pdp as int)[idx3 as int] != 0 {
                            assert(s2 == s1);
                            assert(s0.entry2(virt) == s2.entries(pd as int)[idx2 as int]);
                        }
                    }
                    assert(self.entry4(virt) != 0 && is_present(self.entry4(virt)) && !is_huge(self.entry4(virt)));
                    if s1.entries(pdp as int)[idx3 as int] != 0 {
                        assert(s2 == s1);
                    }
                    assert(self.entry3(virt) != 0 && is_present(self.entry3(virt)) && !is_huge(self.entry3(virt)));
                    if s2.entries(pd as int)[idx2 as int] != 0 {
                        assert(s3 == s2);
                    }
                    assert(self.entry2(virt) != 0 && is_present(self.entry2(virt)) && !is_huge(self.entry2(virt)));
                    assert(self.has_table(a4) && self.has_table(a3) && self.has_table(a2));
                }
            }
            proof {
                assert(self.addresses@ == s3.addresses@);
                assert(self.only_filled(&s3)) by {
                    assert(self.addresses@.subrange(0, s3.addresses@.len() as int) =~= s3.addresses@);
                    assert forall|m: int| 0 <= m < s3.tables@.len() implies #[trigger] seq_only_filled(
                        self.entries(m), s3.entries(m)) by {
                        if m != pt as int {
                            assert(self.tables@[m] == s3.tables@[m]);
                        }
                    }
                }
                lemma_filled_trans(s2, s1, s0);
                lemma_filled_trans(s3, s2, s0);
                lemma_filled_trans(*self, s3, s0);
            }
        } else {
            proof {
                if s2.entries(pd as int)[idx2 as int] == 0 {
                    assert(s3.entries(pt as int)[idx1 as int] == 0);
                }
                if s1.entries(pdp as int)[idx3 as int] == 0 {
                    assert(s2.entries(pd as int)[idx2 as int] == 0);
                }
                if s0.entries(0)[idx4 as int] == 0 {
                    assert(s1.entries(pdp as int)[idx3 as int] == 0);
                }
                lemma_filled_refl(s0);
            }
            return Err("Trying to map to already existing page");
        }
        Ok(())
    }
}

/// After `map` has mapped `virt` to `frame`, `is_mapped(virt)` holds and `get_physical(virt)`
/// gives back `frame`: the state that `map` promises is one in which `get_physical` may be
/// called for `virt` and answers `frame`.
pub proof fn lemma_map_then_get_physical(m: Mapper, virt: u64, frame: u64)
    requires
        m.wf(),
        m.walk_ok(virt),
        m.mapped_4k(virt),
        m.entry1(virt) == frame | (PRESENT | WRITABLE),
        frame % 4096 == 0,
        frame < 0x10_0000_0000_0000,
    ensures
        m.mapped(virt),
        m.mapped(virt) ==> m.mapped_4k(virt),
        m.entry1(virt) & ADDRESS_MASK == frame,
{
    assert((frame | (PRESENT | WRITABLE)) & ADDRESS_MASK == frame && frame | (PRESENT | WRITABLE) != 0) by (bit_vector)
        requires
            frame % 4096 == 0,
            frame < 0x10_0000_0000_0000,
    ;
}

// ---------------------------------------------------------------------------
// Unmapping

/// Where physical memory appears in the kernel's address space: the page table at
/// physical address `a` is read and written at `a | PHYSICAL_MEMORY_OFFSET`.
pub const PHYSICAL_MEMORY_OFFSET: u64 = 0xFFFF_FF80_0000_0000;

/// The virtual address at which the kernel reaches the table at physical address `addr`.
pub open spec fn table_virt(addr: u64) -> u64 {
    addr | PHYSICAL_MEMORY_OFFSET
}

/// The number of non-zero entries of a table.
pub open spec fn count_nonzero(e: Seq<u64>) -> nat
    decreases e.len(),
{
    if e.len() == 0 {
        0
    } else {
        count_nonzero(e.drop_last()) + (if e.last() != 0 { 1nat } else { 0nat })
    }
}

/// The number of non-zero entries of all the tables.
pub open spec fn tables_nonzero(tables: Seq<PageTable>) -> nat
    decreases tables.len(),
{
    if tables.len() == 0 {
        0
    } else {
        tables_nonzero(tables.drop_last()) + count_nonzero(page_table_entries(tables.last()))
    }
}

/// Entries only went to zero from `b` to `a`.
pub open spec fn seq_only_cleared(a: Seq<u64>, b: Seq<u64>) -> bool {
    &&& a.len() == b.len()
    &&& forall|i: int| 0 <= i < a.len() ==> #[trigger] a[i] == b[i] || a[i] == 0
}

proof fn lemma_count_cleared(a: Seq<u64>, b: Seq<u64>)
    requires
        seq_only_cleared(a, b),
    ensures
        count_nonzero(a) <= count_nonzero(b),
        (exists|i: int| 0 <= i < a.len() && a[i] == 0 && b[i] != 0) ==> count_nonzero(a) < count_nonzero(b),
    decreases a.len(),
{
    if a.len() > 0 {
        let n = a.len() - 1;
        assert(seq_only_cleared(a.drop_last(), b.drop_last())) by {
            assert forall|i: int| 0 <= i < a.drop_last().len() implies #[trigger] a.drop_last()[i] == b.drop_last()[i]
                || a.drop_last()[i] == 0 by {
                assert(a[i] == b[i] || a[i] == 0);
            }
        }
        lemma_count_cleared(a.drop_last(), b.drop_last());
        assert(a[n] == b[n] || a[n] == 0);
        if exists|i: int| 0 <= i < a.len() && a[i] == 0 && b[i] != 0 {
            let i = choose|i: int| 0 <= i < a.len() && a[i] == 0 && b[i] != 0;
            if i < n {
                assert(a.drop_last()[i] == 0 && b.drop_last()[i] != 0);
            }
        }
    }
}

/// Every table of `a` has, entry by entry, the entry of `b` or zero.
pub open spec fn tables_only_cleared(a: Seq<PageTable>, b: Seq<PageTable>) -> bool {
    &&& a.len() == b.len()
    &&& forall|k: int| 0 <= k < a.len() ==> #[trigger] seq_only_cleared(page_table_entries(a[k]), page_table_entries(b[k]))
}

proof fn lemma_tables_cleared(a: Seq<PageTable>, b: Seq<PageTable>, k0: int, i0: int)
    requires
        tables_only_cleared(a, b),
    ensures
        tables_nonzero(a) <= tables_nonzero(b),
        0 <= k0 < a.len() && 0 <= i0 < page_table_entries(a[k0]).len() && page_table_entries(a[k0])[i0] == 0
            && page_table_entries(b[k0])[i0] != 0 ==> tables_nonzero(a) < tables_nonzero(b),
    decreases a.len(),
{
    if a.len() > 0 {
        let n = a.len() - 1;
        assert(tables_only_cleared(a.drop_last(), b.drop_last())) by {
            assert forall|k: int| 0 <= k < a.drop_last().len() implies #[trigger] seq_only_cleared(
                page_table_entries(a.drop_last()[k]), page_table_entries(b.drop_last()[k])) by {
                assert(seq_only_cleared(page_table_entries(a[k]), page_table_entries(b[k])));
            }
        }
        lemma_tables_cleared(a.drop_last(), b.drop_last(), k0, i0);
        assert(seq_only_cleared(page_table_entries(a[n]), page_table_entries(b[n])));
        lemma_count_cleared(page_table_entries(a[n]), page_table_entries(b[n]));
        if 0 <= k0 < a.len() && 0 <= i0 < page_table_entries(a[k0]).len() && page_table_entries(a[k0])[i0] == 0
            && page_table_entries(b[k0])[i0] != 0 && k0 < n {
            assert(a.drop_last()[k0] == a[k0] && b.drop_last()[k0] == b[k0]);
        }
    }
}

impl Mapper {
    /// The walk to `v` ends at a non-zero 4 KiB entry with no huge page on the way:
    /// the case in which `unmap` clears an entry.
    pub open spec fn reaches_4k(&self, v: u64) -> bool {
        &&& self.entry4(v) != 0
        &&& self.entry3(v) != 0
        &&& !is_huge(self.entry3(v))
        &&& self.entry2(v) != 0
        &&& !is_huge(self.entry2(v))
        &&& self.entry1(v) != 0
    }

    /// The frame number that `unmap` frees for `v`: the page number that `v`'s
    /// page-table indices make.
    pub open spec fn freed_frame_number(v: u64) -> u64 {
        address_of_indices(virt_indices(v).0, virt_indices(v).1, virt_indices(v).2, virt_indices(v).3) >> 12u64
    }

    /// The allocator can take back the frame that `unmap` frees for `v`
    /// (see `FrameAllocator::deallocate_frame`).
    pub open spec fn deallocation_ok(frames: &FrameAllocator, v: u64) -> bool {
        &&& Self::freed_frame_number(v) % 8 < frames.allocated_frames@.len()
        &&& Self::freed_frame_number(v) / 8 < 8
    }

    /// `unmap` can run on `w` without a failed unwrap or a failed deallocation.
    pub open spec fn unmap_address_ok(&self, frames: &FrameAllocator, w: u64) -> bool {
        &&& self.walk_ok(w)
        &&& self.reaches_4k(w) ==> Self::deallocation_ok(frames, w)
    }

    /// `unmap` can run on `v`, and on the virtual address of every table, which it
    /// unmaps in turn when a table becomes empty.
    pub open spec fn unmap_safe(&self, frames: &FrameAllocator, v: u64) -> bool {
        &&& self.unmap_address_ok(frames, v)
        &&& forall|k: int| 0 <= k < self.addresses@.len() ==> #[trigger] self.unmap_address_ok(
            frames, table_virt(self.addresses@[k]))
    }

    /// The error that `unmap` reports when the walk to `v` does not end at a 4 KiB entry.
    pub open spec fn unmap_error(&self, v: u64) -> Seq<char> {
        if self.entry4(v) == 0 {
            "Tried unmapping unmapped page (level 4)"@
        } else if self.entry3(v) == 0 {
            "Tried unmapping unmapped page (level 3)"@
        } else if is_huge(self.entry3(v)) {
            "Tried unmapping huge page (1G)"@
        } else if self.entry2(v) == 0 {
            "Tried unmapping unmapped page (level 2)"@
        } else if is_huge(self.entry2(v)) {
            "Tried unmapping huge page (2M)"@
        } else {
            "Tried unmapping unmapped page (level 1)"@
        }
    }

    /// `self` has the tables of `before`, with some entries set to zero.
    pub open spec fn only_cleared(&self, before: &Mapper) -> bool {
        &&& self.addresses@ == before.addresses@
        &&& tables_only_cleared(self.tables@, before.tables@)
    }

    /// The number of non-zero entries of all the tables.
    pub open spec fn nonzero_entries(&self) -> nat {
        tables_nonzero(self.tables@)
    }

    /// All 512 entries of table `k` are zero.
    pub open spec fn table_empty(&self, k: int) -> bool {
        forall|i: int| 0 <= i < 512 ==> #[trigger] self.entries(k)[i] == 0
    }

    /// The virtual address at which the kernel reaches table `k`.
    pub open spec fn window_of(&self, k: int) -> u64 {
        table_virt(self.addresses@[k])
    }
}

impl Mapper {
    /// Where `v`'s 4 KiB entry lives: its table and its index there.
    pub open spec fn leaf_loc(&self, v: u64) -> (int, int) {
        (self.table_index(self.entry2(v) & ADDRESS_MASK), virt_indices(v).3 as int)
    }

    /// Entry `i` of table `k` is one that the walk to `v` reads, down to the entry that
    /// maps `v`'s page.
    pub open spec fn on_walk(&self, v: u64, k: int, i: int) -> bool {
        ||| k == 0 && i == virt_indices(v).0 as int
        ||| self.entry4(v) != 0 && k == self.table_index(self.entry4(v) & ADDRESS_MASK) && i == virt_indices(v).1 as int
        ||| self.entry4(v) != 0 && self.entry3(v) != 0 && !is_huge(self.entry3(v)) && k == self.table_index(
            self.entry3(v) & ADDRESS_MASK) && i == virt_indices(v).2 as int
        ||| self.entry4(v) != 0 && self.entry3(v) != 0 && !is_huge(self.entry3(v)) && self.entry2(v) != 0 && !is_huge(
            self.entry2(v)) && (k, i) == self.leaf_loc(v)
    }
}

/// The entries that `unmap` of `v` may clear, read in the tables as they were before:
/// `v`'s own 4 KiB entry; an entry that points to a table that ends up empty; the
/// 4 KiB entry that maps the virtual address of a table that ends up empty.
pub open spec fn unmap_cleared(before: Mapper, after: Mapper, v: u64, k: int, i: int) -> bool {
    ||| before.reaches_4k(v) && (k, i) == before.leaf_loc(v)
    ||| before.has_table(before.entries(k)[i] & ADDRESS_MASK) && after.table_empty(
        before.table_index(before.entries(k)[i] & ADDRESS_MASK))
    ||| exists|t: int| 0 <= t < after.tables@.len() && #[trigger] after.table_empty(t) && before.reaches_4k(
        before.window_of(t)) && (k, i) == before.leaf_loc(before.window_of(t))
}

/// Every entry that differs between `before` and `after` is one that `unmap` of `v`
/// may clear (see `unmap_cleared`).
pub open spec fn unmap_changes_explained(after: Mapper, before: Mapper, v: u64) -> bool {
    forall|k: int, i: int| 0 <= k < before.tables@.len() && 0 <= i < 512 && #[trigger] after.entries(k)[i]
        != before.entries(k)[i] ==> unmap_cleared(before, after, v, k, i)
}

/// Every table but the level-4 one that had an entry in `before` and has none in
/// `after` is no longer mapped at its virtual address in `after`.
pub open spec fn emptied_windows_unmapped(after: Mapper, before: Mapper) -> bool {
    forall|k: int| 0 < k < after.addresses@.len() && !before.table_empty(k) && #[trigger] after.table_empty(k)
        ==> !after.mapped(after.window_of(k))
}

/// Like `emptied_windows_unmapped`, except for the tables in `pending`, whose
/// virtual addresses are still to be unmapped.
pub open spec fn windows_done(s: Mapper, s0: Mapper, pending: Set<int>) -> bool {
    forall|k: int| 0 < k < s.addresses@.len() && !s0.table_empty(k) && #[trigger] s.table_empty(k)
        ==> !s.mapped(s.window_of(k)) || pending.contains(k)
}

proof fn lemma_empty_flag(m: Mapper, k: int, e: bool)
    requires
        e == forall|i: int| 0 <= i < 512 ==> #[trigger] page_table_entries(m.tables@[k])[i] == 0,
    ensures
        e == m.table_empty(k),
{
    if e {
        assert forall|i: int| 0 <= i < 512 implies #[trigger] m.entries(k)[i] == 0 by {
            assert(page_table_entries(m.tables@[k])[i] == 0);
        }
    } else {
        let i: int = choose|i: int| !(0 <= i < 512 ==> #[trigger] page_table_entries(m.tables@[k])[i] == 0);
        assert(m.entries(k)[i] != 0);
    }
}

proof fn lemma_empty_stays(a: Mapper, b: Mapper, k: int)
    requires
        b.wf(),
        a.only_cleared(&b),
        0 <= k < b.tables@.len(),
        b.table_empty(k),
    ensures
        a.table_empty(k),
{
    assert(seq_only_cleared(page_table_entries(a.tables@[k]), page_table_entries(b.tables@[k])));
    assert forall|i: int| 0 <= i < 512 implies #[trigger] a.entries(k)[i] == 0 by {
        assert(b.entries(k)[i] == 0);
    }
}

/// The tables that the first part of `unmap` empties (other than the level-4 one) are
/// among the ones it found empty: `pt` at the first check, `pd` at the second and `pdp`
/// at the third. Each step changed at most one table.
proof fn lemma_local_emptied(s0: Mapper, s1: Mapper, c1: Mapper, c2: Mapper, s2: Mapper, pt: int, pd: int, pdp: int,
    e0: bool, e1: bool, e2: bool, k: int)
    requires
        s0.tables@.len() == s1.tables@.len(),
        s1.tables@.len() == c1.tables@.len(),
        c1.tables@.len() == c2.tables@.len(),
        c2.tables@.len() == s2.tables@.len(),
        forall|m: int| 0 <= m < s0.tables@.len() && m != pt ==> s1.tables@[m] == s0.tables@[m],
        forall|m: int| 0 <= m < s0.tables@.len() && (m != pd || !e0) ==> c1.tables@[m] == s1.tables@[m],
        forall|m: int| 0 <= m < s0.tables@.len() && (m != pdp || !e1) ==> c2.tables@[m] == c1.tables@[m],
        forall|m: int| 0 <= m < s0.tables@.len() && (m != 0 || !e2) ==> s2.tables@[m] == c2.tables@[m],
        e0 == s1.table_empty(pt),
        e1 == c1.table_empty(pd),
        e2 == c2.table_empty(pdp),
        0 < k < s0.tables@.len(),
        !s0.table_empty(k),
        s2.table_empty(k),
    ensures
        (e0 && k == pt) || (e1 && k == pd) || (e2 && k == pdp),
{
    assert(s2.tables@[k] == c2.tables@[k]);
    assert(s2.entries(k) == c2.entries(k));
    if k == pdp {
        assert(c2.table_empty(k));
    } else {
        assert(c2.tables@[k] == c1.tables@[k]);
        if k == pd {
            assert(c1.entries(k) == s2.entries(k));
            assert(c1.table_empty(k));
        } else {
            assert(c1.tables@[k] == s1.tables@[k]);
            if k == pt {
                assert(s1.entries(k) == s2.entries(k));
                assert(s1.table_empty(k));
            } else {
                assert(s1.tables@[k] == s0.tables@[k]);
                assert(s0.entries(k) == s2.entries(k));
                assert(s0.table_empty(k));
            }
        }
    }
}

/// After the first part of `unmap`, every table it emptied is pending: its virtual
/// address is still to be unmapped.
proof fn lemma_pending_start(s0: Mapper, s1: Mapper, c1: Mapper, c2: Mapper, s2: Mapper, pt: int, pd: int, pdp: int,
    e0: bool, e1: bool, e2: bool) -> (pending: Set<int>)
    requires
        s2.wf(),
        s0.addresses@ == s2.addresses@,
        s0.tables@.len() == s1.tables@.len(),
        s1.tables@.len() == c1.tables@.len(),
        c1.tables@.len() == c2.tables@.len(),
        c2.tables@.len() == s2.tables@.len(),
        forall|m: int| 0 <= m < s0.tables@.len() && m != pt ==> s1.tables@[m] == s0.tables@[m],
        forall|m: int| 0 <= m < s0.tables@.len() && (m != pd || !e0) ==> c1.tables@[m] == s1.tables@[m],
        forall|m: int| 0 <= m < s0.tables@.len() && (m != pdp || !e1) ==> c2.tables@[m] == c1.tables@[m],
        forall|m: int| 0 <= m < s0.tables@.len() && (m != 0 || !e2) ==> s2.tables@[m] == c2.tables@[m],
        e0 == s1.table_empty(pt),
        e1 == c1.table_empty(pd),
        e2 == c2.table_empty(pdp),
    ensures
        windows_done(s2, s0, pending),
        forall|k: int| #[trigger] pending.contains(k) ==> (e0 && k == pt) || (e1 && k == pd) || (e2 && k == pdp),
{
    let mut p: Set<int> = Set::empty();
    if e0 {
        p = p.insert(pt);
    }
    if e1 {
        p = p.insert(pd);
    }
    if e2 {
        p = p.insert(pdp);
    }
    assert forall|k: int| 0 < k < s2.addresses@.len() && !s0.table_empty(k) && #[trigger] s2.table_empty(k)
        implies !s2.mapped(s2.window_of(k)) || p.contains(k) by {
        lemma_local_emptied(s0, s1, c1, c2, s2, pt, pd, pdp, e0, e1, e2, k);
    }
    p
}

/// One table's virtual address was unmapped by a call of `unmap` that succeeded: the
/// table is no longer pending, and what the call emptied is unmapped too.
proof fn lemma_window_step(sb: Mapper, sc: Mapper, s0: Mapper, fb: FrameAllocator, virt: u64, pending: Set<int>, t: int)
    requires
        sb.wf(),
        sc.wf(),
        sb.only_cleared(&s0),
        sc.only_cleared(&sb),
        sb.unmap_safe(&fb, virt),
        windows_done(sb, s0, pending),
        0 <= t < sb.addresses@.len(),
        sb.reaches_4k(sb.window_of(t)) ==> !sc.mapped(sb.window_of(t)),
        sb.reaches_4k(sb.window_of(t)),
        emptied_windows_unmapped(sc, sb),
    ensures
        windows_done(sc, s0, pending.remove(t)),
{
    assert forall|k: int| 0 < k < sc.addresses@.len() && !s0.table_empty(k) && #[trigger] sc.table_empty(k)
        implies !sc.mapped(sc.window_of(k)) || pending.remove(t).contains(k) by {
        assert(sc.window_of(k) == sb.window_of(k));
        if sb.table_empty(k) {
            assert(sb.window_of(k) == table_virt(sb.addresses@[k]));
            assert(sb.unmap_address_ok(&fb, table_virt(sb.addresses@[k])));
            lemma_cleared_walk(sc, sb, sb.window_of(k));
            if k == t {
            } else if !sb.mapped(sb.window_of(k)) {
            } else {
                assert(pending.contains(k));
            }
        } else {
            assert(!sb.table_empty(k));
        }
    }
}



/// Setting entries to zero keeps walks well formed and never adds a mapping.
proof fn lemma_cleared_walk(after: Mapper, before: Mapper, w: u64)
    requires
        before.wf(),
        after.wf(),
        after.only_cleared(&before),
    ensures
        before.walk_ok(w) ==> after.walk_ok(w),
        before.walk_ok(w) && after.reaches_4k(w) ==> before.reaches_4k(w),
        before.walk_ok(w) && after.mapped(w) ==> before.mapped(w),
        before.walk_ok(w) && after.reaches_4k(w) ==> after.entry4(w) == before.entry4(w) && after.entry3(w)
            == before.entry3(w) && after.entry2(w) == before.entry2(w) && after.entry1(w) == before.entry1(w),
{
    lemma_indices_bound(w);
    let (i4, i3, i2, i1) = virt_indices(w);
    assert(seq_only_cleared(after.entries(0), before.entries(0)));
    if after.entry4(w) != 0 {
        assert(after.entry4(w) == before.entry4(w));
        let t3 = after.table_index(after.entry4(w) & ADDRESS_MASK);
        if 0 <= t3 < after.tables@.len() {
            assert(seq_only_cleared(after.entries(t3), before.entries(t3)));
        }
        if after.entry3(w) != 0 && 0 <= t3 < after.tables@.len() {
            assert(after.entry3(w) == before.entry3(w));
            let t2 = after.table_index(after.entry3(w) & ADDRESS_MASK);
            if 0 <= t2 < after.tables@.len() {
                assert(seq_only_cleared(after.entries(t2), before.entries(t2)));
            }
            if after.entry2(w) != 0 && 0 <= t2 < after.tables@.len() {
                assert(after.entry2(w) == before.entry2(w));
                let t1 = after.table_index(after.entry2(w) & ADDRESS_MASK);
                if 0 <= t1 < after.tables@.len() {
                    assert(seq_only_cleared(after.entries(t1), before.entries(t1)));
                }
                if after.entry1(w) != 0 && 0 <= t1 < after.tables@.len() {
                    assert(after.entry1(w) == before.entry1(w));
                }
            }
        }
    }
}

/// Bytes only lose bits from `b` to `a`.
pub open spec fn bits_only_cleared(a: Seq<u8>, b: Seq<u8>) -> bool {
    &&& a.len() == b.len()
    &&& forall|i: int| 0 <= i < a.len() ==> #[trigger] a[i] & b[i] == a[i]
}

proof fn lemma_bits_cleared_trans(a: Seq<u8>, b: Seq<u8>, c: Seq<u8>)
    requires
        bits_only_cleared(a, b),
        bits_only_cleared(b, c),
    ensures
        bits_only_cleared(a, c),
{
    assert forall|i: int| 0 <= i < a.len() implies #[trigger] a[i] & c[i] == a[i] by {
        let x = a[i];
        let y = b[i];
        let z = c[i];
        assert(x & y == x && y & z == y ==> x & z == x) by (bit_vector);
        assert(b[i] & c[i] == b[i]);
    }
}

proof fn lemma_bits_cleared_refl(a: Seq<u8>)
    ensures
        bits_only_cleared(a, a),
{
    assert forall|i: int| 0 <= i < a.len() implies #[trigger] a[i] & a[i] == a[i] by {
        let x = a[i];
        assert(x & x == x) by (bit_vector);
    }
}

proof fn lemma_deallocate_clears(bitmap: Seq<u8>, frame: u64)
    requires
        (frame >> 12u64) % 8 < bitmap.len(),
        (frame >> 12u64) / 8 < 8,
    ensures
        bits_only_cleared(bitmap_after_deallocate(bitmap, frame), bitmap),
        !bit_set(bitmap_after_deallocate(bitmap, frame)[((frame >> 12u64) % 8) as int], ((frame >> 12u64) / 8) as int),
{
    let n = frame >> 12u64;
    let j = (n / 8) as u8;
    let b = bitmap[(n % 8) as int];
    lemma_clear_bit(b, j);
    let a = bitmap_after_deallocate(bitmap, frame);
    assert forall|i: int| 0 <= i < a.len() implies #[trigger] a[i] & bitmap[i] == a[i] by {
        let x = bitmap[i];
        assert((x & !(1u8 << j)) & x == x & !(1u8 << j)) by (bit_vector);
        assert(x & x == x) by (bit_vector);
    }
}

proof fn lemma_bit_stays_clear(a: Seq<u8>, b: Seq<u8>, i: int, j: int)
    requires
        bits_only_cleared(a, b),
        0 <= i < a.len(),
        0 <= j < 8,
        !bit_set(b[i], j),
    ensures
        !bit_set(a[i], j),
{
    let x = a[i];
    let y = b[i];
    let jj = j as u8;
    assert(x & y == x && (y >> jj) & 1 != 1 ==> (x >> jj) & 1 != 1) by (bit_vector);
}

proof fn lemma_cleared_trans(a: Mapper, b: Mapper, c: Mapper)
    requires
        a.only_cleared(&b),
        b.only_cleared(&c),
    ensures
        a.only_cleared(&c),
{
    assert forall|k: int| 0 <= k < a.tables@.len() implies #[trigger] seq_only_cleared(
        page_table_entries(a.tables@[k]), page_table_entries(c.tables@[k])) by {
        assert(seq_only_cleared(page_table_entries(a.tables@[k]), page_table_entries(b.tables@[k])));
        assert(seq_only_cleared(page_table_entries(b.tables@[k]), page_table_entries(c.tables@[k])));
        let ea = page_table_entries(a.tables@[k]);
        let eb = page_table_entries(b.tables@[k]);
        let ec = page_table_entries(c.tables@[k]);
        assert forall|i: int| 0 <= i < ea.len() implies #[trigger] ea[i] == ec[i] || ea[i] == 0 by {
            assert(ea[i] == eb[i] || ea[i] == 0);
            assert(eb[i] == ec[i] || eb[i] == 0);
        }
    }
}

/// What the recursive `unmap` of table `a`'s virtual address cleared is among what the
/// outer `unmap` of `virt` may clear, since table `a` is empty.
proof fn lemma_cleared_step(s0: Mapper, sb: Mapper, sc: Mapper, virt: u64, a: int)
    requires
        s0.wf(),
        sb.wf(),
        sc.wf(),
        sb.only_cleared(&s0),
        sc.only_cleared(&sb),
        0 <= a < sb.tables@.len(),
        sb.table_empty(a),
        forall|t: int| 0 <= t < s0.tables@.len() ==> #[trigger] s0.walk_ok(s0.window_of(t)),
        unmap_changes_explained(sb, s0, virt),
        unmap_changes_explained(sc, sb, sb.window_of(a)),
    ensures
        unmap_changes_explained(sc, s0, virt),
{
    assert forall|k: int, i: int| 0 <= k < s0.tables@.len() && 0 <= i < 512 && #[trigger] sc.entries(k)[i]
        != s0.entries(k)[i] implies unmap_cleared(s0, sc, virt, k, i) by {
        assert(seq_only_cleared(page_table_entries(sc.tables@[k]), page_table_entries(sb.tables@[k])));
        assert(seq_only_cleared(page_table_entries(sb.tables@[k]), page_table_entries(s0.tables@[k])));
        if sb.entries(k)[i] != s0.entries(k)[i] {
            assert(unmap_cleared(s0, sb, virt, k, i));
            if s0.has_table(s0.entries(k)[i] & ADDRESS_MASK) && sb.table_empty(
                s0.table_index(s0.entries(k)[i] & ADDRESS_MASK)) {
                lemma_empty_stays(sc, sb, s0.table_index(s0.entries(k)[i] & ADDRESS_MASK));
            } else if !(s0.reaches_4k(virt) && (k, i) == s0.leaf_loc(virt)) {
                let t: int = choose|t: int| 0 <= t < sb.tables@.len() && #[trigger] sb.table_empty(t) && s0.reaches_4k(
                    s0.window_of(t)) && (k, i) == s0.leaf_loc(s0.window_of(t));
                lemma_empty_stays(sc, sb, t);
                assert(sc.table_empty(t));
            }
        } else {
            assert(sb.entries(k)[i] != 0);
            assert(unmap_cleared(sb, sc, sb.window_of(a), k, i));
            let wa: u64 = sb.window_of(a);
            assert(wa == s0.window_of(a));
            if sb.reaches_4k(wa) && (k, i) == sb.leaf_loc(wa) {
                lemma_cleared_walk(sb, s0, wa);
                lemma_empty_stays(sc, sb, a);
                assert(sc.table_empty(a));
                assert(s0.reaches_4k(s0.window_of(a)));
                assert((k, i) == s0.leaf_loc(s0.window_of(a)));
            } else if sb.has_table(sb.entries(k)[i] & ADDRESS_MASK) && sc.table_empty(
                sb.table_index(sb.entries(k)[i] & ADDRESS_MASK)) {
            } else {
                let t: int = choose|t: int| 0 <= t < sc.tables@.len() && #[trigger] sc.table_empty(t) && sb.reaches_4k(
                    sb.window_of(t)) && (k, i) == sb.leaf_loc(sb.window_of(t));
                assert(sb.window_of(t) == s0.window_of(t));
                lemma_cleared_walk(sb, s0, s0.window_of(t));
                assert(s0.reaches_4k(s0.window_of(t)));
                assert((k, i) == s0.leaf_loc(s0.window_of(t)));
            }
        }
    }
}

/// The first part of `unmap` changes only `virt`'s 4 KiB entry and the entries that
/// point to the tables it found empty.
proof fn lemma_local_explained(s0: Mapper, s1: Mapper, c1: Mapper, c2: Mapper, s2: Mapper, virt: u64, pt: int,
    pd: int, pdp: int, e0: bool, e1: bool, e2: bool)
    requires
        s0.wf(),
        s2.wf(),
        s0.tables@.len() == s1.tables@.len(),
        s1.tables@.len() == c1.tables@.len(),
        c1.tables@.len() == c2.tables@.len(),
        c2.tables@.len() == s2.tables@.len(),
        s0.reaches_4k(virt),
        0 <= pt < s0.tables@.len(),
        0 <= pd < s0.tables@.len(),
        0 <= pdp < s0.tables@.len(),
        s0.table_index(s0.entry4(virt) & ADDRESS_MASK) == pdp,
        s0.table_index(s0.entry3(virt) & ADDRESS_MASK) == pd,
        s0.table_index(s0.entry2(virt) & ADDRESS_MASK) == pt,
        s0.walk_ok(virt),
        forall|m: int| 0 <= m < s0.tables@.len() && m != pt ==> s1.tables@[m] == s0.tables@[m],
        s1.entries(pt) == s0.entries(pt).update(virt_indices(virt).3 as int, 0u64),
        forall|m: int| 0 <= m < s0.tables@.len() && (m != pd || !e0) ==> c1.tables@[m] == s1.tables@[m],
        e0 ==> c1.entries(pd) == s1.entries(pd).update(virt_indices(virt).2 as int, 0u64),
        forall|m: int| 0 <= m < s0.tables@.len() && (m != pdp || !e1) ==> c2.tables@[m] == c1.tables@[m],
        e1 ==> c2.entries(pdp) == c1.entries(pdp).update(virt_indices(virt).1 as int, 0u64),
        forall|m: int| 0 <= m < s0.tables@.len() && (m != 0 || !e2) ==> s2.tables@[m] == c2.tables@[m],
        e2 ==> s2.entries(0) == c2.entries(0).update(virt_indices(virt).0 as int, 0u64),
        e0 ==> s2.table_empty(pt),
        e1 ==> s2.table_empty(pd),
        e2 ==> s2.table_empty(pdp),
    ensures
        unmap_changes_explained(s2, s0, virt),
{
    lemma_indices_bound(virt);
    let (i4, i3, i2, i1) = virt_indices(virt);
    assert forall|k: int, i: int| 0 <= k < s0.tables@.len() && 0 <= i < 512 && #[trigger] s2.entries(k)[i]
        != s0.entries(k)[i] implies unmap_cleared(s0, s2, virt, k, i) by {
        if k == pt && i == i1 as int {
            assert((k, i) == s0.leaf_loc(virt));
        } else if e0 && k == pd && i == i2 as int {
            assert(s0.entries(pd)[i] == s0.entry2(virt));
        } else if e1 && k == pdp && i == i3 as int {
            assert(s0.entries(pdp)[i] == s0.entry3(virt));
        } else if e2 && k == 0 && i == i4 as int {
            assert(s0.entries(0)[i] == s0.entry4(virt));
        } else {
            assert(s1.entries(k)[i] == s0.entries(k)[i]);
            assert(c1.entries(k)[i] == s1.entries(k)[i]);
            assert(c2.entries(k)[i] == c1.entries(k)[i]);
            assert(s2.entries(k)[i] == c2.entries(k)[i]);
        }
    }
}

/// An address whose walk reads none of the entries that `unmap` of `virt` may clear
/// (see `unmap_cleared`) keeps its mapping through `unmap`, by the same entry.
pub proof fn lemma_unmap_keeps_other_mappings(after: Mapper, before: Mapper, virt: u64, w: u64)
    requires
        before.wf(),
        after.wf(),
        after.only_cleared(&before),
        unmap_changes_explained(after, before, virt),
        before.walk_ok(w),
        before.mapped(w),
        forall|k: int, i: int| #[trigger] before.on_walk(w, k, i) ==> !unmap_cleared(before, after, virt, k, i),
    ensures
        after.mapped(w),
        after.leaf_entry(w) == before.leaf_entry(w),
{
    lemma_indices_bound(w);
    let (i4, i3, i2, i1) = virt_indices(w);
    assert(before.on_walk(w, 0, i4 as int));
    assert(after.entry4(w) == before.entry4(w));
    let t3: int = before.table_index(before.entry4(w) & ADDRESS_MASK);
    assert(before.has_table(before.entry4(w) & ADDRESS_MASK));
    assert(before.on_walk(w, t3, i3 as int));
    assert(after.entries(t3)[i3 as int] == before.entries(t3)[i3 as int]);
    assert(after.entry3(w) == before.entry3(w));
    if !is_huge(before.entry3(w)) {
        let t2: int = before.table_index(before.entry3(w) & ADDRESS_MASK);
        assert(before.has_table(before.entry3(w) & ADDRESS_MASK));
        assert(before.on_walk(w, t2, i2 as int));
        assert(after.entries(t2)[i2 as int] == before.entries(t2)[i2 as int]);
        assert(after.entry2(w) == before.entry2(w));
        if !is_huge(before.entry2(w)) {
            let t1: int = before.table_index(before.entry2(w) & ADDRESS_MASK);
            assert(before.has_table(before.entry2(w) & ADDRESS_MASK));
            assert(before.on_walk(w, t1, i1 as int));
            assert(after.entries(t1)[i1 as int] == before.entries(t1)[i1 as int]);
            assert(after.entry1(w) == before.entry1(w));
        }
    }
}

proof fn lemma_cleared_refl(a: Mapper)
    requires
        a.wf(),
    ensures
        a.only_cleared(&a),
{
    assert forall|k: int| 0 <= k < a.tables@.len() implies #[trigger] seq_only_cleared(
        page_table_entries(a.tables@[k]), page_table_entries(a.tables@[k])) by {
    }
}

/// Unmapping keeps `unmap` safe to run on the same addresses: walks stay well formed,
/// no walk newly reaches a 4 KiB entry, and the bitmap keeps its length.
proof fn lemma_cleared_keeps_unmap_safe(after: Mapper, before: Mapper, fa: FrameAllocator, fb: FrameAllocator, w: u64)
    requires
        before.wf(),
        after.wf(),
        after.only_cleared(&before),
        fa.allocated_frames@.len() == fb.allocated_frames@.len(),
        before.unmap_safe(&fb, w),
    ensures
        after.unmap_safe(&fa, w),
{
    lemma_cleared_walk(after, before, w);
    assert forall|k: int| 0 <= k < after.addresses@.len() implies #[trigger] after.unmap_address_ok(
        &fa, table_virt(after.addresses@[k])) by {
        assert(before.unmap_address_ok(&fb, table_virt(before.addresses@[k])));
        lemma_cleared_walk(after, before, table_virt(after.addresses@[k]));
    }
}

proof fn lemma_table_virt_canonical(addr: u64)
    ensures
        crate::paging::is_canonical(table_virt(addr)),
{
    assert((addr | 0xFFFF_FF80_0000_0000u64) >= 0xFFFF_8000_0000_0000u64) by (bit_vector);
}

proof fn lemma_indices_address(v: u64)
    ensures
        address_of_indices(virt_indices(v).0, virt_indices(v).1, virt_indices(v).2, virt_indices(v).3) < 0x10_0000_0000_0000,
        address_of_indices(virt_indices(v).0, virt_indices(v).1, virt_indices(v).2, virt_indices(v).3) % 4096 == 0,
{
    lemma_indices_bound(v);
    let a = ((v >> 39u64) & 0x1FF) as usize;
    let b = ((v >> 30u64) & 0x1FF) as usize;
    let c = ((v >> 21u64) & 0x1FF) as usize;
    let d = ((v >> 12u64) & 0x1FF) as usize;
    let x = a as u64;
    let y = b as u64;
    let z = c as u64;
    let w = d as u64;
    assert(x < 512 && y < 512 && z < 512 && w < 512 ==> ((w << 12u64) | (z << 21u64) | (y << 30u64) | (x << 39u64))
        < 0x10_0000_0000_0000u64 && ((w << 12u64) | (z << 21u64) | (y << 30u64) | (x << 39u64)) % 4096 == 0)
        by (bit_vector);
}

impl Mapper {
    /// Unmaps the 4 KiB page of `virt`: frees a frame (see `deallocate_frame`; the frame
    /// number is the page number of `virt`'s indices), clears the entry, and clears the
    /// entry of each table on the way that became empty, unmapping that table's own
    /// virtual address in turn. Fails when the walk to `virt` does not end at a 4 KiB
    /// entry, and passes on the first failure of unmapping a table: that table is empty
    /// and its virtual address does not end at a 4 KiB entry. On success every table that
    /// it emptied (but the level-4 one) is unmapped at its virtual address. It clears no
    /// entry but those that `unmap_cleared` names, so every other mapping stays (see
    /// `lemma_unmap_keeps_other_mappings`).
    #[verifier::rlimit(60)]
    pub fn unmap(&mut self, frame_allocator: &mut FrameAllocator, virt: u64) -> (ret: Result<(), &'static str>)
        requires
            old(self).wf(),
            old(self).unmap_safe(old(frame_allocator), virt),
        ensures
            final(self).wf(),
            final(self).only_cleared(old(self)),
            final(self).nonzero_entries() <= old(self).nonzero_entries(),
            bits_only_cleared(final(frame_allocator).allocated_frames@, old(frame_allocator).allocated_frames@),
            !old(self).reaches_4k(virt) ==> {
                &&& *final(self) == *old(self)
                &&& *final(frame_allocator) == *old(frame_allocator)
                &&& ret matches Err(msg) && msg@ == old(self).unmap_error(virt)
            },
            old(self).reaches_4k(virt) ==> {
                let n = Mapper::freed_frame_number(virt);
                &&& !final(self).mapped(virt)
                &&& final(self).nonzero_entries() < old(self).nonzero_entries()
                &&& !bit_set(final(frame_allocator).allocated_frames@[(n % 8) as int], (n / 8) as int)
            },
            ret is Ok ==> old(self).reaches_4k(virt),
            ret is Ok ==> emptied_windows_unmapped(*final(self), *old(self)),
            unmap_changes_explained(*final(self), *old(self), virt),
            old(self).reaches_4k(virt) && ret is Err ==> exists|k: int|
                0 <= k < final(self).addresses@.len() && #[trigger] final(self).table_empty(k)
                && !final(self).reaches_4k(final(self).window_of(k))
                && (ret matches Err(msg) && msg@ == final(self).unmap_error(final(self).window_of(k))),
        decreases old(self).nonzero_entries(),
    {
        let ghost s0 = *self;
        let ghost f0 = *frame_allocator;
        proof {
            lemma_indices_bound(virt);
            lemma_bits_cleared_refl(f0.allocated_frames@);
        }
        let (idx4, idx3, idx2, idx1) = virt2idx(virt);
        if entry_is_unused(&self.tables, 0, idx4) {
            return Err("Tried unmapping unmapped page (level 4)");
        }
        let pdp = self.as_page_table(0, idx4).unwrap();
        proof { lemma_flags_huge(self.entries(pdp as int)[idx3 as int]); }
        if entry_is_unused(&self.tables, pdp, idx3) {
            return Err("Tried unmapping unmapped page (level 3)");
        } else if entry_flags(&self.tables, pdp, idx3) & HUGE_PAGE != 0 {
            return Err("Tried unmapping huge page (1G)");
        }
        let pd = self.as_page_table(pdp, idx3).unwrap();
        proof { lemma_flags_huge(self.entries(pd as int)[idx2 as int]); }
        if entry_is_unused(&self.tables, pd, idx2) {
            return Err("Tried unmapping unmapped page (level 2)");
        } else if entry_flags(&self.tables, pd, idx2) & HUGE_PAGE != 0 {
            return Err("Tried unmapping huge page (2M)");
        }
        let pt = self.as_page_table(pd, idx2).unwrap();
        if entry_is_unused(&self.tables, pt, idx1) {
            return Err("Tried unmapping unmapped page (level 1)");
        }
        assert(s0.reaches_4k(virt));

        // Free the frame and clear the entry.
        proof { lemma_indices_address(virt); }
        let phys = idx2phys(idx4, idx3, idx2, idx1);
        let frame = crate::paging::frame_from_start_address(phys).unwrap();
        proof {
            lemma_deallocate_clears(frame_allocator.allocated_frames@, frame);
        }
        frame_allocator.deallocate_frame(frame);
        entry_set_unused(&mut self.tables, pt, idx1);
        let ghost s1 = *self;
        proof {
            assert(s1.wf());
            assert(s1.only_cleared(&s0)) by {
                assert forall|k: int| 0 <= k < s1.tables@.len() implies #[trigger] seq_only_cleared(
                    page_table_entries(s1.tables@[k]), page_table_entries(s0.tables@[k])) by {
                }
            }
            lemma_tables_cleared(s1.tables@, s0.tables@, pt as int, idx1 as int);
            lemma_cleared_walk(s1, s0, virt);
        }

        // Tables that became empty are unlinked.
        let mut to_deallocate0: Option<u64> = None;
        let mut to_deallocate1: Option<u64> = None;
        let mut to_deallocate2: Option<u64> = None;
        let e0 = table_is_empty(&self.tables, pt);
        proof { lemma_empty_flag(*self, pt as int, e0); }
        if e0 {
            proof { lemma_table_virt_canonical(self.addresses@[pt as int]); }
            to_deallocate0 = Some(crate::paging::virt_addr(self.addresses[pt] | PHYSICAL_MEMORY_OFFSET));
            entry_set_unused(&mut self.tables, pd, idx2);
        }
        let ghost c1 = *self;
        let e1 = table_is_empty(&self.tables, pd);
        proof { lemma_empty_flag(*self, pd as int, e1); }
        if e1 {
            proof { lemma_table_virt_canonical(self.addresses@[pd as int]); }
            to_deallocate1 = Some(crate::paging::virt_addr(self.addresses[pd] | PHYSICAL_MEMORY_OFFSET));
            entry_set_unused(&mut self.tables, pdp, idx3);
        }
        let ghost c2 = *self;
        let e2 = table_is_empty(&self.tables, pdp);
        proof { lemma_empty_flag(*self, pdp as int, e2); }
        if e2 {
            proof { lemma_table_virt_canonical(self.addresses@[pdp as int]); }
            to_deallocate2 = Some(crate::paging::virt_addr(self.addresses[pdp] | PHYSICAL_MEMORY_OFFSET));
            entry_set_unused(&mut self.tables, 0, idx4);
        }
        let ghost s2 = *self;
        let ghost f2 = *frame_allocator;
        proof {
            assert(s2.wf());
            assert(s2.only_cleared(&s1)) by {
                assert forall|k: int| 0 <= k < s2.tables@.len() implies #[trigger] seq_only_cleared(
                    page_table_entries(s2.tables@[k]), page_table_entries(s1.tables@[k])) by {
                }
            }
            lemma_cleared_trans(s2, s1, s0);
            lemma_tables_cleared(s2.tables@, s1.tables@, 0, 0);
            lemma_tables_cleared(s2.tables@, s0.tables@, pt as int, idx1 as int);
            lemma_cleared_walk(s2, s0, virt);
            lemma_cleared_keeps_unmap_safe(s2, s0, f2, f0, virt);
        }
        let ghost mut pending: Set<int> = Set::empty();
        proof {
            pending = lemma_pending_start(s0, s1, c1, c2, s2, pt as int, pd as int, pdp as int, e0, e1, e2);
            assert(s2.only_cleared(&c1)) by {
                assert forall|k: int| 0 <= k < s2.tables@.len() implies #[trigger] seq_only_cleared(
                    page_table_entries(s2.tables@[k]), page_table_entries(c1.tables@[k])) by {
                }
            }
            assert(s2.only_cleared(&c2)) by {
                assert forall|k: int| 0 <= k < s2.tables@.len() implies #[trigger] seq_only_cleared(
                    page_table_entries(s2.tables@[k]), page_table_entries(c2.tables@[k])) by {
                }
            }
            lemma_cleared_refl(s2);
            lemma_local_explained(s0, s1, c1, c2, s2, virt, pt as int, pd as int, pdp as int, e0, e1, e2);
            assert forall|t: int| 0 <= t < s0.tables@.len() implies #[trigger] s0.walk_ok(s0.window_of(t)) by {
                assert(s0.unmap_address_ok(&f0, table_virt(s0.addresses@[t])));
            }
        }

        // Unmap the tables that were unlinked.
        let ghost n = Mapper::freed_frame_number(virt);
        proof {
            lemma_cleared_walk(s1, s0, virt);
            lemma_cleared_walk(s2, s1, virt);
            assert(unmap_progress(s2, s0, f2, f0, virt));
        }
        if let Some(addr) = to_deallocate0 {
            let ghost sb = *self;
            let ghost fb = *frame_allocator;
            proof {
                lemma_unmap_target(sb, fb, virt, pt as int);
                lemma_empty_stays(s2, s1, pt as int);
                lemma_empty_stays(sb, s2, pt as int);
            }
            let r = self.unmap(frame_allocator, addr);
            proof {
                lemma_unmap_step(*self, sb, s0, *frame_allocator, fb, f0, virt);
                assert(addr == sb.window_of(pt as int));
                lemma_cleared_step(s0, sb, *self, virt, pt as int);
            }
            if r.is_err() {
                proof {
                    if !sb.reaches_4k(addr) {
                        lemma_empty_stays(s2, s1, pt as int);
                        lemma_empty_stays(sb, s2, pt as int);
                        assert(self.window_of(pt as int) == addr);
                    }
                }
                return r;
            }
            proof {
                lemma_window_step(sb, *self, s0, fb, virt, pending, pt as int);
                pending = pending.remove(pt as int);
                lemma_cleared_trans(*self, sb, s2);
            }
        }
        assert(self.only_cleared(&s2));
        if let Some(addr) = to_deallocate1 {
            let ghost sb = *self;
            let ghost fb = *frame_allocator;
            proof {
                lemma_unmap_target(sb, fb, virt, pd as int);
                lemma_empty_stays(s2, c1, pd as int);
                lemma_empty_stays(sb, s2, pd as int);
            }
            let r = self.unmap(frame_allocator, addr);
            proof {
                lemma_unmap_step(*self, sb, s0, *frame_allocator, fb, f0, virt);
                assert(addr == sb.window_of(pd as int));
                lemma_cleared_step(s0, sb, *self, virt, pd as int);
            }
            if r.is_err() {
                proof {
                    if !sb.reaches_4k(addr) {
                        lemma_empty_stays(s2, c1, pd as int);
                        lemma_empty_stays(sb, s2, pd as int);
                        assert(self.window_of(pd as int) == addr);
                    }
                }
                return r;
            }
            proof {
                lemma_window_step(sb, *self, s0, fb, virt, pending, pd as int);
                pending = pending.remove(pd as int);
                lemma_cleared_trans(*self, sb, s2);
            }
        }
        assert(self.only_cleared(&s2));
        if let Some(addr) = to_deallocate2 {
            let ghost sb = *self;
            let ghost fb = *frame_allocator;
            proof {
                lemma_unmap_target(sb, fb, virt, pdp as int);
                lemma_empty_stays(s2, c2, pdp as int);
                lemma_empty_stays(sb, s2, pdp as int);
            }
            let r = self.unmap(frame_allocator, addr);
            proof {
                lemma_unmap_step(*self, sb, s0, *frame_allocator, fb, f0, virt);
                assert(addr == sb.window_of(pdp as int));
                lemma_cleared_step(s0, sb, *self, virt, pdp as int);
            }
            if r.is_err() {
                proof {
                    if !sb.reaches_4k(addr) {
                        lemma_empty_stays(sb, s2, pdp as int);
                        assert(self.window_of(pdp as int) == addr);
                    }
                }
                return r;
            }
            proof {
                lemma_window_step(sb, *self, s0, fb, virt, pending, pdp as int);
                pending = pending.remove(pdp as int);
                lemma_cleared_trans(*self, sb, s2);
            }
        }
        assert(self.only_cleared(&s2));
        proof {
            assert(pending =~= Set::<int>::empty()) by {
                assert forall|x: int| !pending.contains(x) by {
                }
            }
        }
        Ok(())
    }
}

/// What holds between the recursive calls of `unmap`: `s` came from `s0` by clearing
/// entries, `virt` is no longer mapped, its frame's bit is clear, and `unmap` stays safe.
pub open spec fn unmap_progress(s: Mapper, s0: Mapper, f: FrameAllocator, f0: FrameAllocator, virt: u64) -> bool {
    let n = Mapper::freed_frame_number(virt);
    &&& s.wf()
    &&& s.only_cleared(&s0)
    &&& s.nonzero_entries() < s0.nonzero_entries()
    &&& bits_only_cleared(f.allocated_frames@, f0.allocated_frames@)
    &&& s.walk_ok(virt)
    &&& !s.mapped(virt)
    &&& (n % 8) < f.allocated_frames@.len()
    &&& n / 8 < 8
    &&& !bit_set(f.allocated_frames@[(n % 8) as int], (n / 8) as int)
    &&& s.unmap_safe(&f, virt)
}

proof fn lemma_unmap_target(s: Mapper, f: FrameAllocator, virt: u64, k: int)
    requires
        s.unmap_safe(&f, virt),
        0 <= k < s.addresses@.len(),
    ensures
        s.unmap_safe(&f, table_virt(s.addresses@[k])),
{
    assert(s.unmap_address_ok(&f, table_virt(s.addresses@[k])));
}

proof fn lemma_unmap_step(after: Mapper, before: Mapper, s0: Mapper, fa: FrameAllocator, fb: FrameAllocator,
    f0: FrameAllocator, virt: u64)
    requires
        s0.wf(),
        unmap_progress(before, s0, fb, f0, virt),
        after.wf(),
        after.only_cleared(&before),
        after.nonzero_entries() <= before.nonzero_entries(),
        bits_only_cleared(fa.allocated_frames@, fb.allocated_frames@),
    ensures
        unmap_progress(after, s0, fa, f0, virt),
{
    let n = Mapper::freed_frame_number(virt);
    lemma_cleared_trans(after, before, s0);
    lemma_bits_cleared_trans(fa.allocated_frames@, fb.allocated_frames@, f0.allocated_frames@);
    lemma_cleared_walk(after, before, virt);
    lemma_bit_stays_clear(fa.allocated_frames@, fb.allocated_frames@, (n % 8) as int, (n / 8) as int);
    lemma_cleared_keeps_unmap_safe(after, before, fa, fb, virt);
}


// ---------------------------------------------------------------------------
// Mapping physical memory, and the heap's entries

/// The physical address that kernel address `virt` in the physical-memory window
/// stands for: its low 39 bits.
pub open spec fn phys_of_window(virt: u64) -> u64 {
    virt & 0x7F_FFFF_FFFFu64
}

/// Maps the page of `virt`, an address in the window of physical memory, to the frame
/// that holds `virt`'s physical address, unless `virt` is already mapped. (The page
/// is mapped whenever it is not: with no page in the way, `map` cannot fail.)
pub fn map_phys_offset(mapper: &mut Mapper, frame_allocator: &mut FrameAllocator, virt: u64)
    requires
        old(mapper).wf(),
        old(frame_allocator).wf(),
        old(mapper).tables_in_use(old(frame_allocator)),
        old(mapper).walk_ok(virt),
        free_frame_count(old(frame_allocator).allocated_frames@) >= old(mapper).missing_tables(virt),
    ensures
        final(mapper).wf(),
        final(frame_allocator).wf(),
        final(mapper).tables_in_use(final(frame_allocator)),
        old(mapper).mapped(virt) ==> *final(mapper) == *old(mapper) && *final(frame_allocator) == *old(frame_allocator),
        !old(mapper).mapped(virt) && old(mapper).path_distinct(virt) ==> {
            &&& final(mapper).walk_ok(virt)
            &&& final(mapper).mapped_4k(virt)
            &&& final(mapper).entry1(virt) == ((phys_of_window(virt) - phys_of_window(virt) % 4096) as u64) | (PRESENT | WRITABLE)
        },
{
    assert(virt & 0x7F_FFFF_FFFFu64 < 0x80_0000_0000u64) by (bit_vector);
    let phys = crate::paging::phys_addr(virt & 0x7F_FFFF_FFFF);
    if mapper.is_mapped(virt) {
        return;
    }
    let frame = crate::paging::frame_containing_address(phys);
    let r = mapper.map(frame_allocator, virt, frame);
    assert(r is Ok);
}

/// The size in bytes of a heap entry's header on the kernel's target.
pub const ENTRY_SIZE: usize = 32;

/// The alignment of a heap entry's header on the kernel's target.
pub const ENTRY_ALIGN: usize = 8;

/// `addr` rounded down to a multiple of `align`.
pub fn align_down(addr: usize, align: usize) -> (ret: usize)
    requires
        align > 0,
    ensures
        ret == addr - addr % align,
        ret % align == 0,
        ret <= addr,
        addr - ret < align,
{
    proof { lemma_round_down(addr as int, align as int); }
    addr - addr % align
}

proof fn lemma_round_down(addr: int, align: int)
    requires
        align > 0,
        addr >= 0,
    ensures
        (addr - addr % align) % align == 0,
        0 <= addr % align < align,
        addr % align <= addr,
{
    vstd::arithmetic::div_mod::lemma_fundamental_div_mod(addr, align);
    vstd::arithmetic::div_mod::lemma_mod_multiples_basic(addr / align, align);
    assert(addr - addr % align == (addr / align) * align) by (nonlinear_arith)
        requires
            addr == align * (addr / align) + addr % align,
    ;
    assert(addr / align >= 0) by (nonlinear_arith)
        requires
            addr >= 0,
            align > 0,
    ;
    assert((addr / align) * align >= 0) by (nonlinear_arith)
        requires
            addr / align >= 0,
            align > 0,
    ;
}

/// `addr` rounded up to a multiple of `align`.
pub open spec fn round_up(addr: int, align: int) -> int {
    if addr % align == 0 {
        addr
    } else {
        addr - addr % align + align
    }
}

/// `addr` rounded up to a multiple of `align`; the result must fit in a `usize`.
pub fn align_up(addr: usize, align: usize) -> (ret: usize)
    requires
        align > 0,
        round_up(addr as int, align as int) <= usize::MAX,
    ensures
        ret == round_up(addr as int, align as int),
        ret % align == 0,
        addr <= ret,
        ret - addr < align,
{
    proof {
        lemma_round_down(addr as int, align as int);
        vstd::arithmetic::div_mod::lemma_mod_add_multiples_vanish((addr - addr % align) as int, align as int);
    }
    let m = addr % align;
    let ret = if m == 0 {
        addr
    } else {
        addr - m + align
    };
    ret
}

/// The header of a heap allocation, as it lies at `address`: the neighbouring
/// entries' addresses, and the size and alignment of the allocation that follows it.
#[derive(Clone, Copy, PartialEq, Eq, Structural, Debug)]
pub struct AllocatedEntry {
    pub previous: Option<usize>,
    pub next: Option<usize>,
    pub size: usize,
    pub align: usize,
    pub address: usize,
}

impl AllocatedEntry {
    /// The neighbours' headers once an entry at `entry_address` is linked in between
    /// them: `previous` points forward to it, and `next`, if any, points back to it.
    pub fn linked_neighbours(previous: &AllocatedEntry, entry_address: usize, next: Option<&AllocatedEntry>) -> (ret: (
        AllocatedEntry,
        Option<AllocatedEntry>,
    ))
        ensures
            ret.0 == (AllocatedEntry { next: Some(entry_address), ..*previous }),
            ret.1 == (match next {
                Some(n) => Some(AllocatedEntry { previous: Some(entry_address), ..*n }),
                None => None,
            }),
    {
        let mut p = *previous;
        p.next = Some(entry_address);
        let n = match next {
            Some(n) => {
                let mut m = *n;
                m.previous = Some(entry_address);
                Some(m)
            },
            None => None,
        };
        (p, n)
    }

    /// The neighbours' headers once `entry` is taken out from between them: each points
    /// past it to the other (or to nothing). An entry has at least one neighbour: the
    /// heap's first entry is never freed.
    pub fn unlinked_neighbours(entry: &AllocatedEntry, previous: Option<&AllocatedEntry>, next: Option<&AllocatedEntry>) -> (ret: (
        Option<AllocatedEntry>,
        Option<AllocatedEntry>,
    ))
        requires
            entry.previous is Some || entry.next is Some,
        ensures
            ret.0 == (match previous {
                Some(p) => Some(AllocatedEntry { next: entry.next, ..*p }),
                None => None,
            }),
            ret.1 == (match next {
                Some(n) => Some(AllocatedEntry { previous: entry.previous, ..*n }),
                None => None,
            }),
    {
        let p = match previous {
            Some(p) => {
                let mut q = *p;
                q.next = entry.next;
                Some(q)
            },
            None => None,
        };
        let n = match next {
            Some(n) => {
                let mut m = *n;
                m.previous = entry.previous;
                Some(m)
            },
            None => None,
        };
        (p, n)
    }
}

impl AllocatedEntry {
    /// Where the entry's data starts: after the header, aligned as the allocation asks.
    pub open spec fn spec_data_ptr(&self) -> int {
        round_up(self.address + ENTRY_SIZE, self.align as int)
    }

    /// The alignment is non-zero and the data's end fits in a `usize`.
    pub open spec fn wf(&self) -> bool {
        &&& self.align > 0
        &&& self.spec_data_ptr() + self.size <= usize::MAX
    }

    /// The page that the entry starts in.
    pub fn first_page(&self) -> (ret: usize)
        ensures
            ret == self.address >> 12usize,
    {
        self.address >> 12usize
    }

    /// The page that holds the byte just past the entry's data.
    pub fn last_page(&self) -> (ret: usize)
        requires
            self.wf(),
        ensures
            ret == ((self.spec_data_ptr() + self.size) as usize) >> 12usize,
    {
        self.after_data() >> 12usize
    }

    /// The entry's own address.
    pub fn self_ptr(&self) -> (ret: usize)
        ensures
            ret == self.address,
    {
        self.address
    }

    /// Where the entry's data starts.
    pub fn data_ptr(&self) -> (ret: usize)
        requires
            self.wf(),
        ensures
            ret == self.spec_data_ptr(),
    {
        proof { lemma_round_up_bound((self.address + ENTRY_SIZE) as int, self.align as int); }
        align_up(self.self_ptr() + ENTRY_SIZE, self.align)
    }

    /// The address just past the entry's data.
    pub fn after_data(&self) -> (ret: usize)
        requires
            self.wf(),
        ensures
            ret == self.spec_data_ptr() + self.size,
    {
        self.data_ptr() + self.size
    }

    /// Where `new_after` puts an entry for an allocation of `size` bytes aligned to
    /// `align` after `previous`: the header goes at the first aligned address after
    /// the previous data, the data at the next address aligned for the allocation
    /// past a header, and the header is then moved up to just before the data.
    /// Returns the new entry, and the first and last page that it touches.
    pub fn new_after(previous: &AllocatedEntry, previous_address: usize, next: Option<usize>, size: usize, align: usize) -> (ret: (AllocatedEntry, usize, usize))
        requires
            previous.wf(),
            align > 0,
            placement_fits(previous.spec_data_ptr() + previous.size, size as int, align as int),
        ensures
            ({
                let (self_ptr, data_ptr) = placement(previous.spec_data_ptr() + previous.size, align as int);
                &&& ret.0 == AllocatedEntry { previous: Some(previous_address), next, size, align, address: self_ptr as usize }
                &&& ret.1 == (self_ptr as usize) >> 12usize
                &&& ret.2 == ((data_ptr + size) as usize) >> 12usize
            }),
            8usize % align == 0 || align % 8 == 0 ==> {
                &&& ret.0.spec_data_ptr() == ret.0.address + ENTRY_SIZE
                &&& ret.0.address % ENTRY_ALIGN == 0
                &&& ret.0.spec_data_ptr() % (align as int) == 0
                &&& ret.0.address >= previous.spec_data_ptr() + previous.size
            },
    {
        proof {
            if 8usize % align == 0 || align % 8 == 0 {
                lemma_entry_in_front_of_data(previous.spec_data_ptr() + previous.size, align as int);
            }
        }
        let after_previous = previous.after_data();
        proof { lemma_round_up_bound(after_previous as int, ENTRY_ALIGN as int); }
        let min_self_ptr = align_up(after_previous, ENTRY_ALIGN);
        proof { lemma_round_up_bound((min_self_ptr + ENTRY_SIZE) as int, align as int); }
        let data_ptr = align_up(min_self_ptr + ENTRY_SIZE, align);
        let self_ptr = align_down(data_ptr - ENTRY_SIZE, ENTRY_ALIGN);
        let entry = AllocatedEntry { previous: Some(previous_address), next, size, align, address: self_ptr };
        let first_page = self_ptr >> 12usize;
        let last_page = (data_ptr + size) >> 12usize;
        (entry, first_page, last_page)
    }
}

proof fn lemma_round_up_bound(addr: int, align: int)
    requires
        align > 0,
        addr >= 0,
    ensures
        addr <= round_up(addr, align) < addr + align,
{
    lemma_round_down(addr, align);
}

/// Where `new_after` puts the header and the data of an entry aligned to `align`
/// that follows data ending at `after_previous`.
pub open spec fn placement(after_previous: int, align: int) -> (int, int) {
    let min_self_ptr = round_up(after_previous, ENTRY_ALIGN as int);
    let data_ptr = round_up(min_self_ptr + ENTRY_SIZE, align);
    let self_ptr = (data_ptr - ENTRY_SIZE) - (data_ptr - ENTRY_SIZE) % (ENTRY_ALIGN as int);
    (self_ptr, data_ptr)
}

proof fn lemma_round_up_multiple(addr: int, align: int)
    requires
        align > 0,
        addr >= 0,
    ensures
        round_up(addr, align) % align == 0,
        addr <= round_up(addr, align),
{
    lemma_round_down(addr, align);
    if addr % align != 0 {
        vstd::arithmetic::div_mod::lemma_mod_add_multiples_vanish(addr - addr % align, align);
    }
}

/// An entry sits immediately in front of its data: for an alignment that divides 8 or
/// is a multiple of 8 (every power of two), `placement` puts the header, aligned for a
/// header, exactly `ENTRY_SIZE` bytes before data aligned for the allocation, and not
/// before the end of the previous data.
pub proof fn lemma_entry_in_front_of_data(after_previous: int, align: int)
    requires
        after_previous >= 0,
        align > 0,
        8int % align == 0 || align % 8 == 0,
    ensures
        ({
            let (self_ptr, data_ptr) = placement(after_previous, align);
            &&& self_ptr + ENTRY_SIZE == data_ptr
            &&& self_ptr % (ENTRY_ALIGN as int) == 0
            &&& data_ptr % align == 0
            &&& self_ptr >= after_previous
            &&& round_up(self_ptr + ENTRY_SIZE, align) == data_ptr
        }),
{
    let m: int = round_up(after_previous, 8);
    lemma_round_up_multiple(after_previous, 8);
    let d: int = round_up(m + 32, align);
    lemma_round_up_multiple(m + 32, align);
    vstd::arithmetic::div_mod::lemma_fundamental_div_mod(m, 8);
    let q: int = m / 8;
    assert(m == 8 * q);
    if 8int % align == 0 {
        vstd::arithmetic::div_mod::lemma_fundamental_div_mod(8, align);
        let r: int = 8int / align;
        assert(8 == align * r);
        assert(m + 32 == (r * q + 4 * r) * align) by (nonlinear_arith)
            requires
                m == 8 * q,
                8 == align * r,
        ;
        vstd::arithmetic::div_mod::lemma_mod_multiples_basic(r * q + 4 * r, align);
        assert(d == m + 32);
    } else {
        vstd::arithmetic::div_mod::lemma_fundamental_div_mod(d, align);
        vstd::arithmetic::div_mod::lemma_fundamental_div_mod(align, 8);
        let t: int = d / align;
        let u: int = align / 8;
        assert(d == align * t);
        assert(align == 8 * u);
        assert(d - 32 == (u * t - 4) * 8) by (nonlinear_arith)
            requires
                d == align * t,
                align == 8 * u,
        ;
        vstd::arithmetic::div_mod::lemma_mod_multiples_basic(u * t - 4, 8);
    }
    assert((d - 32) % 8 == 0) by {
        if 8int % align == 0 {
            assert(d - 32 == m);
        }
    }
    assert(placement(after_previous, align).0 == d - 32);
}

/// The placement, and the new data's end, fit in a `usize`.
pub open spec fn placement_fits(after_previous: int, size: int, align: int) -> bool {
    let min_self_ptr = round_up(after_previous, ENTRY_ALIGN as int);
    &&& min_self_ptr + ENTRY_SIZE + align <= usize::MAX
    &&& placement(after_previous, align).1 + size <= usize::MAX
}

/// Whether `alloc` keeps searching past `current`: the next entry starts at or after
/// the end of an allocation placed after `current` (see `alloc` in the heap
/// allocator, which compares with the data start plus the alignment).
pub fn room_before_next(current: &AllocatedEntry, next: &AllocatedEntry, align: usize) -> (ret: bool)
    requires
        current.wf(),
        align > 0,
        round_up(current.spec_data_ptr() + current.size, ENTRY_ALIGN as int) + ENTRY_SIZE + align + align <= usize::MAX,
    ensures
        ({
            let min_self_ptr = round_up(current.spec_data_ptr() + current.size, ENTRY_ALIGN as int);
            let data_ptr = round_up(min_self_ptr + ENTRY_SIZE, align as int);
            ret == (next.address >= data_ptr + align)
        }),
{
    let after_data = current.after_data();
    proof { lemma_round_up_bound(after_data as int, ENTRY_ALIGN as int); }
    let min_self_ptr = align_up(after_data, ENTRY_ALIGN);
    proof { lemma_round_up_bound((min_self_ptr + ENTRY_SIZE) as int, align as int); }
    let data_ptr = align_up(min_self_ptr + ENTRY_SIZE, align);
    let after_data = data_ptr + align;
    let next_start = next.self_ptr();
    next_start >= after_data
}

/// The pages that freeing `entry` unmaps: from the page after the previous entry's
/// last page (or the entry's first page, if later) to the page before the next
/// entry's first page (or the entry's last page, if earlier).
pub fn dealloc_pages(previous: Option<&AllocatedEntry>, entry: &AllocatedEntry, next: Option<&AllocatedEntry>) -> (ret: (usize, usize))
    requires
        entry.wf(),
        previous matches Some(p) ==> p.wf() && ((p.spec_data_ptr() + p.size) as usize) >> 12usize < usize::MAX,
        next matches Some(n) ==> n.address >> 12usize >= 1,
    ensures
        ret.0 == match previous {
            Some(p) => {
                let a = ((((p.spec_data_ptr() + p.size) as usize) >> 12usize) + 1) as usize;
                let b = entry.address >> 12usize;
                if a >= b { a } else { b }
            },
            None => entry.address >> 12usize,
        },
        ret.1 == match next {
            Some(n) => {
                let a = ((n.address >> 12usize) - 1) as usize;
                let b = ((entry.spec_data_ptr() + entry.size) as usize) >> 12usize;
                if a <= b { a } else { b }
            },
            None => ((entry.spec_data_ptr() + entry.size) as usize) >> 12usize,
        },
{
    let first_page = match previous {
        Some(prev) => {
            let a = prev.last_page() + 1;
            let b = entry.first_page();
            if a >= b { a } else { b }
        },
        None => entry.first_page(),
    };
    let last_page = match next {
        Some(next) => {
            let a = next.first_page() - 1;
            let b = entry.last_page();
            if a <= b { a } else { b }
        },
        None => entry.last_page(),
    };
    (first_page, last_page)
}


impl Mapper {
    /// How many tables `map_huge` creates on the way to `v`.
    pub open spec fn missing_huge_tables(&self, v: u64) -> nat {
        if self.entry4(v) == 0 {
            2
        } else if self.entry3(v) == 0 {
            1
        } else {
            0
        }
    }

    /// The walk to `v` can reach a level-2 table: no 1 GiB page is in the way.
    pub open spec fn reaches_level_2(&self, v: u64) -> bool {
        self.entry4(v) != 0 ==> self.entry3(v) == 0 || !is_huge(self.entry3(v))
    }

    /// The level-2 entry for `v` is free (a missing table counts as free entries).
    pub open spec fn huge_slot_free(&self, v: u64) -> bool {
        self.entry4(v) == 0 || self.entry3(v) == 0 || self.entry2(v) == 0
    }

    /// Maps the 2 MiB page at `v` to the 2 MiB frame at `frame` with a huge level-2
    /// entry, present and writable, creating the tables on the way that are missing.
    pub fn map_huge<F: FrameSource>(&mut self, frame_allocator: &mut F, v: u64, frame: u64)
        requires
            old(self).wf(),
            old(frame_allocator).source_wf(),
            old(self).tables_in_use(old(frame_allocator)),
            old(self).walk_ok(v),
            old(self).reaches_level_2(v),
            old(self).huge_slot_free(v),
            frame % 0x20_0000 == 0,
            frame < 0x10_0000_0000_0000,
            old(frame_allocator).free_frames() >= old(self).missing_huge_tables(v),
        ensures
            final(self).wf(),
            final(frame_allocator).source_wf(),
            final(self).tables_in_use(final(frame_allocator)),
            old(self).path_distinct(v) ==> {
                &&& final(self).walk_ok(v)
                &&& final(self).mapped(v)
                &&& !is_huge(final(self).entry3(v))
                &&& final(self).entry2(v) == frame | (PRESENT | WRITABLE | HUGE_PAGE)
            },
            final(self).only_filled(old(self)),
    {
        let (idx4, idx3, idx2, _idx1) = virt2idx(v);
        let flags = PRESENT | WRITABLE;
        let ghost s0 = *self;
        proof { lemma_indices_bound(v); }
        let pdpt = self.descend_or_create(frame_allocator, 0, idx4);
        let ghost s1 = *self;
        let ghost a4 = s1.entries(0)[idx4 as int] & ADDRESS_MASK;
        proof {
            if s0.entries(0)[idx4 as int] == 0 {
                assert(s1.entries(0)[idx4 as int] == s1.addresses@[pdpt as int] | (PRESENT | WRITABLE));
            } else {
                assert(s0.entry4(v) == s0.entries(0)[idx4 as int]);
            }
            assert(s1.has_table(a4) && s1.table_index(a4) == pdpt);
            lemma_flags_huge(self.entries(pdpt as int)[idx3 as int]);
        }
        let pdt = self.descend_or_create(frame_allocator, pdpt, idx3);
        let ghost s2 = *self;
        let ghost a3 = s2.entries(pdpt as int)[idx3 as int] & ADDRESS_MASK;
        proof {
            lemma_prefix_index(s1.addresses@, s2.addresses@, a4);
            if s1.entries(pdpt as int)[idx3 as int] == 0 {
                assert(s2.entries(pdpt as int)[idx3 as int] == s2.addresses@[pdt as int] | (PRESENT | WRITABLE));
            }
            assert(s2.has_table(a3) && s2.table_index(a3) == pdt);
        }
        let entry_flags_huge = flags | HUGE_PAGE;
        assert(frame % 4096 == 0);
        entry_set_addr(&mut self.tables, pdt, idx2, frame, entry_flags_huge);
        proof {
            assert(frame | (PRESENT | WRITABLE | HUGE_PAGE) != 0 && (frame | (PRESENT | WRITABLE | HUGE_PAGE)) & PRESENT
                != 0 && (frame | (PRESENT | WRITABLE | HUGE_PAGE)) & HUGE_PAGE != 0) by (bit_vector);
            assert(entry_flags_huge == PRESENT | WRITABLE | HUGE_PAGE);
            if s0.path_distinct(v) {
                assert(pdpt != 0);
                assert(pdt != 0 && pdt != pdpt);
                assert(self.addresses@ == s2.addresses@);
                assert(s2.entries(0) == s1.entries(0));
                assert(self.entries(0) == s2.entries(0));
                assert(self.entries(pdpt as int) == s2.entries(pdpt as int));
                assert(self.entry4(v) == s1.entries(0)[idx4 as int]);
                assert(self.table_index(a4) == pdpt);
                assert(self.entry3(v) == s2.entries(pdpt as int)[idx3 as int]);
                assert(self.table_index(a3) == pdt);
                assert(self.entry2(v) == self.entries(pdt as int)[idx2 as int]);
                assert(s0 == *old(self));
                if s0.entries(0)[idx4 as int] != 0 {
                    assert(s1 == s0);
                    assert(s0.entry4(v) == s0.entries(0)[idx4 as int]);
                    assert(s0.entry3(v) == s1.entries(pdpt as int)[idx3 as int]);
                }
                assert(self.entry4(v) != 0 && is_present(self.entry4(v)) && !is_huge(self.entry4(v)));
                if s1.entries(pdpt as int)[idx3 as int] != 0 {
                    assert(s2 == s1);
                }
                assert(self.entry3(v) != 0 && is_present(self.entry3(v)) && !is_huge(self.entry3(v)));
                assert(self.has_table(a4) && self.has_table(a3));
            }
            if s0.entries(0)[idx4 as int] == 0 {
                assert(s1.entries(pdpt as int)[idx3 as int] == 0);
            } else {
                assert(s1 == s0);
            }
            if s1.entries(pdpt as int)[idx3 as int] == 0 {
                assert(s2.entries(pdt as int)[idx2 as int] == 0);
            } else {
                assert(s2 == s1);
                assert(s0.entry4(v) == s0.entries(0)[idx4 as int]);
                assert(s2.entries(pdt as int)[idx2 as int] == s0.entry2(v));
            }
            assert(s2.entries(pdt as int)[idx2 as int] == 0);
            assert(self.only_filled(&s2)) by {
                assert(self.addresses@.subrange(0, s2.addresses@.len() as int) =~= s2.addresses@);
                assert forall|m: int| 0 <= m < s2.tables@.len() implies #[trigger] seq_only_filled(
                    self.entries(m), s2.entries(m)) by {
                    if m != pdt as int {
                        assert(self.tables@[m] == s2.tables@[m]);
                    }
                }
            }
            lemma_filled_trans(s2, s1, s0);
            lemma_filled_trans(*self, s2, s0);
        }
    }
}


/// A page that `map` has just mapped (a present 4 KiB entry under present tables) is
/// one that `unmap` clears: `map` followed by `unmap` leaves the page unmapped.
pub proof fn lemma_mapped_page_is_unmappable(m: Mapper, v: u64)
    requires
        m.mapped_4k(v),
    ensures
        m.reaches_4k(v),
{
    let e = m.entry1(v);
    assert(e & PRESENT != 0 ==> e != 0) by (bit_vector);
}

proof fn lemma_prefix_index(s: Seq<u64>, t: Seq<u64>, b: u64)
    requires
        t.no_duplicates(),
        s.len() <= t.len(),
        t.subrange(0, s.len() as int) == s,
        s.contains(b),
    ensures
        t.contains(b),
        t.index_of(b) == s.index_of(b),
{
    let i = s.index_of(b);
    assert(t.subrange(0, s.len() as int)[i] == t[i]);
    assert(t[i] == b);
    let j = t.index_of(b);
    assert(t[j] == b);
}

proof fn lemma_flags_huge(e: u64)
    ensures
        (e & !ADDRESS_MASK) & HUGE_PAGE == e & HUGE_PAGE,
        (e & !ADDRESS_MASK) & PRESENT == e & PRESENT,
        (e & ADDRESS_MASK) | (e & !ADDRESS_MASK) == e,
{
    assert((e & !ADDRESS_MASK) & HUGE_PAGE == e & HUGE_PAGE && (e & !ADDRESS_MASK) & PRESENT == e & PRESENT
        && (e & ADDRESS_MASK) | (e & !ADDRESS_MASK) == e) by (bit_vector);
}

} // verus!
