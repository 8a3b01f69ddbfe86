use osdev::kernel::memory::{
    align_down, align_up, dealloc_pages, idx2phys, map_phys_offset, phys2idx, virt2idx, AllocatedEntry, FrameAllocator,
    Mapper,
};
use x86_64::structures::paging::PageTable;

fn mapper_and_frames() -> (Mapper, FrameAllocator) {
    // Frame 0 holds the level-4 table.
    let mut bitmap = vec![0u8; 8];
    bitmap[0] = 1;
    (Mapper::new(PageTable::new(), 0), FrameAllocator::new(bitmap))
}

#[test]
fn allocation_takes_lowest_free_frame() {
    let mut frames = FrameAllocator::new(vec![0b0000_0111, 0]);
    assert_eq!(frames.allocate_frame(), 0x3000);
    assert_eq!(frames.allocated_frames, vec![0b0000_1111, 0]);
    let mut frames = FrameAllocator::new(vec![0xFF, 0b1111_1101]);
    assert_eq!(frames.allocate_frame(), 9 * 4096);
    assert_eq!(frames.allocated_frames, vec![0xFF, 0xFF]);
}

#[test]
fn deallocation_undoes_allocation_of_frame_9() {
    let mut frames = FrameAllocator::new(vec![0xFF, 0x01]);
    let frame = frames.allocate_frame();
    assert_eq!(frame, 0x9000);
    frames.deallocate_frame(frame);
    assert_eq!(frames.allocated_frames, vec![0xFF, 0x01]);
}

#[test]
fn deallocation_clears_the_swapped_bit() {
    // Frame 1 is bit 1 of byte 0, but freeing it clears bit 0 of byte 1.
    let mut frames = FrameAllocator::new(vec![0x01, 0x01]);
    let frame = frames.allocate_frame();
    assert_eq!(frame, 0x1000);
    frames.deallocate_frame(frame);
    assert_eq!(frames.allocated_frames, vec![0x03, 0x00]);
}

#[test]
fn map_then_get_physical() {
    let (mut mapper, mut frames) = mapper_and_frames();
    assert!(!mapper.is_mapped(0x1000));
    assert_eq!(mapper.get_physical(0x1000), Err("Address is not mapped"));
    assert_eq!(mapper.map(&mut frames, 0x1000, 0x5000), Ok(()));
    // Three tables were created, in frames 1, 2 and 3.
    assert_eq!(frames.allocated_frames[0], 0x0F);
    assert_eq!(mapper.tables.len(), 4);
    assert!(mapper.is_mapped(0x1000));
    assert!(mapper.is_mapped(0x1FFF));
    assert!(!mapper.is_mapped(0x2000));
    assert_eq!(mapper.get_physical(0x1000), Ok(0x5000));
    assert_eq!(mapper.map(&mut frames, 0x2000, 0x6000), Ok(()));
    // The second page reuses the three tables.
    assert_eq!(mapper.tables.len(), 4);
    assert_eq!(mapper.get_physical(0x2000), Ok(0x6000));
}

#[test]
fn mapping_twice_fails() {
    let (mut mapper, mut frames) = mapper_and_frames();
    assert_eq!(mapper.map(&mut frames, 0x1000, 0x5000), Ok(()));
    assert_eq!(mapper.map(&mut frames, 0x1000, 0x7000), Err("Trying to map to already existing page"));
    assert_eq!(mapper.get_physical(0x1000), Ok(0x5000));
}

#[test]
fn unmap_of_unmapped_page_reports_the_level() {
    let (mut mapper, mut frames) = mapper_and_frames();
    assert_eq!(mapper.unmap(&mut frames, 0x1000), Err("Tried unmapping unmapped page (level 4)"));
    assert_eq!(mapper.map(&mut frames, 0x1000, 0x5000), Ok(()));
    assert_eq!(mapper.unmap(&mut frames, 0x2000), Err("Tried unmapping unmapped page (level 1)"));
    assert_eq!(mapper.unmap(&mut frames, 0x20_0000), Err("Tried unmapping unmapped page (level 2)"));
    assert_eq!(mapper.unmap(&mut frames, 0x4000_0000), Err("Tried unmapping unmapped page (level 3)"));
}

#[test]
fn unmap_removes_the_mapping() {
    let (mut mapper, mut frames) = mapper_and_frames();
    assert_eq!(mapper.map(&mut frames, 0x1000, 0x5000), Ok(()));
    assert_eq!(mapper.map(&mut frames, 0x2000, 0x6000), Ok(()));
    // The table of 0x1000 still holds 0x2000, so no table is freed.
    assert_eq!(mapper.unmap(&mut frames, 0x1000), Ok(()));
    assert!(!mapper.is_mapped(0x1000));
    assert!(mapper.is_mapped(0x2000));
    // The frame number of 0x1000 is 1: bit 0 of byte 1 is cleared.
    assert_eq!(frames.allocated_frames[1], 0);
    // Unmapping the last page empties the tables, whose own addresses are not mapped
    // in this address space, so freeing them stops at their first level.
    assert_eq!(mapper.unmap(&mut frames, 0x2000), Err("Tried unmapping unmapped page (level 4)"));
    assert!(!mapper.is_mapped(0x2000));
}

#[test]
fn map_phys_offset_maps_the_window_once() {
    let (mut mapper, mut frames) = mapper_and_frames();
    let virt = 0xFFFF_FF80_0012_3456u64;
    map_phys_offset(&mut mapper, &mut frames, virt);
    assert!(mapper.is_mapped(virt));
    assert_eq!(mapper.get_physical(virt), Ok(0x12_3000));
    let tables = mapper.tables.len();
    map_phys_offset(&mut mapper, &mut frames, virt);
    assert_eq!(mapper.tables.len(), tables);
}

#[test]
fn index_conversions() {
    assert_eq!(virt2idx(0xFFFF_8000_0040_1000), (256, 0, 2, 1));
    assert_eq!(idx2phys(1, 2, 3, 4), (1 << 39) | (2 << 30) | (3 << 21) | (4 << 12));
    assert_eq!(phys2idx((1 << 39) | (2 << 30) | (3 << 21) | (4 << 12)), (1, 2, 3, 4));
}

#[test]
fn alignment() {
    assert_eq!(align_up(13, 8), 16);
    assert_eq!(align_up(16, 8), 16);
    assert_eq!(align_up(0, 4096), 0);
    assert_eq!(align_down(13, 8), 8);
    assert_eq!(align_down(4095, 4096), 0);
}

#[test]
fn heap_entries() {
    let base = 0xFFFF_8100_0000_0000usize;
    let start = AllocatedEntry { previous: None, next: None, size: 0, align: 1, address: base };
    assert_eq!(start.self_ptr(), base);
    assert_eq!(start.data_ptr(), base + 32);
    assert_eq!(start.after_data(), base + 32);
    assert_eq!(start.first_page(), base >> 12);
    assert_eq!(start.last_page(), (base + 32) >> 12);
    let (entry, first, last) = AllocatedEntry::new_after(&start, base, None, 100, 16);
    assert_eq!(entry.address, base + 32);
    assert_eq!(entry.previous, Some(base));
    assert_eq!(entry.data_ptr(), base + 64);
    assert_eq!(first, (base + 32) >> 12);
    assert_eq!(last, (base + 164) >> 12);
    let (entry, _, _) = AllocatedEntry::new_after(&start, base, None, 8, 4096);
    assert_eq!(entry.data_ptr(), base + 4096);
    assert_eq!(entry.address, base + 4096 - 32);
}

#[test]
fn freed_pages_exclude_neighbours() {
    let base = 0x10_0000usize;
    let prev = AllocatedEntry { previous: None, next: None, size: 0x1000, align: 8, address: base };
    let entry = AllocatedEntry { previous: Some(base), next: None, size: 0x3000, align: 8, address: base + 0x2000 };
    let next = AllocatedEntry { previous: None, next: None, size: 8, align: 8, address: base + 0x4000 };
    // prev ends in page 0x101, entry spans 0x102..=0x105, next starts in 0x104.
    assert_eq!(dealloc_pages(Some(&prev), &entry, Some(&next)), (0x102, 0x103));
    assert_eq!(dealloc_pages(None, &entry, None), (0x102, 0x105));
}

#[test]
fn two_allocations_differ() {
    let mut frames = FrameAllocator::new(vec![0u8; 2]);
    let a = frames.allocate_frame();
    let b = frames.allocate_frame();
    assert_ne!(a, b);
    assert_eq!((a, b), (0, 0x1000));
}

#[test]
fn a_failed_map_changes_nothing() {
    let (mut mapper, mut frames) = mapper_and_frames();
    assert_eq!(mapper.map(&mut frames, 0x1000, 0x5000), Ok(()));
    let tables_before: Vec<Vec<u64>> =
        mapper.tables.iter().map(|t| t.iter().map(|e| e.addr().as_u64() | e.flags().bits()).collect()).collect();
    let addresses_before = mapper.addresses.clone();
    let frames_before = frames.allocated_frames.clone();
    assert_eq!(mapper.map(&mut frames, 0x1000, 0x7000), Err("Trying to map to already existing page"));
    let tables_after: Vec<Vec<u64>> =
        mapper.tables.iter().map(|t| t.iter().map(|e| e.addr().as_u64() | e.flags().bits()).collect()).collect();
    assert_eq!(tables_after, tables_before);
    assert_eq!(mapper.addresses, addresses_before);
    assert_eq!(frames.allocated_frames, frames_before);
    assert_eq!(mapper.get_physical(0x1000), Ok(0x5000));
}

#[test]
fn mapping_keeps_the_mappings_already_there() {
    let (mut mapper, mut frames) = mapper_and_frames();
    assert_eq!(mapper.map(&mut frames, 0x1000, 0x5000), Ok(()));
    assert_eq!(mapper.map(&mut frames, 0x4000_0000, 0x6000), Ok(()));
    assert_eq!(mapper.map(&mut frames, 0x80_0000_0000, 0x7000), Ok(()));
    assert_eq!(mapper.get_physical(0x1000), Ok(0x5000));
    assert_eq!(mapper.get_physical(0x4000_0000), Ok(0x6000));
    assert_eq!(mapper.get_physical(0x80_0000_0000), Ok(0x7000));
}

#[test]
fn unmapping_keeps_the_other_mappings() {
    let (mut mapper, mut frames) = mapper_and_frames();
    assert_eq!(mapper.map(&mut frames, 0x1000, 0x5000), Ok(()));
    assert_eq!(mapper.map(&mut frames, 0x2000, 0x6000), Ok(()));
    assert_eq!(mapper.map(&mut frames, 0x20_0000, 0x7000), Ok(()));
    assert_eq!(mapper.unmap(&mut frames, 0x1000), Ok(()));
    assert_eq!(mapper.get_physical(0x2000), Ok(0x6000));
    assert_eq!(mapper.get_physical(0x20_0000), Ok(0x7000));
}

#[test]
fn indices_round_trip() {
    assert_eq!(virt2idx(idx2phys(1, 2, 3, 4)), (1, 2, 3, 4));
    assert_eq!(phys2idx(idx2phys(511, 511, 511, 511)), (511, 511, 511, 511));
}

#[test]
fn entries_sit_right_in_front_of_their_data() {
    let base = 0x20_0000usize;
    let start = AllocatedEntry { previous: None, next: None, size: 3, align: 1, address: base };
    for align in [1usize, 2, 4, 8, 16, 64, 4096] {
        let (entry, _, _) = AllocatedEntry::new_after(&start, base, None, 10, align);
        assert_eq!(entry.self_ptr() + 32, entry.data_ptr());
        assert_eq!(entry.self_ptr() % 8, 0);
        assert_eq!(entry.data_ptr() % align, 0);
        assert!(entry.self_ptr() >= start.after_data());
    }
}

#[test]
fn kernel_indices_round_trip_through_the_top_half() {
    let v = osdev::kernel::memory::idx2virt(511, 2, 3, 4);
    assert_eq!(v, 0xFFFF_FF80_8060_4000);
    assert_eq!(virt2idx(v), (511, 2, 3, 4));
    assert_eq!(virt2idx(osdev::kernel::memory::idx2virt(1, 2, 3, 4)), (1, 2, 3, 4));
}

#[test]
fn neighbours_are_linked_and_unlinked() {
    let prev = AllocatedEntry { previous: None, next: Some(0x3000), size: 8, align: 8, address: 0x1000 };
    let next = AllocatedEntry { previous: Some(0x1000), next: None, size: 8, align: 8, address: 0x3000 };
    let (p, n) = AllocatedEntry::linked_neighbours(&prev, 0x2000, Some(&next));
    assert_eq!(p.next, Some(0x2000));
    assert_eq!(p.previous, None);
    assert_eq!(n.unwrap().previous, Some(0x2000));
    let entry = AllocatedEntry { previous: Some(0x1000), next: Some(0x3000), size: 8, align: 8, address: 0x2000 };
    let (p, n) = AllocatedEntry::unlinked_neighbours(&entry, Some(&p), n.as_ref());
    assert_eq!(p.unwrap().next, Some(0x3000));
    assert_eq!(n.unwrap().previous, Some(0x1000));
    let last = AllocatedEntry { previous: Some(0x1000), next: None, size: 8, align: 8, address: 0x2000 };
    let (p, n) = AllocatedEntry::unlinked_neighbours(&last, Some(&prev), None);
    assert_eq!(p.unwrap().next, None);
    assert!(n.is_none());
}
