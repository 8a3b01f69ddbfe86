use osdev::bootloader::loader::{lay_out_kernel, LayoutError};
use osdev::bootloader::elf::Elf;
use osdev::bootloader::loader::{
    base_address_from_bars, frame_bitmap_len, gig_page_count, is_xhci_controller, kernel_page_ranges,
    lowest_load_address, mark_frame_used, memory_type_in_use, merge_page_ranges, pci_config_address,
    physical_cap, physical_load_address, physical_memory_end, run_page_count, segment_align_mask,
    shift_physical_pages, Pager,
};

#[test]
fn overlapping_runs_merge() {
    let mut runs = vec![((0, 2), (0, 2)), ((2, 4), (2, 4)), ((10, 11), (10, 11))];
    merge_page_ranges(&mut runs);
    assert_eq!(runs.len(), 2);
    assert!(runs.contains(&((0, 4), (0, 4))));
    assert!(runs.contains(&((10, 11), (10, 11))));
}

#[test]
fn enclosed_runs_merge() {
    let mut runs = vec![((3, 4), (3, 4)), ((0, 9), (0, 9))];
    merge_page_ranges(&mut runs);
    assert_eq!(runs, vec![((0, 9), (0, 9))]);
}

#[test]
fn disjoint_runs_stay() {
    let mut runs = vec![((0, 1), (5, 6)), ((4, 5), (9, 10))];
    merge_page_ranges(&mut runs);
    assert_eq!(runs, vec![((0, 1), (5, 6)), ((4, 5), (9, 10))]);
}

#[test]
fn align_masks() {
    assert_eq!(segment_align_mask(0x20_0000), !0x1F_FFFFu64);
    assert_eq!(segment_align_mask(1), u64::MAX);
    assert_eq!(segment_align_mask(0), u64::MAX);
    assert_eq!(segment_align_mask(0x1000), !0xFFFu64);
}

fn elf_with_two_segments() -> Vec<u8> {
    let mut d = vec![0u8; 64 + 2 * 56];
    d[0..4].copy_from_slice(&[0x7F, 0x45, 0x4C, 0x46]);
    d[4] = 2;
    d[5] = 1;
    d[6] = 1;
    d[0x10] = 2;
    d[0x12] = 0x3E;
    d[0x14] = 1;
    d[0x20] = 64;
    d[0x34] = 64;
    d[0x36] = 56;
    d[0x38] = 2;
    for (i, (vaddr, memsz)) in [(0xFFFF_8000_0040_0000u64, 0x1000u64), (0xFFFF_8000_0000_0000u64, 0x20_0000u64)]
        .iter()
        .enumerate()
    {
        let o = 64 + i * 56;
        d[o] = 1;
        d[o + 8..o + 16].copy_from_slice(&0u64.to_le_bytes());
        d[o + 0x10..o + 0x18].copy_from_slice(&vaddr.to_le_bytes());
        d[o + 0x28..o + 0x30].copy_from_slice(&memsz.to_le_bytes());
        d[o + 0x30..o + 0x38].copy_from_slice(&0x20_0000u64.to_le_bytes());
    }
    d
}

#[test]
fn kernel_pages_of_segments() {
    let d = elf_with_two_segments();
    let elf = Elf::parse(&d).unwrap();
    let lowest = lowest_load_address(&elf.program_headers);
    assert_eq!(lowest, 0xFFFF_8000_0000_0000);
    let ranges = kernel_page_ranges(&elf.program_headers, lowest);
    let base = 0xFFFF_8000_0000_0000u64 >> 21;
    assert_eq!(ranges, vec![((base + 2, base + 2), (2, 2)), ((base, base + 1), (0, 1))]);
    let mut ranges = ranges;
    merge_page_ranges(&mut ranges);
    assert_eq!(ranges.len(), 2);
    shift_physical_pages(&mut ranges, 2);
    assert!(ranges.iter().all(|r| r.1 .0 >= 2));
    assert_eq!(physical_load_address(0xFFFF_8000_0040_0000, 0x40_0000, lowest), 0x80_0000);
    assert_eq!(run_page_count(2, 4), 3);
}

#[test]
fn no_loadable_segment_means_highest_address() {
    assert_eq!(lowest_load_address(&[]), u64::MAX);
}

#[test]
fn memory_sizes() {
    assert_eq!(physical_memory_end(&[(0, 16), (0x10_0000, 256), (0x1000, 1)]), 0x20_0000);
    assert_eq!(physical_memory_end(&[]), 0);
    assert_eq!(frame_bitmap_len(0x20_0000), 64);
    assert_eq!(physical_cap(0x1000, 0x8000, 0x100), 0x8100);
    assert_eq!(physical_cap(0x10000, 0x8000, 0x100), 0x10000);
    assert_eq!(gig_page_count(0), 0);
    assert_eq!(gig_page_count(1), 1);
    assert_eq!(gig_page_count(0x4000_0000), 1);
    assert_eq!(gig_page_count(0x4000_0001), 2);
}

#[test]
fn memory_types_in_use() {
    assert!(!memory_type_in_use(7));
    assert!(!memory_type_in_use(0));
    assert!(!memory_type_in_use(8));
    assert!(memory_type_in_use(1));
    assert!(memory_type_in_use(2));
}

#[test]
fn marking_frames() {
    let mut bitmap = vec![0u8; 4];
    mark_frame_used(&mut bitmap, 10);
    assert_eq!(bitmap, vec![0, 0b100, 0, 0]);
    mark_frame_used(&mut bitmap, 31);
    assert_eq!(bitmap, vec![0, 0b100, 0, 0x80]);
}

#[test]
fn pci_helpers() {
    assert!(is_xhci_controller(0x0C03_3000));
    assert!(is_xhci_controller(0x0C03_30FF));
    assert!(!is_xhci_controller(0x0C03_2000));
    assert_eq!(pci_config_address(1, 2, 3), 0x8001_1300);
    assert_eq!(base_address_from_bars(0xFEB0_0000, 0x1), 0x1_FEB0_0000);
}

#[test]
fn pager_counts_lines() {
    let mut pager = Pager::new(3);
    assert!(!pager.next());
    assert!(!pager.next());
    assert!(pager.next());
    assert_eq!(pager.count, 0);
    assert!(!pager.next());
}

#[test]
fn a_run_that_touches_no_other_stays_as_it_was() {
    let mut runs = vec![((0, 1), (0, 1)), ((5, 6), (5, 6)), ((1, 2), (1, 2)), ((8, 8), (8, 8))];
    merge_page_ranges(&mut runs);
    assert_eq!(runs.len(), 3);
    assert!(runs.contains(&((5, 6), (5, 6))));
    assert!(runs.contains(&((8, 8), (8, 8))));
    assert!(runs.contains(&((0, 2), (0, 2))));
}

#[test]
fn kernel_layout_of_an_image() {
    let d = elf_with_two_segments();
    let layout = lay_out_kernel(&d).ok().unwrap();
    let base = 0xFFFF_8000_0000_0000u64 >> 21;
    assert_eq!(layout.runs, vec![((base + 2, base + 2), (4, 4)), ((base, base + 1), (2, 3))]);
    assert_eq!(layout.physical_runs, vec![(4, 1), (2, 2)]);
    assert_eq!(layout.lowest_base, 0xFFFF_8000_0000_0000);
    assert!(matches!(lay_out_kernel(&[0x7F, 0x45]), Err(LayoutError::Unreadable)));
    assert!(matches!(lay_out_kernel(&[0u8; 64]), Err(LayoutError::NotElf)));
}
