use osdev::bootloader::paging::map_physical_window;
use osdev::bootloader::paging::identity_map_in_use;
use osdev::bootloader::paging::map_kernel_runs;
use osdev::bootloader::paging::{
    huge_page_entry, huge_page_indices, idx2virt, is_mapped, kernel_window, unmapped_level, PageAllocator,
};
use osdev::bootloader::utf16::to_utf16;
use osdev::kernel::memory::Mapper;
use osdev::tools::fontconv::font_from_luma;
use x86_64::structures::paging::PageTable;

#[test]
fn page_allocator_hands_out_frames_in_order() {
    let mut a = PageAllocator::new(0x10_0000, 20);
    assert_eq!(a.allocate_frame(), Some(0x10_0000));
    assert_eq!(a.allocate_frame(), Some(0x10_1000));
    // Of three bitmap bytes, the last is never searched: 16 frames in all.
    for k in 2..16u64 {
        assert_eq!(a.allocate_frame(), Some(0x10_0000 + k * 0x1000));
    }
    assert_eq!(a.allocate_frame(), None);
}

#[test]
fn page_allocator_ownership_counts_down_from_the_buffer() {
    let a = PageAllocator::new(0x10_0000, 4);
    assert!(a.owns(0x10_0000));
    assert!(a.owns(0x10_0000 - 3 * 4096));
    assert!(!a.owns(0x10_0000 - 4 * 4096));
}

#[test]
fn page_allocator_frees_by_absolute_page() {
    let mut a = PageAllocator::new(0, 16);
    assert_eq!(a.allocate_frame(), Some(0));
    assert_eq!(a.allocate_frame(), Some(0x1000));
    a.deallocate_frame(0x1000);
    assert_eq!(a.allocate_frame(), Some(0x1000));
}

#[test]
fn bootloader_mapping() {
    let mut tables = PageAllocator::new(0x10_0000, 64);
    let l4 = tables.allocate_frame().unwrap();
    let mut pml4 = Mapper::new(PageTable::new(), l4);
    assert!(!is_mapped(&pml4, 0x40_0000));
    assert_eq!(unmapped_level(&pml4, 0x40_0000), Some(4));
    assert_eq!(osdev::bootloader::paging::map(&mut pml4, &mut tables, 0x40_0000, 0x80_0000), Ok(()));
    assert!(is_mapped(&pml4, 0x40_0000));
    assert_eq!(unmapped_level(&pml4, 0x40_0000), None);
    assert_eq!(unmapped_level(&pml4, 0x40_1000), Some(1));
    assert_eq!(unmapped_level(&pml4, 0x60_0000), Some(2));
    assert_eq!(unmapped_level(&pml4, 0x4000_0000), Some(3));
    assert_eq!(osdev::bootloader::paging::map(&mut pml4, &mut tables, 0x40_0000, 0x90_0000), Err("Trying to map to already existing page"));
    assert_eq!(pml4.get_physical(0x40_0000), Ok(0x80_0000));
}

#[test]
fn huge_pages_and_the_kernel_window() {
    let vpage = 0xFFFF_8000_0040_0000u64 >> 21;
    assert_eq!(huge_page_indices(vpage), (256, 0, 2));
    assert_eq!(huge_page_entry(3), 3 * 0x20_0000 | 0x83);
    assert_eq!(idx2virt(0, 1, 2, 0), (1 << 30) | (2 << 21));
    assert_eq!(idx2virt(511, 0, 0, 0), 0xFFFF_FF80_0000_0000);
    assert_eq!(kernel_window(0x8000_0000), 0xFFFF_FF80_8000_0000);
}

#[test]
fn strings_as_ucs2() {
    let units = to_utf16("kernel.elf", 10);
    let expected: Vec<u16> = "kernel.elf".chars().map(|c| c as u16).collect();
    assert_eq!(units, expected);
    assert_eq!(to_utf16("å", 3), vec![0xE5, 0, 0]);
}

#[test]
fn font_from_an_image() {
    // Glyph 17 (row 1, column 1 of the image) has its top-left pixel dark.
    let mut luma = vec![255u8; 128 * 128];
    luma[16 * 128 + 8] = 0;
    luma[0] = 24;
    luma[1] = 25;
    let font = font_from_luma(&luma);
    assert_eq!(font.len(), 16384);
    assert_eq!(font[17 * 128], 0xFF);
    assert_eq!(font[0], 0xFF);
    assert_eq!(font[1], 0x00);
    assert_eq!(font.iter().filter(|&&b| b == 0xFF).count(), 2);
}

#[test]
fn physical_window_maps_each_gigabyte_page_by_page() {
    let mut tables = PageAllocator::new(0x10_0000, 64);
    let l4 = tables.allocate_frame().unwrap();
    let mut pml4 = Mapper::new(PageTable::new(), l4);
    assert_eq!(map_physical_window(&mut pml4, &mut tables, 1), Ok(()));
    // One level-3 and one level-2 table: 512 huge pages for the first GiB.
    assert_eq!(pml4.tables.len(), 3);
    assert!(pml4.is_mapped(0xFFFF_FF80_0000_0000));
    assert!(pml4.is_mapped(0xFFFF_FF80_3FFF_F000));
    assert!(!pml4.is_mapped(0xFFFF_FF80_4000_0000));
    // Mapping the window again finds its pages taken.
    assert_eq!(
        map_physical_window(&mut pml4, &mut tables, 1),
        Err(osdev::bootloader::paging::BuildError::PageMappedTwice { virt: 0xFFFF_FF80_0000_0000 })
    );
}

#[test]
fn used_memory_is_identity_mapped_and_marked() {
    let mut tables = PageAllocator::new(0x10_0000, 64);
    let l4 = tables.allocate_frame().unwrap();
    let mut pml4 = Mapper::new(PageTable::new(), l4);
    let mut frames = vec![0u8; 4];
    let regions = vec![(0x1000u64, 2u64, 1u32), (0x8000u64, 1u64, 7u32)];
    assert_eq!(identity_map_in_use(&mut pml4, &mut tables, &regions, &mut frames), Ok(()));
    assert_eq!(frames, vec![0b0000_0110, 0, 0, 0]);
    assert_eq!(pml4.get_physical(0x1000), Ok(0x1000));
    assert_eq!(pml4.get_physical(0x2000), Ok(0x2000));
    assert!(!pml4.is_mapped(0x8000));
    // A page the bitmap has no bit for stops the mapping.
    let regions = vec![(0x40_0000u64, 1u64, 1u32)];
    assert_eq!(
        identity_map_in_use(&mut pml4, &mut tables, &regions, &mut frames),
        Err(osdev::bootloader::paging::BuildError::BitmapTooShort { page: 0x400 })
    );
}

#[test]
fn kernel_runs_map_virtual_to_physical_pages() {
    let mut tables = PageAllocator::new(0x10_0000, 64);
    let l4 = tables.allocate_frame().unwrap();
    let mut pml4 = Mapper::new(PageTable::new(), l4);
    let base = 0xFFFF_8000_0000_0000u64 >> 21;
    let runs = vec![((base, base + 1), (2, 3))];
    assert_eq!(map_kernel_runs(&mut pml4, &mut tables, &runs), Ok(()));
    assert!(pml4.is_mapped(0xFFFF_8000_0000_0000));
    assert!(pml4.is_mapped(0xFFFF_8000_003F_F000));
    assert!(!pml4.is_mapped(0xFFFF_8000_0040_0000));
    assert_eq!(
        map_kernel_runs(&mut pml4, &mut tables, &runs),
        Err(osdev::bootloader::paging::BuildError::PageMappedTwice { virt: 0xFFFF_8000_0000_0000 })
    );
}
