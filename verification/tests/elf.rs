use osdev::bootloader::elf::{Abi, Elf, EntryType, ObjectType};

fn put16(d: &mut Vec<u8>, o: usize, v: u16) {
    d[o..o + 2].copy_from_slice(&v.to_le_bytes());
}

fn put32(d: &mut Vec<u8>, o: usize, v: u32) {
    d[o..o + 4].copy_from_slice(&v.to_le_bytes());
}

fn put64(d: &mut Vec<u8>, o: usize, v: u64) {
    d[o..o + 8].copy_from_slice(&v.to_le_bytes());
}

/// A 64-bit x86-64 executable with one loadable segment of eight bytes and no
/// section headers.
fn sample_elf() -> Vec<u8> {
    let mut d = vec![0u8; 128];
    d[0..4].copy_from_slice(&[0x7F, 0x45, 0x4C, 0x46]);
    d[4] = 2;
    d[5] = 1;
    d[6] = 1;
    d[7] = 0;
    put16(&mut d, 0x10, 2);
    put16(&mut d, 0x12, 0x3E);
    put32(&mut d, 0x14, 1);
    put64(&mut d, 0x18, 0xFFFF_8000_0000_1000);
    put64(&mut d, 0x20, 64);
    put64(&mut d, 0x28, 0);
    put32(&mut d, 0x30, 7);
    put16(&mut d, 0x34, 64);
    put16(&mut d, 0x36, 56);
    put16(&mut d, 0x38, 1);
    put16(&mut d, 0x3A, 64);
    put16(&mut d, 0x3C, 0);
    put16(&mut d, 0x3E, 0);
    // Program header at 64.
    put32(&mut d, 64, 1);
    put32(&mut d, 68, 5);
    put64(&mut d, 72, 120);
    put64(&mut d, 80, 0xFFFF_8000_0000_0000);
    put64(&mut d, 88, 0x20_0000);
    put64(&mut d, 96, 8);
    put64(&mut d, 104, 0x1000);
    put64(&mut d, 112, 0x20_0000);
    d[120..128].copy_from_slice(&[1, 2, 3, 4, 5, 6, 7, 8]);
    d
}

#[test]
fn parses_header_and_segment() {
    let d = sample_elf();
    let elf = Elf::parse(&d).unwrap();
    assert!(matches!(elf.abi, Abi::SystemV));
    assert!(matches!(elf.object_type, ObjectType::Exec));
    assert_eq!(elf.entry, 0xFFFF_8000_0000_1000);
    assert_eq!(elf.flags, 7);
    assert_eq!(elf.section_name_section_index, 0);
    assert_eq!(elf.program_headers.len(), 1);
    assert_eq!(elf.section_headers.len(), 0);
    let ph = &elf.program_headers[0];
    assert!(ph.entry_type == EntryType::Load);
    assert_eq!(ph.flags, 5);
    assert_eq!(ph.data, &[1, 2, 3, 4, 5, 6, 7, 8]);
    assert_eq!(ph.virtual_addr, 0xFFFF_8000_0000_0000);
    assert_eq!(ph.physical_addr, 0x20_0000);
    assert_eq!(ph.mem_size, 0x1000);
    assert_eq!(ph.align, 0x20_0000);
}

#[test]
fn refuses_bad_magic() {
    let mut d = sample_elf();
    d[1] = b'F';
    assert!(Elf::parse(&d).is_err());
}

#[test]
fn refuses_32_bit_and_big_endian_files() {
    let mut d = sample_elf();
    d[4] = 1;
    assert!(Elf::parse(&d).is_err());
    let mut d = sample_elf();
    d[5] = 2;
    assert!(Elf::parse(&d).is_err());
}

#[test]
fn refuses_unknown_program_header_type() {
    let mut d = sample_elf();
    put32(&mut d, 64, 9);
    assert!(Elf::parse(&d).is_err());
}

#[test]
fn other_abi_and_os_specific_segment_types() {
    let mut d = sample_elf();
    d[7] = 3;
    put32(&mut d, 64, 0x6474_E551);
    let elf = Elf::parse(&d).unwrap();
    assert!(matches!(elf.abi, Abi::Other));
    assert!(elf.program_headers[0].entry_type == EntryType::Other);
}

#[test]
fn readable_files() {
    let d = sample_elf();
    assert!(Elf::readable(&d));
    // A file that ends inside the segment it describes.
    assert!(!Elf::readable(&d[..127]));
    // A file that ends inside the header.
    assert!(!Elf::readable(&d[..40]));
    assert!(!Elf::readable(&d[..3]));
    // A file that is not ELF is read only as far as the magic.
    assert!(Elf::readable(&[0u8, 1, 2, 3]));
}
