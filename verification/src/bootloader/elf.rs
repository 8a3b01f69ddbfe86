use vstd::prelude::*;

verus! {

/// The parts of an ELF file that the loader uses.
pub struct Elf<'a> {
    pub abi: Abi,
    pub object_type: ObjectType,
    pub entry: u64,
    pub program_headers: Vec<HeaderEntry<'a>>,
    pub section_headers: Vec<SectionEntry<'a>>,
    pub flags: u32,
    pub section_name_section_index: usize,
}

/// A program header, with the bytes of the segment it describes.
pub struct HeaderEntry<'a> {
    pub entry_type: EntryType,
    pub flags: u32,
    pub data: &'a [u8],
    pub virtual_addr: u64,
    pub physical_addr: u64,
    pub mem_size: u64,
    pub align: u64,
}

/// A section header, with the bytes of the section it describes.
pub struct SectionEntry<'a> {
    pub name: &'a str,
    pub section_type: SectionType,
    pub flags: u64,
    pub data: &'a [u8],
    pub virtual_addr: u64,
    pub link: u32,
    pub info: u32,
    pub align: u64,
    pub entry_size: u64,
}

pub enum SectionType {
    Null,
    Progbits,
    Symtab,
    Strtab,
    Rela,
    Hash,
    Dynamic,
    Note,
    Nobits,
    Rel,
    Dynsym,
    InitArray,
    FiniArray,
    PreinitArray,
    Group,
    SymtabShndx,
    Num,
    Other(u32),
}

#[derive(Clone, Copy, PartialEq, Eq, Structural)]
pub enum EntryType {
    Null,
    Load,
    Dynamic,
    Interp,
    Note,
    Shlib,
    Phdr,
    Tls,
    Other,
}

pub enum Abi {
    SystemV,
    Other,
}

pub enum ObjectType {
    Null,
    Rel,
    Exec,
    Dyn,
    Core,
    Other,
}

/// The little-endian 16-bit number at offset `o`.
pub open spec fn le_u16(d: Seq<u8>, o: int) -> int {
    d[o] + 256 * d[o + 1]
}

/// The little-endian 32-bit number at offset `o`.
pub open spec fn le_u32(d: Seq<u8>, o: int) -> int {
    le_u16(d, o) + 0x1_0000 * le_u16(d, o + 2)
}

/// The little-endian 64-bit number at offset `o`.
pub open spec fn le_u64(d: Seq<u8>, o: int) -> int {
    le_u32(d, o) + 0x1_0000_0000 * le_u32(d, o + 4)
}

proof fn lemma_join_u8(lo: u8, hi: u8)
    ensures
        (lo as u16 | (hi as u16) << 8u16) == lo + 256 * hi,
{
    assert((lo as u16 | (hi as u16) << 8u16) == lo + 256 * hi) by (bit_vector);
}

proof fn lemma_join_u16(lo: u16, hi: u16)
    ensures
        (lo as u32 | (hi as u32) << 16u32) == lo + 0x1_0000 * hi,
{
    assert((lo as u32 | (hi as u32) << 16u32) == lo + 0x1_0000 * hi) by (bit_vector);
}

proof fn lemma_join_u32(lo: u32, hi: u32)
    ensures
        (lo as u64 | (hi as u64) << 32u64) == lo + 0x1_0000_0000 * hi,
{
    assert((lo as u64 | (hi as u64) << 32u64) == lo + 0x1_0000_0000 * hi) by (bit_vector);
}

/// Reads the little-endian 16-bit number at `o`.
pub fn read_u16(data: &[u8], o: usize) -> (ret: u16)
    requires
        o + 2 <= data@.len(),
    ensures
        ret == le_u16(data@, o as int),
{
    let lo = data[o];
    let hi = data[o + 1];
    proof { lemma_join_u8(lo, hi); }
    lo as u16 | (hi as u16) << 8u16
}

/// Reads the little-endian 32-bit number at `o`.
pub fn read_u32(data: &[u8], o: usize) -> (ret: u32)
    requires
        o + 4 <= data@.len(),
    ensures
        ret == le_u32(data@, o as int),
{
    let _n = data.len();
    let lo = read_u16(data, o);
    let hi = read_u16(data, o + 2);
    proof { lemma_join_u16(lo, hi); }
    lo as u32 | (hi as u32) << 16u32
}

/// Reads the little-endian 64-bit number at `o`.
pub fn read_u64(data: &[u8], o: usize) -> (ret: u64)
    requires
        o + 8 <= data@.len(),
    ensures
        ret == le_u64(data@, o as int),
{
    let _n = data.len();
    let lo = read_u32(data, o);
    let hi = read_u32(data, o + 4);
    proof { lemma_join_u32(lo, hi); }
    lo as u64 | (hi as u64) << 32u64
}

// ---------------------------------------------------------------------------
// The file header

pub open spec fn magic_ok(d: Seq<u8>) -> bool {
    d[0] == 0x7F && d[1] == 0x45 && d[2] == 0x4C && d[3] == 0x46
}

/// Whether an `e_type` value names an object type that the parser knows.
pub open spec fn object_type_known(v: int) -> bool {
    0 <= v <= 4 || 0xFE00 <= v <= 0xFFFF
}

pub open spec fn object_type_of(v: int) -> ObjectType {
    if v == 0 {
        ObjectType::Null
    } else if v == 1 {
        ObjectType::Rel
    } else if v == 2 {
        ObjectType::Exec
    } else if v == 3 {
        ObjectType::Dyn
    } else if v == 4 {
        ObjectType::Core
    } else {
        ObjectType::Other
    }
}

pub open spec fn abi_of(b: u8) -> Abi {
    if b == 0 {
        Abi::SystemV
    } else {
        Abi::Other
    }
}

/// Machine x86-64 (0x3E).
pub open spec fn machine_ok(d: Seq<u8>) -> bool {
    d[0x12] == 0x3E && d[0x13] == 0
}

/// The second version field holds 1.
pub open spec fn version_ok(d: Seq<u8>) -> bool {
    d[0x14] == 1 && d[0x15] == 0 && d[0x16] == 0 && d[0x17] == 0
}

/// The header reads stay inside the data: each field is read only once the checks
/// before it passed, so a file may end right after the first field that fails.
pub open spec fn header_in_bounds(d: Seq<u8>) -> bool {
    &&& d.len() >= 4
    &&& magic_ok(d) ==> {
        &&& d.len() >= 5
        &&& d[4] == 2 ==> {
            &&& d.len() >= 6
            &&& d[5] == 1 ==> {
                &&& d.len() >= 7
                &&& d[6] == 1 ==> {
                    &&& d.len() >= 0x12
                    &&& object_type_known(le_u16(d, 0x10)) ==> {
                        &&& d.len() >= 0x14
                        &&& machine_ok(d) ==> {
                            &&& d.len() >= 0x18
                            &&& version_ok(d) ==> {
                                &&& d.len() >= 0x36
                                &&& le_u16(d, 0x34) == 64 ==> d.len() >= 0x40
                            }
                        }
                    }
                }
            }
        }
    }
}

/// The file header describes a little-endian 64-bit x86-64 ELF file of a known type.
pub open spec fn header_ok(d: Seq<u8>) -> bool {
    &&& magic_ok(d)
    &&& d[4] == 2
    &&& d[5] == 1
    &&& d[6] == 1
    &&& object_type_known(le_u16(d, 0x10))
    &&& machine_ok(d)
    &&& version_ok(d)
    &&& le_u16(d, 0x34) == 64
}

// ---------------------------------------------------------------------------
// Program headers

pub open spec fn ph_count(d: Seq<u8>) -> int {
    le_u16(d, 0x38)
}

/// Where program header `i` starts.
pub open spec fn ph_offset(d: Seq<u8>, i: int) -> int {
    le_u64(d, 0x20) + le_u16(d, 0x36) * i
}

pub open spec fn entry_type_known(v: int) -> bool {
    0 <= v <= 7 || 0x6000_0000 <= v <= 0x7FFF_FFFF
}

pub open spec fn entry_type_of(v: int) -> EntryType {
    if v == 0 {
        EntryType::Null
    } else if v == 1 {
        EntryType::Load
    } else if v == 2 {
        EntryType::Dynamic
    } else if v == 3 {
        EntryType::Interp
    } else if v == 4 {
        EntryType::Note
    } else if v == 5 {
        EntryType::Shlib
    } else if v == 6 {
        EntryType::Phdr
    } else if v == 7 {
        EntryType::Tls
    } else {
        EntryType::Other
    }
}

pub open spec fn ph_type_ok(d: Seq<u8>, i: int) -> bool {
    entry_type_known(le_u32(d, ph_offset(d, i)))
}

/// The reads of program header `i` stay inside the data: its first sixteen bytes, and,
/// when its type is known, the whole header and the segment bytes it points to.
pub open spec fn ph_in_bounds(d: Seq<u8>, i: int) -> bool {
    let o = ph_offset(d, i);
    &&& o + 16 <= d.len()
    &&& ph_type_ok(d, i) ==> {
        &&& o + 0x38 <= d.len()
        &&& le_u64(d, o + 8) + le_u64(d, o + 0x20) <= d.len()
    }
}

pub open spec fn phs_in_bounds(d: Seq<u8>) -> bool {
    forall|i: int| 0 <= i < ph_count(d) && (forall|j: int| 0 <= j < i ==> ph_type_ok(d, j))
        ==> #[trigger] ph_in_bounds(d, i)
}

pub open spec fn phs_ok(d: Seq<u8>) -> bool {
    forall|i: int| 0 <= i < ph_count(d) ==> #[trigger] ph_type_ok(d, i)
}

/// Program header `h` holds what the header at offset `o` of `d` says.
pub open spec fn program_header_matches(h: HeaderEntry, d: Seq<u8>, o: int) -> bool {
    let start = le_u64(d, o + 8);
    &&& h.entry_type == entry_type_of(le_u32(d, o))
    &&& h.flags == le_u32(d, o + 4)
    &&& h.data@ == d.subrange(start, start + le_u64(d, o + 0x20))
    &&& h.virtual_addr == le_u64(d, o + 0x10)
    &&& h.physical_addr == le_u64(d, o + 0x18)
    &&& h.mem_size == le_u64(d, o + 0x28)
    &&& h.align == le_u64(d, o + 0x30)
}

// ---------------------------------------------------------------------------
// Section headers

pub open spec fn sh_count(d: Seq<u8>) -> int {
    le_u16(d, 0x3C)
}

/// Where section header `i` starts.
pub open spec fn sh_offset(d: Seq<u8>, i: int) -> int {
    le_u64(d, 0x28) + le_u16(d, 0x3A) * i
}

pub open spec fn section_type_known(v: int) -> bool {
    0 <= v <= 9 || v == 11 || 14 <= v <= 19 || 0x6000_0000 <= v <= 0xFFFF_FFFF
}

pub open spec fn section_type_of(v: int) -> SectionType {
    if v == 0 {
        SectionType::Null
    } else if v == 1 {
        SectionType::Progbits
    } else if v == 2 {
        SectionType::Symtab
    } else if v == 3 {
        SectionType::Strtab
    } else if v == 4 {
        SectionType::Rela
    } else if v == 5 {
        SectionType::Hash
    } else if v == 6 {
        SectionType::Dynamic
    } else if v == 7 {
        SectionType::Note
    } else if v == 8 {
        SectionType::Nobits
    } else if v == 9 {
        SectionType::Rel
    } else if v == 11 {
        SectionType::Dynsym
    } else if v == 14 {
        SectionType::InitArray
    } else if v == 15 {
        SectionType::FiniArray
    } else if v == 16 {
        SectionType::PreinitArray
    } else if v == 17 {
        SectionType::Group
    } else if v == 18 {
        SectionType::SymtabShndx
    } else if v == 19 {
        SectionType::Num
    } else {
        SectionType::Other(v as u32)
    }
}

pub open spec fn sh_type_ok(d: Seq<u8>, i: int) -> bool {
    section_type_known(le_u32(d, sh_offset(d, i) + 4))
}

/// The reads of section header `i` stay inside the data: its type field, and, when the
/// type is known, the whole header and the section bytes it points to.
pub open spec fn sh_in_bounds(d: Seq<u8>, i: int) -> bool {
    let o = sh_offset(d, i);
    &&& o + 8 <= d.len()
    &&& sh_type_ok(d, i) ==> {
        &&& o + 0x40 <= d.len()
        &&& le_u64(d, o + 0x18) + le_u64(d, o + 0x20) <= d.len()
    }
}

pub open spec fn shs_in_bounds(d: Seq<u8>) -> bool {
    forall|i: int| 0 <= i < sh_count(d) && (forall|j: int| 0 <= j < i ==> sh_type_ok(d, j))
        ==> #[trigger] sh_in_bounds(d, i)
}

pub open spec fn shs_ok(d: Seq<u8>) -> bool {
    forall|i: int| 0 <= i < sh_count(d) ==> #[trigger] sh_type_ok(d, i)
}

/// Section header `h` holds what the header at offset `o` of `d` says; its name is empty.
pub open spec fn section_header_matches(h: SectionEntry, d: Seq<u8>, o: int) -> bool {
    let start = le_u64(d, o + 0x18);
    &&& h.name@ == Seq::<char>::empty()
    &&& h.section_type == section_type_of(le_u32(d, o + 4))
    &&& h.flags == le_u64(d, o + 8)
    &&& h.data@ == d.subrange(start, start + le_u64(d, o + 0x20))
    &&& h.virtual_addr == le_u64(d, o + 0x10)
    &&& h.link == le_u32(d, o + 0x28)
    &&& h.info == le_u32(d, o + 0x2C)
    &&& h.align == le_u64(d, o + 0x30)
    &&& h.entry_size == le_u64(d, o + 0x38)
}

// ---------------------------------------------------------------------------
// The whole file

/// Every read that parsing makes stays inside the data, given that parsing stops at the
/// first check that fails.
pub open spec fn parse_in_bounds(d: Seq<u8>) -> bool {
    &&& header_in_bounds(d)
    &&& header_ok(d) ==> {
        &&& phs_in_bounds(d)
        &&& phs_ok(d) ==> shs_in_bounds(d)
    }
}

/// Whether the data is an ELF file that the loader accepts.
pub open spec fn elf_ok(d: Seq<u8>) -> bool {
    header_ok(d) && phs_ok(d) && shs_ok(d)
}

/// The parsed file holds what the data says.
pub open spec fn elf_matches(elf: Elf, d: Seq<u8>) -> bool {
    &&& elf.abi == abi_of(d[7])
    &&& elf.object_type == object_type_of(le_u16(d, 0x10))
    &&& elf.entry == le_u64(d, 0x18)
    &&& elf.flags == le_u32(d, 0x30)
    &&& elf.section_name_section_index == le_u16(d, 0x3E)
    &&& elf.program_headers@.len() == ph_count(d)
    &&& forall|i: int| 0 <= i < ph_count(d) ==> program_header_matches(
        #[trigger] elf.program_headers@[i], d, ph_offset(d, i))
    &&& elf.section_headers@.len() == sh_count(d)
    &&& forall|i: int| 0 <= i < sh_count(d) ==> section_header_matches(
        #[trigger] elf.section_headers@[i], d, sh_offset(d, i))
}

/// The object type follows the ELF standard's `e_type` numbering: 0 none, 1
/// relocatable, 2 executable, 3 shared object (position-independent), 4 core file;
/// any other value is another type.
pub proof fn lemma_object_type_numbering(elf: Elf, d: Seq<u8>)
    requires
        elf_matches(elf, d),
    ensures
        le_u16(d, 0x10) == 0 ==> elf.object_type == ObjectType::Null,
        le_u16(d, 0x10) == 1 ==> elf.object_type == ObjectType::Rel,
        le_u16(d, 0x10) == 2 ==> elf.object_type == ObjectType::Exec,
        le_u16(d, 0x10) == 3 ==> elf.object_type == ObjectType::Dyn,
        le_u16(d, 0x10) == 4 ==> elf.object_type == ObjectType::Core,
        le_u16(d, 0x10) > 4 ==> elf.object_type == ObjectType::Other,
{
}

fn entry_type_from(v: u32) -> (ret: Option<EntryType>)
    ensures
        ret is Some <==> entry_type_known(v as int),
        ret matches Some(t) ==> t == entry_type_of(v as int),
{
    match v {
        0 => Some(EntryType::Null),
        1 => Some(EntryType::Load),
        2 => Some(EntryType::Dynamic),
        3 => Some(EntryType::Interp),
        4 => Some(EntryType::Note),
        5 => Some(EntryType::Shlib),
        6 => Some(EntryType::Phdr),
        7 => Some(EntryType::Tls),
        0x6000_0000..=0x7FFF_FFFF => Some(EntryType::Other),
        _ => None,
    }
}

fn section_type_from(v: u32) -> (ret: Option<SectionType>)
    ensures
        ret is Some <==> section_type_known(v as int),
        ret matches Some(t) ==> t == section_type_of(v as int),
{
    match v {
        0 => Some(SectionType::Null),
        1 => Some(SectionType::Progbits),
        2 => Some(SectionType::Symtab),
        3 => Some(SectionType::Strtab),
        4 => Some(SectionType::Rela),
        5 => Some(SectionType::Hash),
        6 => Some(SectionType::Dynamic),
        7 => Some(SectionType::Note),
        8 => Some(SectionType::Nobits),
        9 => Some(SectionType::Rel),
        11 => Some(SectionType::Dynsym),
        14 => Some(SectionType::InitArray),
        15 => Some(SectionType::FiniArray),
        16 => Some(SectionType::PreinitArray),
        17 => Some(SectionType::Group),
        18 => Some(SectionType::SymtabShndx),
        19 => Some(SectionType::Num),
        o @ 0x6000_0000..=0xFFFF_FFFF => Some(SectionType::Other(o)),
        _ => None,
    }
}

fn object_type_from(v: u16) -> (ret: Option<ObjectType>)
    ensures
        ret is Some <==> object_type_known(v as int),
        ret matches Some(t) ==> t == object_type_of(v as int),
{
    match v {
        0 => Some(ObjectType::Null),
        1 => Some(ObjectType::Rel),
        2 => Some(ObjectType::Exec),
        3 => Some(ObjectType::Dyn),
        4 => Some(ObjectType::Core),
        0xFE00..=0xFFFF => Some(ObjectType::Other),
        _ => None,
    }
}

/// Reads the program header at `offset`; `None` when its type is not one the loader knows.
fn parse_program_header<'a>(data: &'a [u8], offset: usize) -> (ret: Option<HeaderEntry<'a>>)
    requires
        offset + 16 <= data@.len(),
        entry_type_known(le_u32(data@, offset as int)) ==> {
            &&& offset + 0x38 <= data@.len()
            &&& le_u64(data@, offset + 8) + le_u64(data@, offset + 0x20) <= data@.len()
        },
    ensures
        ret is Some <==> entry_type_known(le_u32(data@, offset as int)),
        ret matches Some(h) ==> program_header_matches(h, data@, offset as int),
{
    let _n = data.len();
    let data_offset = read_u64(data, offset + 0x8);
    let entry_type = match entry_type_from(read_u32(data, offset)) {
        Some(t) => t,
        None => return None,
    };
    let flags = read_u32(data, offset + 0x4);
    let virtual_addr = read_u64(data, offset + 0x10);
    let physical_addr = read_u64(data, offset + 0x18);
    let file_size = read_u64(data, offset + 0x20);
    let mem_size = read_u64(data, offset + 0x28);
    let align = read_u64(data, offset + 0x30);
    let _n = data.len();
    Some(HeaderEntry {
        entry_type,
        flags,
        data: &data[data_offset as usize..(data_offset + file_size) as usize],
        virtual_addr,
        physical_addr,
        mem_size,
        align,
    })
}

/// Reads the section header at `offset`; `None` when its type is not one the loader knows.
fn parse_section_header<'a>(data: &'a [u8], offset: usize) -> (ret: Option<SectionEntry<'a>>)
    requires
        offset + 8 <= data@.len(),
        section_type_known(le_u32(data@, offset + 4)) ==> {
            &&& offset + 0x40 <= data@.len()
            &&& le_u64(data@, offset + 0x18) + le_u64(data@, offset + 0x20) <= data@.len()
        },
    ensures
        ret is Some <==> section_type_known(le_u32(data@, offset + 4)),
        ret matches Some(h) ==> section_header_matches(h, data@, offset as int),
{
    let _n = data.len();
    let section_type = match section_type_from(read_u32(data, offset + 4)) {
        Some(t) => t,
        None => return None,
    };
    let flags = read_u64(data, offset + 0x8);
    let virtual_addr = read_u64(data, offset + 0x10);
    let data_offset = read_u64(data, offset + 0x18);
    let file_size = read_u64(data, offset + 0x20);
    let link = read_u32(data, offset + 0x28);
    let info = read_u32(data, offset + 0x2C);
    let align = read_u64(data, offset + 0x30);
    let entry_size = read_u64(data, offset + 0x38);
    let _n = data.len();
    let name = "";
    proof {
        reveal_strlit("");
        assert(name@ =~= Seq::<char>::empty());
    }
    Some(SectionEntry {
        name,
        section_type,
        flags,
        data: &data[data_offset as usize..(data_offset + file_size) as usize],
        virtual_addr,
        link,
        info,
        align,
        entry_size,
    })
}

proof fn lemma_table_offset_bound(size: u64, i: u64)
    requires
        size < 0x1_0000,
        i < 0x1_0000,
    ensures
        size * i < 0x1_0000_0000,
{
    assert(size * i < 0x1_0000_0000) by (nonlinear_arith)
        requires
            size < 0x1_0000,
            i < 0x1_0000,
    ;
}

impl<'a> Elf<'a> {
    /// Parses a little-endian 64-bit x86-64 ELF file: its header, its program headers
    /// and its section headers. Fails on a header that is not of that kind, and on a
    /// program or section header of an unknown type.
    pub fn parse(data: &'a [u8]) -> (ret: Result<Elf<'a>, ()>)
        requires
            parse_in_bounds(data@),
        ensures
            ret is Ok <==> elf_ok(data@),
            ret matches Ok(elf) ==> elf_matches(elf, data@),
    {
        let ghost d = data@;
        let _n = data.len();
        // Magic
        if !(data[0] == 0x7F && data[1] == 0x45 && data[2] == 0x4C && data[3] == 0x46) {
            return Err(());
        }
        // 32- or 64-bit
        if data[4] != 2 {
            return Err(());
        }
        // Endianness
        if data[5] != 1 {
            return Err(());
        }
        // Version
        if data[6] != 1 {
            return Err(());
        }
        let abi = if data[7] == 0 {
            Abi::SystemV
        } else {
            Abi::Other
        };
        let object_type = match object_type_from(read_u16(data, 0x10)) {
            Some(t) => t,
            None => return Err(()),
        };
        // Machine
        if !(data[0x12] == 0x3E && data[0x13] == 0) {
            return Err(());
        }
        // Version, again
        if !(data[0x14] == 1 && data[0x15] == 0 && data[0x16] == 0 && data[0x17] == 0) {
            return Err(());
        }
        let entry = read_u64(data, 0x18);
        let program_headers_offset = read_u64(data, 0x20);
        let section_headers_offset = read_u64(data, 0x28);
        let flags = read_u32(data, 0x30);
        // File header size
        if read_u16(data, 0x34) != 64 {
            return Err(());
        }
        let program_header_size = read_u16(data, 0x36) as u64;
        let program_header_count = read_u16(data, 0x38) as u64;
        let section_header_size = read_u16(data, 0x3A) as u64;
        let section_header_count = read_u16(data, 0x3C) as u64;
        let section_name_section_index = read_u16(data, 0x3E) as usize;
        assert(header_ok(d));

        let mut program_headers: Vec<HeaderEntry<'a>> = Vec::with_capacity(program_header_count as usize);
        let mut i: u64 = 0;
        while i < program_header_count
            invariant
                d == data@,
                d.len() <= usize::MAX,
                i <= program_header_count,
                program_header_count == ph_count(d),
                program_header_size == le_u16(d, 0x36),
                program_headers_offset == le_u64(d, 0x20),
                phs_in_bounds(d),
                program_headers@.len() == i,
                forall|j: int| 0 <= j < i ==> #[trigger] ph_type_ok(d, j),
                forall|j: int| 0 <= j < i ==> program_header_matches(#[trigger] program_headers@[j], d, ph_offset(d, j)),
            decreases program_header_count - i,
        {
            assert(ph_in_bounds(d, i as int));
            proof { lemma_table_offset_bound(program_header_size, i); }
            let offset = program_headers_offset + program_header_size * i;
            let offset = offset as usize;
            match parse_program_header(data, offset) {
                Some(h) => program_headers.push(h),
                None => {
                    assert(!ph_type_ok(d, i as int));
                    return Err(());
                },
            }
            i = i + 1;
        }
        assert(phs_ok(d));

        let mut section_headers: Vec<SectionEntry<'a>> = Vec::with_capacity(section_header_count as usize);
        let mut i: u64 = 0;
        while i < section_header_count
            invariant
                d == data@,
                d.len() <= usize::MAX,
                i <= section_header_count,
                section_header_count == sh_count(d),
                section_header_size == le_u16(d, 0x3A),
                section_headers_offset == le_u64(d, 0x28),
                shs_in_bounds(d),
                section_headers@.len() == i,
                forall|j: int| 0 <= j < i ==> #[trigger] sh_type_ok(d, j),
                forall|j: int| 0 <= j < i ==> section_header_matches(#[trigger] section_headers@[j], d, sh_offset(d, j)),
            decreases section_header_count - i,
        {
            assert(sh_in_bounds(d, i as int));
            proof { lemma_table_offset_bound(section_header_size, i); }
            let offset = section_headers_offset + section_header_size * i;
            let offset = offset as usize;
            match parse_section_header(data, offset) {
                Some(h) => section_headers.push(h),
                None => {
                    assert(!sh_type_ok(d, i as int));
                    return Err(());
                },
            }
            i = i + 1;
        }

        Ok(Elf {
            abi,
            object_type,
            entry,
            program_headers,
            section_headers,
            flags,
            section_name_section_index,
        })
    }
}


impl<'a> Elf<'a> {
    /// Whether `parse` reads only inside `data` (see `parse_in_bounds`): a file that
    /// ends before a field that parsing reads makes parsing fail with an index out
    /// of range, so a caller checks this first.
    pub fn readable(data: &[u8]) -> (ret: bool)
        ensures
            ret == parse_in_bounds(data@),
    {
        let ghost d = data@;
        let n = data.len();
        if n < 4 {
            return false;
        }
        if !(data[0] == 0x7F && data[1] == 0x45 && data[2] == 0x4C && data[3] == 0x46) {
            return true;
        }
        if n < 5 {
            return false;
        }
        if data[4] != 2 {
            return true;
        }
        if n < 6 {
            return false;
        }
        if data[5] != 1 {
            return true;
        }
        if n < 7 {
            return false;
        }
        if data[6] != 1 {
            return true;
        }
        if n < 0x12 {
            return false;
        }
        if object_type_from(read_u16(data, 0x10)).is_none() {
            return true;
        }
        if n < 0x14 {
            return false;
        }
        if !(data[0x12] == 0x3E && data[0x13] == 0) {
            return true;
        }
        if n < 0x18 {
            return false;
        }
        if !(data[0x14] == 1 && data[0x15] == 0 && data[0x16] == 0 && data[0x17] == 0) {
            return true;
        }
        if n < 0x36 {
            return false;
        }
        if read_u16(data, 0x34) != 64 {
            return true;
        }
        if n < 0x40 {
            return false;
        }
        assert(header_in_bounds(d));
        assert(header_ok(d));
        let ph_offset0 = read_u64(data, 0x20);
        let ph_size = read_u16(data, 0x36);
        let ph_total = read_u16(data, 0x38);
        let mut i: u16 = 0;
        while i < ph_total
            invariant
                d == data@,
                n == d.len(),
                header_ok(d),
                header_in_bounds(d),
                ph_total == ph_count(d),
                ph_size == le_u16(d, 0x36),
                ph_offset0 == le_u64(d, 0x20),
                i <= ph_total,
                forall|j: int| 0 <= j < i ==> #[trigger] ph_type_ok(d, j) && ph_in_bounds(d, j),
            decreases ph_total - i,
        {
            assert(ph_size as u128 * i as u128 <= 0xFFFF * 0xFFFF) by (nonlinear_arith)
                requires
                    ph_size <= 0xFFFF,
                    i <= 0xFFFF,
            ;
            let o: u128 = ph_offset0 as u128 + ph_size as u128 * i as u128;
            assert(o == ph_offset(d, i as int));
            if o + 16 > n as u128 {
                assert(!ph_in_bounds(d, i as int));
                assert(!phs_in_bounds(d));
                return false;
            }
            let oo = o as usize;
            let t = read_u32(data, oo);
            if entry_type_from(t).is_none() {
                assert(!ph_type_ok(d, i as int));
                assert(phs_in_bounds(d)) by {
                    assert forall|k: int| 0 <= k < ph_count(d) && (forall|j: int| 0 <= j < k ==> ph_type_ok(d, j))
                        implies #[trigger] ph_in_bounds(d, k) by {
                        if k > i {
                            assert(!ph_type_ok(d, i as int));
                        } else if k < i {
                            assert(ph_type_ok(d, k) && ph_in_bounds(d, k));
                        } else {
                            assert(o == ph_offset(d, k));
                        }
                    }
                }
                assert(!phs_ok(d));
                return true;
            }
            if o + 0x38 > n as u128 {
                assert(!ph_in_bounds(d, i as int));
                assert(!phs_in_bounds(d));
                return false;
            }
            let start = read_u64(data, oo + 8);
            let len = read_u64(data, oo + 0x20);
            if start as u128 + len as u128 > n as u128 {
                assert(!ph_in_bounds(d, i as int));
                assert(!phs_in_bounds(d));
                return false;
            }
            i = i + 1;
        }
        assert(phs_in_bounds(d)) by {
            assert forall|k: int| 0 <= k < ph_count(d) && (forall|j: int| 0 <= j < k ==> ph_type_ok(d, j)) implies #[trigger] ph_in_bounds(
                d,
                k,
            ) by {
                assert(ph_type_ok(d, k) && ph_in_bounds(d, k));
            }
        }
        assert(phs_ok(d)) by {
            assert forall|k: int| 0 <= k < ph_count(d) implies #[trigger] ph_type_ok(d, k) by {
                assert(ph_type_ok(d, k) && ph_in_bounds(d, k));
            }
        }
        let sh_offset0 = read_u64(data, 0x28);
        let sh_size = read_u16(data, 0x3A);
        let sh_total = read_u16(data, 0x3C);
        let mut i: u16 = 0;
        while i < sh_total
            invariant
                d == data@,
                n == d.len(),
                header_ok(d),
                header_in_bounds(d),
                phs_in_bounds(d),
                phs_ok(d),
                sh_total == sh_count(d),
                sh_size == le_u16(d, 0x3A),
                sh_offset0 == le_u64(d, 0x28),
                i <= sh_total,
                forall|j: int| 0 <= j < i ==> #[trigger] sh_type_ok(d, j) && sh_in_bounds(d, j),
            decreases sh_total - i,
        {
            assert(sh_size as u128 * i as u128 <= 0xFFFF * 0xFFFF) by (nonlinear_arith)
                requires
                    sh_size <= 0xFFFF,
                    i <= 0xFFFF,
            ;
            let o: u128 = sh_offset0 as u128 + sh_size as u128 * i as u128;
            assert(o == sh_offset(d, i as int));
            if o + 8 > n as u128 {
                assert(!sh_in_bounds(d, i as int));
                assert(!shs_in_bounds(d));
                return false;
            }
            let oo = o as usize;
            let t = read_u32(data, oo + 4);
            if section_type_from(t).is_none() {
                assert(!sh_type_ok(d, i as int));
                assert(shs_in_bounds(d)) by {
                    assert forall|k: int| 0 <= k < sh_count(d) && (forall|j: int| 0 <= j < k ==> sh_type_ok(d, j))
                        implies #[trigger] sh_in_bounds(d, k) by {
                        if k > i {
                            assert(!sh_type_ok(d, i as int));
                        } else if k < i {
                            assert(sh_type_ok(d, k) && sh_in_bounds(d, k));
                        } else {
                            assert(o == sh_offset(d, k));
                        }
                    }
                }
                return true;
            }
            if o + 0x40 > n as u128 {
                assert(!sh_in_bounds(d, i as int));
                assert(!shs_in_bounds(d));
                return false;
            }
            let start = read_u64(data, oo + 0x18);
            let len = read_u64(data, oo + 0x20);
            if start as u128 + len as u128 > n as u128 {
                assert(!sh_in_bounds(d, i as int));
                assert(!shs_in_bounds(d));
                return false;
            }
            i = i + 1;
        }
        assert(shs_in_bounds(d)) by {
            assert forall|k: int| 0 <= k < sh_count(d) && (forall|j: int| 0 <= j < k ==> sh_type_ok(d, j)) implies #[trigger] sh_in_bounds(
                d,
                k,
            ) by {
                assert(sh_type_ok(d, k) && sh_in_bounds(d, k));
            }
        }
        true
    }
}

} // verus!
