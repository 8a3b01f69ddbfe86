pub mod elf;
pub mod loader;
pub mod writer;
pub mod paging;
pub mod utf16;
