pub mod bootloader;
pub mod common;
pub mod kernel;
pub mod paging;
pub mod tools;
