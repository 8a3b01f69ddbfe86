pub mod graphics;
pub mod memory;
pub mod ps2;
pub mod spinlock;
pub mod pata;
pub mod usb;
pub mod writer;
pub mod pic;
