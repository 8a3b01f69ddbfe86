//! The kernel's early console: the same text console as the bootloader's, on the
//! framebuffer that the bootloader hands over.
pub use crate::bootloader::writer::{Writer, clear, init, write_char, write_str};
