pub mod text;
pub mod writer;

use vstd::prelude::*;

verus! {

/// A linear framebuffer: the address of its first pixel, its visible size in pixels,
/// and the number of pixels from one row to the next.
#[derive(Clone, Copy)]
pub struct Framebuffer {
    pub ptr: usize,
    pub resolution_x: usize,
    pub resolution_y: usize,
    pub stride: usize,
}

impl Framebuffer {
    pub fn new(ptr: usize, resolution: (usize, usize), stride: usize) -> (ret: Self)
        ensures
            ret.ptr == ptr,
            ret.resolution_x == resolution.0,
            ret.resolution_y == resolution.1,
            ret.stride == stride,
    {
        Self { ptr, resolution_x: resolution.0, resolution_y: resolution.1, stride }
    }

    /// The visible size, width first.
    pub fn resolution(&self) -> (ret: (usize, usize))
        ensures
            ret == (self.resolution_x, self.resolution_y),
    {
        (self.resolution_x, self.resolution_y)
    }
}

/// What the bootloader hands the kernel, in the form that crosses the boundary
/// between them: the frame bitmap as an address and a length.
pub struct MachineInfoC {
    pub framebuffer: Framebuffer,
    pub xhci_base: u64,
    pub allocated_frames_len: usize,
    pub allocated_frames_ptr: usize,
}

/// What the bootloader hands the kernel: the framebuffer, the base address of the
/// USB 3 controller, and the bitmap of physical frames in use.
pub struct MachineInfo {
    pub framebuffer: Framebuffer,
    pub xhci_base: u64,
    pub allocated_frames: Vec<u8>,
}

} // verus!
