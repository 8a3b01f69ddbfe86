use vstd::prelude::*;

use super::register::Register;

verus! {

/// A transfer request block: a parameter, a status and a control word.
pub struct TrbTemplate {
    pub parameter: u64,
    pub status: u32,
    pub control: u32,
}

/// The device context base address array for 32-byte contexts: the scratchpad
/// buffer array's address and one slot per device.
pub struct Dcbaa32 {
    pub scratchpad_bufer_addr: usize,
    pub device_contexts: Vec<Option<Box<DeviceContext32>>>,
}

impl Dcbaa32 {
    /// An array with no scratchpad buffers and 255 empty device slots.
    pub fn new() -> (ret: Self)
        ensures
            ret.scratchpad_bufer_addr == 0,
            ret.device_contexts@.len() == 255,
            forall|i: int| 0 <= i < 255 ==> #[trigger] ret.device_contexts@[i] is None,
    {
        let mut device_contexts: Vec<Option<Box<DeviceContext32>>> = Vec::new();
        let mut i: usize = 0;
        while i < 255
            invariant
                i <= 255,
                device_contexts@.len() == i,
                forall|k: int| 0 <= k < i ==> #[trigger] device_contexts@[k] is None,
            decreases 255 - i,
        {
            device_contexts.push(None);
            i = i + 1;
        }
        Self { scratchpad_bufer_addr: 0, device_contexts }
    }
}

/// The device context base address array for 64-byte contexts.
pub struct Dcbaa64 {
    pub scratchpad_bufer_addr: usize,
    pub device_contexts: Vec<Option<Box<DeviceContext64>>>,
}

impl Dcbaa64 {
    /// An array with no scratchpad buffers and 255 empty device slots.
    pub fn new() -> (ret: Self)
        ensures
            ret.scratchpad_bufer_addr == 0,
            ret.device_contexts@.len() == 255,
            forall|i: int| 0 <= i < 255 ==> #[trigger] ret.device_contexts@[i] is None,
    {
        let mut device_contexts: Vec<Option<Box<DeviceContext64>>> = Vec::new();
        let mut i: usize = 0;
        while i < 255
            invariant
                i <= 255,
                device_contexts@.len() == i,
                forall|k: int| 0 <= k < i ==> #[trigger] device_contexts@[k] is None,
            decreases 255 - i,
        {
            device_contexts.push(None);
            i = i + 1;
        }
        Self { scratchpad_bufer_addr: 0, device_contexts }
    }
}

/// A device context base address array of either context size.
pub trait DcbaaWrapper {}

impl DcbaaWrapper for Dcbaa32 {}

impl DcbaaWrapper for Dcbaa64 {}

/// A device context with 32-byte contexts: the slot context and 31 endpoint
/// contexts, numbered from 1.
pub struct DeviceContext32 {
    pub slot_context: SlotContext,
    pub endpoint_contexts: Vec<EndpointContext>,
}

impl DeviceContext32 {
    /// Endpoint context `index` (1 to 31).
    pub fn index(&self, index: usize) -> (ret: &EndpointContext)
        requires
            1 <= index <= self.endpoint_contexts@.len(),
        ensures
            *ret == self.endpoint_contexts@[index - 1],
    {
        &self.endpoint_contexts[index - 1]
    }
}

/// A device context with 64-byte contexts: the slot context, padding, and 62
/// 32-byte halves; endpoint context `n` starts at half `2 * (n - 1)`.
pub struct DeviceContext64 {
    pub slot_context: SlotContext,
    pub padding: u32,
    pub endpoint_contexts: Vec<EndpointContext>,
}

impl DeviceContext64 {
    /// Endpoint context `index` (from 1).
    pub fn index(&self, index: usize) -> (ret: &EndpointContext)
        requires
            1 <= index,
            (index - 1) * 2 < self.endpoint_contexts@.len(),
        ensures
            *ret == self.endpoint_contexts@[(index - 1) * 2],
    {
        let n = self.endpoint_contexts.len();
        &self.endpoint_contexts[(index - 1) * 2]
    }
}

/// The slot part of a device context.
#[derive(Clone, Copy)]
pub struct SlotContext {
    pub register0: Register<u32>,
    pub register1: Register<u32>,
    pub register2: Register<u32>,
    pub register3: Register<u32>,
    pub reserved: [u32; 4],
}

impl SlotContext {
    pub fn route_string(&self) -> (ret: u32)
        ensures
            ret == ((self.register0.data & 0x7FF )),
    {
        (self.register0.data & 0x7FF )
    }

    pub fn multi_tt(&self) -> (ret: bool)
        ensures
            ret == ((self.register0.data >> 25u32 & 1 == 1)),
    {
        (self.register0.data >> 25u32 & 1 == 1)
    }

    pub fn hub(&self) -> (ret: bool)
        ensures
            ret == ((self.register0.data >> 26u32 & 1 == 1)),
    {
        (self.register0.data >> 26u32 & 1 == 1)
    }

    pub fn context_entries(&self) -> (ret: u8)
        ensures
            ret == ((self.register0.data >> 27) as u8),
    {
        (self.register0.data >> 27) as u8
    }

    pub fn max_exit_latency(&self) -> (ret: u16)
        ensures
            ret == ((self.register1.data & 0xFFFFF) as u16),
    {
        (self.register1.data & 0xFFFFF) as u16
    }

    pub fn root_hub_number(&self) -> (ret: u8)
        ensures
            ret == ((self.register1.data >> 16 & 0xFF) as u8),
    {
        (self.register1.data >> 16 & 0xFF) as u8
    }

    pub fn number_of_ports(&self) -> (ret: u8)
        ensures
            ret == ((self.register1.data >> 24) as u8),
    {
        (self.register1.data >> 24) as u8
    }

    pub fn parent_hub_slot_id(&self) -> (ret: u8)
        ensures
            ret == ((self.register2.data & 0xFF) as u8),
    {
        (self.register2.data & 0xFF) as u8
    }

    pub fn parent_port_number(&self) -> (ret: u8)
        ensures
            ret == ((self.register2.data >> 8 & 0xFF) as u8),
    {
        (self.register2.data >> 8 & 0xFF) as u8
    }

    pub fn tt_think_time(&self) -> (ret: u8)
        ensures
            ret == ((self.register2.data >> 16 & 0b11) as u8),
    {
        (self.register2.data >> 16 & 0b11) as u8
    }

    pub fn interrupter_target(&self) -> (ret: u16)
        ensures
            ret == ((self.register2.data >> 22) as u16),
    {
        (self.register2.data >> 22) as u16
    }

    pub fn usb_device_address(&self) -> (ret: u8)
        ensures
            ret == ((self.register3.data & 0xFF) as u8),
    {
        (self.register3.data & 0xFF) as u8
    }

    pub fn slot_state(&self) -> (ret: u8)
        ensures
            ret == ((self.register3.data >> 27) as u8),
    {
        (self.register3.data >> 27) as u8
    }
}

/// An endpoint context.
#[derive(Clone, Copy)]
pub struct EndpointContext {
    pub data: Register<u32>,
}

} // verus!
