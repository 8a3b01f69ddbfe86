use vstd::prelude::*;

use super::byte_bit;

verus! {

/// A PS/2 controller driver that reads the configuration byte once: its status byte
/// is decoded as `Status` is.
pub struct Ps2Driver {}

impl Ps2Driver {
    pub fn new() -> (ret: Self) {
        Self {}
    }

    /// The command that asks for the configuration byte, sent when the driver starts.
    pub fn read_config_command(&self) -> (ret: u8)
        ensures
            ret == 0x20,
    {
        0x20
    }

    /// Whether the controller has a byte for the driver: the status byte's bit 0.
    pub fn data_ready(status: u8) -> (ret: bool)
        ensures
            ret == byte_bit(status, 0),
    {
        Status::new(status).output_buffer_full()
    }

    /// Whether the controller can take a byte from the driver: bit 1 of the status
    /// byte is clear.
    pub fn can_write(status: u8) -> (ret: bool)
        ensures
            ret == !byte_bit(status, 1),
    {
        !Status::new(status).input_buffer_full()
    }
}

/// The controller's status byte.
pub struct Status {
    pub data: u8,
}

impl Status {
    pub fn new(data: u8) -> (ret: Self)
        ensures
            ret.data == data,
    {
        Self { data }
    }

    pub fn output_buffer_full(&self) -> (ret: bool)
        ensures
            ret == byte_bit(self.data, 0),
    {
        self.data & (1u8 << 0u8) > 0
    }

    pub fn input_buffer_full(&self) -> (ret: bool)
        ensures
            ret == byte_bit(self.data, 1),
    {
        self.data & (1u8 << 1u8) > 0
    }

    pub fn system_flag(&self) -> (ret: bool)
        ensures
            ret == byte_bit(self.data, 2),
    {
        self.data & (1u8 << 2u8) > 0
    }

    pub fn expecting_command(&self) -> (ret: bool)
        ensures
            ret == byte_bit(self.data, 3),
    {
        self.data & (1u8 << 3u8) > 0
    }

    /// Reads bit 3, as `expecting_command` does.
    pub fn bit_4(&self) -> (ret: bool)
        ensures
            ret == byte_bit(self.data, 3),
    {
        self.data & (1u8 << 3u8) > 0
    }

    /// Reads bit 4.
    pub fn bit_5(&self) -> (ret: bool)
        ensures
            ret == byte_bit(self.data, 4),
    {
        self.data & (1u8 << 4u8) > 0
    }

    pub fn time_out_error(&self) -> (ret: bool)
        ensures
            ret == byte_bit(self.data, 5),
    {
        self.data & (1u8 << 5u8) > 0
    }

    pub fn parity_error(&self) -> (ret: bool)
        ensures
            ret == byte_bit(self.data, 6),
    {
        self.data & (1u8 << 6u8) > 0
    }
}

} // verus!
