pub mod basic;
pub mod keyboard;

use vstd::prelude::*;

verus! {

/// Bit `n` of a byte.
pub open spec fn byte_bit(val: u8, n: u8) -> bool {
    val & (1u8 << n) > 0
}

/// The PS/2 controller. Its registers are reached through I/O ports, which the
/// caller reads and writes; this type decides what to send.
pub struct Ps2Driver {}

impl Ps2Driver {
    pub fn new() -> (ret: Self) {
        Self {}
    }

    /// The commands, in order, that start the controller's initialisation: disable
    /// both ports.
    pub fn disable_commands(&self) -> (ret: (u8, u8))
        ensures
            ret == (0xADu8, 0xA7u8),
    {
        (0xAD, 0xA7)
    }

    /// The configuration byte to write while initialising, from the one read: both
    /// port interrupts and the first port's translation turned off.
    pub fn initial_config(&self, read: u8) -> (ret: u8)
        ensures
            ret == Config::from_byte(read).with_interrupts(false, false).without_translation().to_byte(),
    {
        let mut config = Config::from(read);
        config.first_port_interrupt = false;
        config.second_port_interrupt = false;
        config.first_port_translation = false;
        u8::from(config)
    }

    /// The configuration byte that enables interrupts from the first port, from the
    /// one read.
    pub fn interrupt_config(&self, read: u8) -> (ret: u8)
        ensures
            ret == Config::from_byte(read).with_first_interrupt().to_byte(),
    {
        let mut config = Config::from(read);
        config.first_port_interrupt = true;
        u8::from(config)
    }

    /// Whether the controller's answer to its self test (command 0xAA) is a pass.
    pub fn self_test_passed(response: u8) -> (ret: bool)
        ensures
            ret == (response == 0x55),
    {
        response == 0x55
    }

    /// Whether the answer to the first port's test (command 0xAB) is a pass.
    pub fn port_test_passed(response: u8) -> (ret: bool)
        ensures
            ret == (response == 0x00),
    {
        response == 0x00
    }
}

/// The controller configuration byte, decoded.
#[derive(Clone, Copy)]
pub struct Config {
    pub first_port_interrupt: bool,
    pub second_port_interrupt: bool,
    pub first_port_clock: bool,
    pub second_port_clock: bool,
    pub first_port_translation: bool,
    pub data: u8,
}

impl Config {
    /// The decoding of a configuration byte: bits 0, 1 and 6 are set when the two
    /// port interrupts and translation are on; bits 4 and 5 are set when the two
    /// port clocks are off; the byte itself is kept.
    pub open spec fn from_byte(val: u8) -> Config {
        Config {
            first_port_interrupt: byte_bit(val, 0),
            second_port_interrupt: byte_bit(val, 1),
            first_port_clock: !byte_bit(val, 4),
            second_port_clock: !byte_bit(val, 5),
            first_port_translation: byte_bit(val, 6),
            data: val,
        }
    }

    /// The encoding of a configuration: bits 2, 3 and 7 of the kept byte, and the
    /// other bits from the fields.
    pub open spec fn to_byte(self) -> u8 {
        (self.data & 0b10001100u8) | (if self.first_port_interrupt { 1u8 } else { 0u8 }) | (if self.second_port_interrupt {
            2u8
        } else {
            0u8
        }) | (if !self.first_port_clock { 16u8 } else { 0u8 }) | (if !self.second_port_clock { 32u8 } else { 0u8 }) | (
        if self.first_port_translation { 64u8 } else { 0u8 })
    }

    pub open spec fn with_interrupts(self, first: bool, second: bool) -> Config {
        Config { first_port_interrupt: first, second_port_interrupt: second, ..self }
    }

    pub open spec fn with_first_interrupt(self) -> Config {
        Config { first_port_interrupt: true, ..self }
    }

    pub open spec fn without_translation(self) -> Config {
        Config { first_port_translation: false, ..self }
    }
}

impl From<u8> for Config {
    fn from(val: u8) -> (ret: Self) {
        Self {
            first_port_interrupt: val & (1u8 << 0u8) > 0,
            second_port_interrupt: val & (1u8 << 1u8) > 0,
            first_port_clock: val & (1u8 << 4u8) == 0,
            second_port_clock: val & (1u8 << 5u8) == 0,
            first_port_translation: val & (1u8 << 6u8) > 0,
            data: val,
        }
    }
}

impl vstd::std_specs::convert::FromSpecImpl<u8> for Config {
    open spec fn obeys_from_spec() -> bool {
        true
    }

    open spec fn from_spec(v: u8) -> Config {
        Config::from_byte(v)
    }
}

impl From<Config> for u8 {
    fn from(config: Config) -> (ret: u8) {
        let mut val = config.data;
        val &= 0b10001100;
        if config.first_port_interrupt {
            val |= 1 << 0;
        }
        if config.second_port_interrupt {
            val |= 1 << 1;
        }
        if !config.first_port_clock {
            val |= 1 << 4;
        }
        if !config.second_port_clock {
            val |= 1 << 5;
        }
        if config.first_port_translation {
            val |= 1 << 6;
        }
        proof {
            lemma_config_encoding(config);
            assert((1u8 << 0u8) == 1u8 && (1u8 << 1u8) == 2u8 && (1u8 << 4u8) == 16u8 && (1u8 << 5u8) == 32u8 && (1u8
                << 6u8) == 64u8) by (bit_vector);
        }
        val
    }
}

impl vstd::std_specs::convert::FromSpecImpl<Config> for u8 {
    open spec fn obeys_from_spec() -> bool {
        true
    }

    open spec fn from_spec(v: Config) -> u8 {
        v.to_byte()
    }
}

proof fn lemma_config_encoding(c: Config)
    ensures
        ({
            let v0 = c.data & 0b10001100u8;
            let v1 = if c.first_port_interrupt { v0 | 1u8 } else { v0 };
            let v2 = if c.second_port_interrupt { v1 | 2u8 } else { v1 };
            let v3 = if !c.first_port_clock { v2 | 16u8 } else { v2 };
            let v4 = if !c.second_port_clock { v3 | 32u8 } else { v3 };
            let v5 = if c.first_port_translation { v4 | 64u8 } else { v4 };
            v5 == c.to_byte()
        }),
{
    let d = c.data;
    let a = c.first_port_interrupt;
    let b = c.second_port_interrupt;
    let e = c.first_port_clock;
    let f = c.second_port_clock;
    let g = c.first_port_translation;
    assert({
        let v0 = d & 0b10001100u8;
        let v1 = if a { v0 | 1u8 } else { v0 };
        let v2 = if b { v1 | 2u8 } else { v1 };
        let v3 = if !e { v2 | 16u8 } else { v2 };
        let v4 = if !f { v3 | 32u8 } else { v3 };
        let v5 = if g { v4 | 64u8 } else { v4 };
        v5 == (d & 0b10001100u8) | (if a { 1u8 } else { 0u8 }) | (if b { 2u8 } else { 0u8 }) | (if !e { 16u8 } else { 0u8 })
            | (if !f { 32u8 } else { 0u8 }) | (if g { 64u8 } else { 0u8 })
    }) by (bit_vector);
}

/// Decoding a configuration byte and encoding it again gives the byte back.
pub proof fn lemma_config_round_trip(val: u8)
    ensures
        Config::from_byte(val).to_byte() == val,
{
    assert((val & 0b10001100u8) | (if val & 1u8 > 0 { 1u8 } else { 0u8 }) | (if val & 2u8 > 0 { 2u8 } else { 0u8 }) | (
    if !(val & 16u8 == 0) { 16u8 } else { 0u8 }) | (if !(val & 32u8 == 0) { 32u8 } else { 0u8 }) | (if val & 64u8
        > 0 { 64u8 } else { 0u8 }) == val) by (bit_vector);
    assert((1u8 << 0u8) == 1u8 && (1u8 << 1u8) == 2u8 && (1u8 << 4u8) == 16u8 && (1u8 << 5u8) == 32u8 && (1u8 << 6u8)
        == 64u8) by (bit_vector);
}

/// The controller's status byte.
pub struct Status {
    pub data: u8,
}

impl Status {
    pub fn new(data: u8) -> (ret: Self)
        ensures
            ret.data == data,
    {
        Self { data }
    }

    pub fn output_buffer_full(&self) -> (ret: bool)
        ensures
            ret == byte_bit(self.data, 0),
    {
        self.data & (1u8 << 0u8) > 0
    }

    pub fn input_buffer_full(&self) -> (ret: bool)
        ensures
            ret == byte_bit(self.data, 1),
    {
        self.data & (1u8 << 1u8) > 0
    }

    pub fn system_flag(&self) -> (ret: bool)
        ensures
            ret == byte_bit(self.data, 2),
    {
        self.data & (1u8 << 2u8) > 0
    }

    pub fn expecting_command(&self) -> (ret: bool)
        ensures
            ret == byte_bit(self.data, 3),
    {
        self.data & (1u8 << 3u8) > 0
    }

    /// Reads bit 3, as `expecting_command` does.
    pub fn bit_4(&self) -> (ret: bool)
        ensures
            ret == byte_bit(self.data, 3),
    {
        self.data & (1u8 << 3u8) > 0
    }

    /// Reads bit 4.
    pub fn bit_5(&self) -> (ret: bool)
        ensures
            ret == byte_bit(self.data, 4),
    {
        self.data & (1u8 << 4u8) > 0
    }

    pub fn time_out_error(&self) -> (ret: bool)
        ensures
            ret == byte_bit(self.data, 5),
    {
        self.data & (1u8 << 5u8) > 0
    }

    pub fn parity_error(&self) -> (ret: bool)
        ensures
            ret == byte_bit(self.data, 6),
    {
        self.data & (1u8 << 6u8) > 0
    }
}

} // verus!
