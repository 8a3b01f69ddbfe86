use vstd::prelude::*;

verus! {

/// A hardware register's value, as read from or to be written to the controller.
#[derive(Clone, Copy)]
pub struct Register<T> {
    pub data: T,
}

impl<T: Copy> Register<T> {
    pub fn new(data: T) -> (ret: Self)
        ensures
            ret.data == data,
    {
        Self { data }
    }

    pub fn read(&self) -> (ret: T)
        ensures
            ret == self.data,
    {
        self.data
    }

    pub fn write(&mut self, value: T)
        ensures
            final(self).data == value,
    {
        self.data = value;
    }
}

impl Register<u32> {
    /// Bit `bit` of the register.
    pub fn get_bit(&self, bit: u32) -> (ret: bool)
        requires
            bit < 32,
        ensures
            ret == (self.data >> bit & 1 == 1),
    {
        self.data >> bit & 1 == 1
    }
}

impl Register<u64> {
    /// Bit `bit` of the register.
    pub fn get_bit(&self, bit: u64) -> (ret: bool)
        requires
            bit < 64,
        ensures
            ret == (self.data >> bit & 1 == 1),
    {
        self.data >> bit & 1 == 1
    }
}

/// An unsigned integer type that a register can hold.
pub trait Num: Copy {
    fn one() -> Self;
}

impl Num for u32 {
    fn one() -> (ret: u32)
        ensures
            ret == 1,
    {
        1
    }
}

impl Num for u64 {
    fn one() -> (ret: u64)
        ensures
            ret == 1,
    {
        1
    }
}

/// The bits of PORTSC that a write keeps; every other bit of a write is zero, so
/// that no write-1-to-clear bit is cleared by accident.
pub const PORTSC_PMASK: u32 = 0x0E00C200;

/// The controller's capability registers.
#[derive(Clone, Copy)]
pub struct Capability {
    pub first: Register<u32>,
    pub hcsparams1: Register<u32>,
    pub hcsparams2: Register<u32>,
    pub hcsparams3: Register<u32>,
    pub hccparams1: Register<u32>,
    pub dboff: Register<u32>,
    pub rtsoff: Register<u32>,
    pub hccparams2: Register<u32>,
    pub vtiosoff: Register<u32>,
}

impl Capability {
    pub fn cap_length(&self) -> (ret: u8)
        ensures
            ret == ((self.first.data & 0xFF) as u8),
    {
        (self.first.data & 0xFF) as u8
    }

    pub fn interface_version(&self) -> (ret: u16)
        ensures
            ret == ((self.first.data >> 16 & 0xFFFFF) as u16),
    {
        (self.first.data >> 16 & 0xFFFFF) as u16
    }

    pub fn max_device_slots(&self) -> (ret: u8)
        ensures
            ret == ((self.hcsparams1.data & 0xFF) as u8),
    {
        (self.hcsparams1.data & 0xFF) as u8
    }

    pub fn max_interrupters(&self) -> (ret: u16)
        ensures
            ret == ((self.hcsparams1.data >> 8 & 0x7FF) as u16),
    {
        (self.hcsparams1.data >> 8 & 0x7FF) as u16
    }

    pub fn max_ports(&self) -> (ret: u8)
        ensures
            ret == ((self.hcsparams1.data >> 24) as u8),
    {
        (self.hcsparams1.data >> 24) as u8
    }

    pub fn ist(&self) -> (ret: u8)
        ensures
            ret == ((self.hcsparams2.data & 0xF) as u8),
    {
        (self.hcsparams2.data & 0xF) as u8
    }

    pub fn erst_max(&self) -> (ret: u8)
        ensures
            ret == ((self.hcsparams2.data >> 4 & 0xF) as u8),
    {
        (self.hcsparams2.data >> 4 & 0xF) as u8
    }

    pub fn scratchpad_restore(&self) -> (ret: bool)
        ensures
            ret == ((self.hcsparams2.data >> 26 & 1) == 1),
    {
        (self.hcsparams2.data >> 26 & 1) == 1
    }

    pub fn max_scratchpad_buffers(&self) -> (ret: u16)
        ensures
            ret == (((self.hcsparams2.data >> 21 & 0x1F) as u16) | ((self.hcsparams2.data >> 27 & 0x1F) as u16) << 5),
    {
        ((self.hcsparams2.data >> 21 & 0x1F) as u16) | ((self.hcsparams2.data >> 27 & 0x1F) as u16) << 5
    }

    pub fn u1_device_exit_latency(&self) -> (ret: u8)
        ensures
            ret == ((self.hcsparams3.data & 0xFF) as u8),
    {
        (self.hcsparams3.data & 0xFF) as u8
    }

    pub fn u2_device_exit_latency(&self) -> (ret: u16)
        ensures
            ret == ((self.hcsparams3.data >> 16) as u16),
    {
        (self.hcsparams3.data >> 16) as u16
    }

    pub fn uses_64_bit_addresses(&self) -> (ret: bool)
        ensures
            ret == ((self.hccparams1.data & 1) == 1),
    {
        (self.hccparams1.data & 1) == 1
    }

    pub fn bandwidth_negotiation(&self) -> (ret: bool)
        ensures
            ret == ((self.hccparams1.data >> 1 & 1) == 1),
    {
        (self.hccparams1.data >> 1 & 1) == 1
    }

    pub fn uses_64_bit_contexts(&self) -> (ret: bool)
        ensures
            ret == ((self.hccparams1.data >> 2 & 1) == 1),
    {
        (self.hccparams1.data >> 2 & 1) == 1
    }

    pub fn port_power_control(&self) -> (ret: bool)
        ensures
            ret == ((self.hccparams1.data >> 3 & 1) == 1),
    {
        (self.hccparams1.data >> 3 & 1) == 1
    }

    pub fn port_indicators_control(&self) -> (ret: bool)
        ensures
            ret == ((self.hccparams1.data >> 4 & 1) == 1),
    {
        (self.hccparams1.data >> 4 & 1) == 1
    }

    pub fn light_hc_reset(&self) -> (ret: bool)
        ensures
            ret == ((self.hccparams1.data >> 5 & 1) == 1),
    {
        (self.hccparams1.data >> 5 & 1) == 1
    }

    pub fn latency_tolerance_messaging(&self) -> (ret: bool)
        ensures
            ret == ((self.hccparams1.data >> 6 & 1) == 1),
    {
        (self.hccparams1.data >> 6 & 1) == 1
    }

    pub fn secondary_sid(&self) -> (ret: bool)
        ensures
            ret == ((self.hccparams1.data >> 7 & 1) == 0),
    {
        (self.hccparams1.data >> 7 & 1) == 0
    }

    pub fn parse_all_event_data(&self) -> (ret: bool)
        ensures
            ret == ((self.hccparams1.data >> 8 & 1) == 1),
    {
        (self.hccparams1.data >> 8 & 1) == 1
    }

    pub fn stopped_short_packet(&self) -> (ret: bool)
        ensures
            ret == ((self.hccparams1.data >> 9 & 1) == 1),
    {
        (self.hccparams1.data >> 9 & 1) == 1
    }

    pub fn stopped_edtla(&self) -> (ret: bool)
        ensures
            ret == ((self.hccparams1.data >> 10 & 1) == 1),
    {
        (self.hccparams1.data >> 10 & 1) == 1
    }

    pub fn contiguous_frame_id(&self) -> (ret: bool)
        ensures
            ret == ((self.hccparams1.data >> 11 & 1) == 1),
    {
        (self.hccparams1.data >> 11 & 1) == 1
    }

    pub fn max_primary_stream_array_size(&self) -> (ret: u8)
        ensures
            ret == ((self.hccparams1.data >> 12 & 0xF) as u8),
    {
        (self.hccparams1.data >> 12 & 0xF) as u8
    }

    pub fn xhci_extended_capabilities_pointer(&self) -> (ret: u32)
        ensures
            ret == (((self.hccparams1.data >> 16 & 0xFFFF) as u32) << 2),
    {
        ((self.hccparams1.data >> 16 & 0xFFFF) as u32) << 2
    }

    pub fn doorbell_offset(&self) -> (ret: u32)
        ensures
            ret == (self.dboff.data),
    {
        self.dboff.data
    }

    pub fn runtime_register_space_offset(&self) -> (ret: u32)
        ensures
            ret == (self.rtsoff.data),
    {
        self.rtsoff.data
    }

    pub fn u3_entry(&self) -> (ret: bool)
        ensures
            ret == ((self.hccparams2.data) & 1 == 1),
    {
        (self.hccparams2.data) & 1 == 1
    }

    pub fn configure_endpoint_command_max_exit_latency_too_large(&self) -> (ret: bool)
        ensures
            ret == ((self.hccparams2.data >> 1 & 1) == 1),
    {
        (self.hccparams2.data >> 1 & 1) == 1
    }

    pub fn force_save_context(&self) -> (ret: bool)
        ensures
            ret == ((self.hccparams2.data >> 2 & 1) == 1),
    {
        (self.hccparams2.data >> 2 & 1) == 1
    }

    pub fn compliance_transition(&self) -> (ret: bool)
        ensures
            ret == ((self.hccparams2.data >> 3 & 1) == 1),
    {
        (self.hccparams2.data >> 3 & 1) == 1
    }

    pub fn large_esit_payload(&self) -> (ret: bool)
        ensures
            ret == ((self.hccparams2.data >> 4 & 1) == 1),
    {
        (self.hccparams2.data >> 4 & 1) == 1
    }

    pub fn configuration_information(&self) -> (ret: bool)
        ensures
            ret == ((self.hccparams2.data >> 5 & 1) == 1),
    {
        (self.hccparams2.data >> 5 & 1) == 1
    }

    pub fn extended_tbc(&self) -> (ret: bool)
        ensures
            ret == ((self.hccparams2.data >> 6 & 1) == 1),
    {
        (self.hccparams2.data >> 6 & 1) == 1
    }

    pub fn extended_tbc_trb_status(&self) -> (ret: bool)
        ensures
            ret == ((self.hccparams2.data >> 7 & 1) == 1),
    {
        (self.hccparams2.data >> 7 & 1) == 1
    }

    pub fn get_set_extended_property(&self) -> (ret: bool)
        ensures
            ret == ((self.hccparams2.data >> 8 & 1) == 1),
    {
        (self.hccparams2.data >> 8 & 1) == 1
    }

    pub fn virtualization_based_trusted_io(&self) -> (ret: bool)
        ensures
            ret == ((self.hccparams2.data >> 9 & 1) == 1),
    {
        (self.hccparams2.data >> 9 & 1) == 1
    }

    pub fn vtio_register_space_offset(&self) -> (ret: u32)
        ensures
            ret == (self.vtiosoff.data),
    {
        self.vtiosoff.data
    }
}

/// The controller's operational registers.
#[derive(Clone, Copy)]
pub struct Operational {
    pub usbcmd: Register<u32>,
    pub usbsts: Register<u32>,
    pub pagesize: Register<u32>,
    pub _reserved: [Register<u32>; 2],
    pub dnctrl: Register<u32>,
    pub crcr: Register<u64>,
    pub _reserved2: [Register<u32>; 4],
    pub dcbaap: Register<u64>,
    pub config: Register<u32>,
}

impl Operational {
    pub fn get_run_stop(&self) -> (ret: bool)
        ensures
            ret == ((self.usbcmd.data & 1) == 1),
    {
        (self.usbcmd.data & 1) == 1
    }

    /// The software MUST check that the controller is halted
    /// before calling this function.
    pub fn start_running(&mut self)
        requires
            old(self).usbsts.data >> 0u32 & 1 == 1,
        ensures
            final(self).usbcmd.data == (old(self).usbcmd.data | (1u32)),
            final(self).usbsts == old(self).usbsts,
            final(self).pagesize == old(self).pagesize,
            final(self)._reserved == old(self)._reserved,
            final(self).dnctrl == old(self).dnctrl,
            final(self).crcr == old(self).crcr,
            final(self)._reserved2 == old(self)._reserved2,
            final(self).dcbaap == old(self).dcbaap,
            final(self).config == old(self).config,
    {
        let mut val = self.usbcmd.data;
        val = val | (1);
        self.usbcmd.data = val;
    }

    /// Poll `.is_halted()` to wait for the controller to finish
    /// halting.
    ///
    /// If any event rings are full before calling this function,
    /// events may get lost.
    pub fn stop_running(&mut self)
        ensures
            final(self).usbcmd.data == (old(self).usbcmd.data & (!1u32)),
            final(self).usbsts == old(self).usbsts,
            final(self).pagesize == old(self).pagesize,
            final(self)._reserved == old(self)._reserved,
            final(self).dnctrl == old(self).dnctrl,
            final(self).crcr == old(self).crcr,
            final(self)._reserved2 == old(self)._reserved2,
            final(self).dcbaap == old(self).dcbaap,
            final(self).config == old(self).config,
    {
        let mut val = self.usbcmd.data;
        val = val & (!1);
        self.usbcmd.data = val;
    }

    pub fn interrupts_enabled(&self) -> (ret: bool)
        ensures
            ret == ((self.usbcmd.data >> 2 & 1) == 1),
    {
        (self.usbcmd.data >> 2 & 1) == 1
    }

    pub fn set_interrupts_enabled(&mut self, status: bool)
        ensures
            final(self).usbcmd.data == (if status { old(self).usbcmd.data | (1u32 << 2u32) } else { old(self).usbcmd.data & (!(1u32 << 2u32)) }),
            final(self).usbsts == old(self).usbsts,
            final(self).pagesize == old(self).pagesize,
            final(self)._reserved == old(self)._reserved,
            final(self).dnctrl == old(self).dnctrl,
            final(self).crcr == old(self).crcr,
            final(self)._reserved2 == old(self)._reserved2,
            final(self).dcbaap == old(self).dcbaap,
            final(self).config == old(self).config,
    {
        let mut val = self.usbcmd.data;
        if status {
            val = val | (1 << 2);
        } else {
            val = val & (!(1 << 2));
        }
        self.usbcmd.data = val;
    }

    pub fn host_system_error_enabled(&self) -> (ret: bool)
        ensures
            ret == ((self.usbcmd.data >> 3u32 & 1 == 1)),
    {
        (self.usbcmd.data >> 3u32 & 1 == 1)
    }

    pub fn set_host_system_error_enabled(&mut self, status: bool)
        ensures
            final(self).usbcmd.data == (if status { old(self).usbcmd.data | (1u32 << 3u32) } else { old(self).usbcmd.data & (!(1u32 << 3u32)) }),
            final(self).usbsts == old(self).usbsts,
            final(self).pagesize == old(self).pagesize,
            final(self)._reserved == old(self)._reserved,
            final(self).dnctrl == old(self).dnctrl,
            final(self).crcr == old(self).crcr,
            final(self)._reserved2 == old(self)._reserved2,
            final(self).dcbaap == old(self).dcbaap,
            final(self).config == old(self).config,
    {
        let mut val = self.usbcmd.data;
        if status {
            val = val | (1 << 3);
        } else {
            val = val & (!(1 << 3));
        }
        self.usbcmd.data = val;
    }

    pub fn light_host_controller_reset_complete(&self) -> (ret: bool)
        ensures
            ret == (!(self.usbcmd.data >> 7u32 & 1 == 1)),
    {
        !(self.usbcmd.data >> 7u32 & 1 == 1)
    }

    pub fn light_host_controller_reset(&mut self)
        ensures
            final(self).usbcmd.data == (old(self).usbcmd.data | (1u32 << 7u32)),
            final(self).usbsts == old(self).usbsts,
            final(self).pagesize == old(self).pagesize,
            final(self)._reserved == old(self)._reserved,
            final(self).dnctrl == old(self).dnctrl,
            final(self).crcr == old(self).crcr,
            final(self)._reserved2 == old(self)._reserved2,
            final(self).dcbaap == old(self).dcbaap,
            final(self).config == old(self).config,
    {
        let mut val = self.usbcmd.data;
        val = val | (1 << 7);
        self.usbcmd.data = val;
    }

    pub fn controller_save_state(&mut self)
        ensures
            final(self).usbcmd.data == (old(self).usbcmd.data | (1u32 << 8u32)),
            final(self).usbsts == old(self).usbsts,
            final(self).pagesize == old(self).pagesize,
            final(self)._reserved == old(self)._reserved,
            final(self).dnctrl == old(self).dnctrl,
            final(self).crcr == old(self).crcr,
            final(self)._reserved2 == old(self)._reserved2,
            final(self).dcbaap == old(self).dcbaap,
            final(self).config == old(self).config,
    {
        let mut val = self.usbcmd.data;
        val = val | (1 << 8);
        self.usbcmd.data = val;
    }

    pub fn controller_restore_state(&mut self)
        ensures
            final(self).usbcmd.data == (old(self).usbcmd.data | (1u32 << 9u32)),
            final(self).usbsts == old(self).usbsts,
            final(self).pagesize == old(self).pagesize,
            final(self)._reserved == old(self)._reserved,
            final(self).dnctrl == old(self).dnctrl,
            final(self).crcr == old(self).crcr,
            final(self)._reserved2 == old(self)._reserved2,
            final(self).dcbaap == old(self).dcbaap,
            final(self).config == old(self).config,
    {
        let mut val = self.usbcmd.data;
        val = val | (1 << 9);
        self.usbcmd.data = val;
    }

    pub fn wrap_event_enabled(&self) -> (ret: bool)
        ensures
            ret == ((self.usbcmd.data >> 10u32 & 1 == 1)),
    {
        (self.usbcmd.data >> 10u32 & 1 == 1)
    }

    pub fn set_wrap_event_enabled(&mut self, status: bool)
        ensures
            final(self).usbcmd.data == (if status { old(self).usbcmd.data | (1u32 << 10u32) } else { old(self).usbcmd.data & (!(1u32 << 10u32)) }),
            final(self).usbsts == old(self).usbsts,
            final(self).pagesize == old(self).pagesize,
            final(self)._reserved == old(self)._reserved,
            final(self).dnctrl == old(self).dnctrl,
            final(self).crcr == old(self).crcr,
            final(self)._reserved2 == old(self)._reserved2,
            final(self).dcbaap == old(self).dcbaap,
            final(self).config == old(self).config,
    {
        let mut val = self.usbcmd.data;
        if status {
            val = val | (1 << 10);
        } else {
            val = val & (!(1 << 10));
        }
        self.usbcmd.data = val;
    }

    pub fn u3_mfindex_stop_enabled(&self) -> (ret: bool)
        ensures
            ret == ((self.usbcmd.data >> 11u32 & 1 == 1)),
    {
        (self.usbcmd.data >> 11u32 & 1 == 1)
    }

    pub fn set_u32_mfindex_stop_enabled(&mut self, status: bool)
        ensures
            final(self).usbcmd.data == (if status { old(self).usbcmd.data | (1u32 << 11u32) } else { old(self).usbcmd.data & (!(1u32 << 11u32)) }),
            final(self).usbsts == old(self).usbsts,
            final(self).pagesize == old(self).pagesize,
            final(self)._reserved == old(self)._reserved,
            final(self).dnctrl == old(self).dnctrl,
            final(self).crcr == old(self).crcr,
            final(self)._reserved2 == old(self)._reserved2,
            final(self).dcbaap == old(self).dcbaap,
            final(self).config == old(self).config,
    {
        let mut val = self.usbcmd.data;
        if status {
            val = val | (1 << 11);
        } else {
            val = val & (!(1 << 11));
        }
        self.usbcmd.data = val;
    }

    pub fn cem_enabled(&self) -> (ret: bool)
        ensures
            ret == ((self.usbcmd.data >> 13u32 & 1 == 1)),
    {
        (self.usbcmd.data >> 13u32 & 1 == 1)
    }

    pub fn set_cem_enabled(&mut self, status: bool)
        ensures
            final(self).usbcmd.data == (if status { old(self).usbcmd.data | (1u32 << 13u32) } else { old(self).usbcmd.data & (!(1u32 << 13u32)) }),
            final(self).usbsts == old(self).usbsts,
            final(self).pagesize == old(self).pagesize,
            final(self)._reserved == old(self)._reserved,
            final(self).dnctrl == old(self).dnctrl,
            final(self).crcr == old(self).crcr,
            final(self)._reserved2 == old(self)._reserved2,
            final(self).dcbaap == old(self).dcbaap,
            final(self).config == old(self).config,
    {
        let mut val = self.usbcmd.data;
        if status {
            val = val | (1 << 13);
        } else {
            val = val & (!(1 << 13));
        }
        self.usbcmd.data = val;
    }

    pub fn extended_tbc_enabled(&self) -> (ret: bool)
        ensures
            ret == ((self.usbcmd.data >> 14u32 & 1 == 1)),
    {
        (self.usbcmd.data >> 14u32 & 1 == 1)
    }

    pub fn set_extended_tbc_enabled(&mut self, status: bool)
        ensures
            final(self).usbcmd.data == (if status { old(self).usbcmd.data | (1u32 << 14u32) } else { old(self).usbcmd.data & (!(1u32 << 14u32)) }),
            final(self).usbsts == old(self).usbsts,
            final(self).pagesize == old(self).pagesize,
            final(self)._reserved == old(self)._reserved,
            final(self).dnctrl == old(self).dnctrl,
            final(self).crcr == old(self).crcr,
            final(self)._reserved2 == old(self)._reserved2,
            final(self).dcbaap == old(self).dcbaap,
            final(self).config == old(self).config,
    {
        let mut val = self.usbcmd.data;
        if status {
            val = val | (1 << 14);
        } else {
            val = val & (!(1 << 14));
        }
        self.usbcmd.data = val;
    }

    pub fn extended_tbc_trb_status_enabled(&self) -> (ret: bool)
        ensures
            ret == ((self.usbcmd.data >> 15u32 & 1 == 1)),
    {
        (self.usbcmd.data >> 15u32 & 1 == 1)
    }

    pub fn set_extended_tbc_trb_status_enabled(&mut self, status: bool)
        ensures
            final(self).usbcmd.data == (if status { old(self).usbcmd.data | (1u32 << 15u32) } else { old(self).usbcmd.data & (!(1u32 << 15u32)) }),
            final(self).usbsts == old(self).usbsts,
            final(self).pagesize == old(self).pagesize,
            final(self)._reserved == old(self)._reserved,
            final(self).dnctrl == old(self).dnctrl,
            final(self).crcr == old(self).crcr,
            final(self)._reserved2 == old(self)._reserved2,
            final(self).dcbaap == old(self).dcbaap,
            final(self).config == old(self).config,
    {
        let mut val = self.usbcmd.data;
        if status {
            val = val | (1 << 15);
        } else {
            val = val & (!(1 << 15));
        }
        self.usbcmd.data = val;
    }

    pub fn vtio_enabled(&self) -> (ret: bool)
        ensures
            ret == ((self.usbcmd.data >> 16u32 & 1 == 1)),
    {
        (self.usbcmd.data >> 16u32 & 1 == 1)
    }

    pub fn set_vtio_enabled(&mut self, status: bool)
        ensures
            final(self).usbcmd.data == (if status { old(self).usbcmd.data | (1u32 << 16u32) } else { old(self).usbcmd.data & (!(1u32 << 16u32)) }),
            final(self).usbsts == old(self).usbsts,
            final(self).pagesize == old(self).pagesize,
            final(self)._reserved == old(self)._reserved,
            final(self).dnctrl == old(self).dnctrl,
            final(self).crcr == old(self).crcr,
            final(self)._reserved2 == old(self)._reserved2,
            final(self).dcbaap == old(self).dcbaap,
            final(self).config == old(self).config,
    {
        let mut val = self.usbcmd.data;
        if status {
            val = val | (1 << 16);
        } else {
            val = val & (!(1 << 16));
        }
        self.usbcmd.data = val;
    }

    pub fn is_halted(&self) -> (ret: bool)
        ensures
            ret == ((self.usbsts.data >> 0u32 & 1 == 1)),
    {
        (self.usbsts.data >> 0u32 & 1 == 1)
    }

    pub fn host_system_error(&self) -> (ret: bool)
        ensures
            ret == ((self.usbsts.data >> 2u32 & 1 == 1)),
    {
        (self.usbsts.data >> 2u32 & 1 == 1)
    }

    pub fn clear_host_system_error(&mut self)
        ensures
            final(self).usbsts.data == 1u32 << 2u32,
            final(self).usbcmd == old(self).usbcmd,
            final(self).pagesize == old(self).pagesize,
            final(self)._reserved == old(self)._reserved,
            final(self).dnctrl == old(self).dnctrl,
            final(self).crcr == old(self).crcr,
            final(self)._reserved2 == old(self)._reserved2,
            final(self).dcbaap == old(self).dcbaap,
            final(self).config == old(self).config,
    {
        self.usbsts.data = 1 << 2;
    }

    pub fn event_interrupt(&self) -> (ret: bool)
        ensures
            ret == ((self.usbsts.data >> 3u32 & 1 == 1)),
    {
        (self.usbsts.data >> 3u32 & 1 == 1)
    }

    pub fn clear_event_interrupt(&mut self)
        ensures
            final(self).usbsts.data == 1u32 << 3u32,
            final(self).usbcmd == old(self).usbcmd,
            final(self).pagesize == old(self).pagesize,
            final(self)._reserved == old(self)._reserved,
            final(self).dnctrl == old(self).dnctrl,
            final(self).crcr == old(self).crcr,
            final(self)._reserved2 == old(self)._reserved2,
            final(self).dcbaap == old(self).dcbaap,
            final(self).config == old(self).config,
    {
        self.usbsts.data = 1 << 3;
    }

    pub fn port_change_detect(&self) -> (ret: bool)
        ensures
            ret == ((self.usbsts.data >> 4u32 & 1 == 1)),
    {
        (self.usbsts.data >> 4u32 & 1 == 1)
    }

    pub fn clear_port_change_detect(&mut self)
        ensures
            final(self).usbsts.data == 1u32 << 4u32,
            final(self).usbcmd == old(self).usbcmd,
            final(self).pagesize == old(self).pagesize,
            final(self)._reserved == old(self)._reserved,
            final(self).dnctrl == old(self).dnctrl,
            final(self).crcr == old(self).crcr,
            final(self)._reserved2 == old(self)._reserved2,
            final(self).dcbaap == old(self).dcbaap,
            final(self).config == old(self).config,
    {
        self.usbsts.data = 1 << 4;
    }

    pub fn save_state_status(&self) -> (ret: bool)
        ensures
            ret == ((self.usbsts.data >> 8u32 & 1 == 1)),
    {
        (self.usbsts.data >> 8u32 & 1 == 1)
    }

    pub fn restore_state_status(&self) -> (ret: bool)
        ensures
            ret == ((self.usbsts.data >> 9u32 & 1 == 1)),
    {
        (self.usbsts.data >> 9u32 & 1 == 1)
    }

    pub fn save_restore_error(&self) -> (ret: bool)
        ensures
            ret == ((self.usbsts.data >> 10u32 & 1 == 1)),
    {
        (self.usbsts.data >> 10u32 & 1 == 1)
    }

    pub fn clear_save_restore_error(&mut self)
        ensures
            final(self).usbsts.data == 1u32 << 10u32,
            final(self).usbcmd == old(self).usbcmd,
            final(self).pagesize == old(self).pagesize,
            final(self)._reserved == old(self)._reserved,
            final(self).dnctrl == old(self).dnctrl,
            final(self).crcr == old(self).crcr,
            final(self)._reserved2 == old(self)._reserved2,
            final(self).dcbaap == old(self).dcbaap,
            final(self).config == old(self).config,
    {
        self.usbsts.data = 1 << 10;
    }

    pub fn controller_ready(&self) -> (ret: bool)
        ensures
            ret == (!(self.usbsts.data >> 11u32 & 1 == 1)),
    {
        !(self.usbsts.data >> 11u32 & 1 == 1)
    }

    pub fn host_controller_error(&self) -> (ret: bool)
        ensures
            ret == (!(self.usbsts.data >> 12u32 & 1 == 1)),
    {
        !(self.usbsts.data >> 12u32 & 1 == 1)
    }

    pub fn page_size(&self) -> (ret: u32)
        ensures
            ret == ((self.pagesize.data & 0xFFFFFF) << 12),
    {
        (self.pagesize.data & 0xFFFFFF) << 12
    }

    pub fn notification_enabled(&self, notification_type: usize) -> (ret: bool)
        requires
            notification_type <= 15,
        ensures
            ret == ((self.dnctrl.data >> notification_type & 1 == 1)),
    {
        (self.dnctrl.data >> notification_type & 1 == 1)
    }

    pub fn set_notification_enabled(&mut self, notification_type: usize, status: bool)
        requires
            notification_type < 32,
        ensures
            final(self).dnctrl.data == (if status { old(self).dnctrl.data | (1u32 << notification_type) } else { old(self).dnctrl.data & (!(1u32 << notification_type)) }),
            final(self).usbcmd == old(self).usbcmd,
            final(self).usbsts == old(self).usbsts,
            final(self).pagesize == old(self).pagesize,
            final(self)._reserved == old(self)._reserved,
            final(self).crcr == old(self).crcr,
            final(self)._reserved2 == old(self)._reserved2,
            final(self).dcbaap == old(self).dcbaap,
            final(self).config == old(self).config,
    {
        let mut val = self.dnctrl.data;
        if status {
            val = val | (1 << notification_type);
        } else {
            val = val & (!(1 << notification_type));
        }
        self.dnctrl.data = val;
    }

    pub fn set_ring_cycle_state(&mut self, rcs: bool, crp: u64)
        ensures
            final(self).crcr.data == (((old(self).crcr.data & (0b11u64 << 4u64)) | ((if rcs { 1u64 } else { 0u64 }))) | (crp)),
            final(self).usbcmd == old(self).usbcmd,
            final(self).usbsts == old(self).usbsts,
            final(self).pagesize == old(self).pagesize,
            final(self)._reserved == old(self)._reserved,
            final(self).dnctrl == old(self).dnctrl,
            final(self)._reserved2 == old(self)._reserved2,
            final(self).dcbaap == old(self).dcbaap,
            final(self).config == old(self).config,
    {
        let mut val = self.crcr.data;
        val = val & (0b11 << 4);
        val = val | (rcs as u64);
        val = val | (crp);
        self.crcr.data = val;
    }

    pub fn stop_command(&mut self)
        ensures
            final(self).crcr.data == ((old(self).crcr.data & (0b11u64 << 4u64)) | (1u64 << 1u64)),
            final(self).usbcmd == old(self).usbcmd,
            final(self).usbsts == old(self).usbsts,
            final(self).pagesize == old(self).pagesize,
            final(self)._reserved == old(self)._reserved,
            final(self).dnctrl == old(self).dnctrl,
            final(self)._reserved2 == old(self)._reserved2,
            final(self).dcbaap == old(self).dcbaap,
            final(self).config == old(self).config,
    {
        let mut val = self.crcr.data;
        val = val & (0b11 << 4);
        val = val | (1 << 1);
        self.crcr.data = val;
    }

    pub fn abort_command(&mut self)
        ensures
            final(self).crcr.data == ((old(self).crcr.data & (0b11u64 << 4u64)) | (1u64 << 2u64)),
            final(self).usbcmd == old(self).usbcmd,
            final(self).usbsts == old(self).usbsts,
            final(self).pagesize == old(self).pagesize,
            final(self)._reserved == old(self)._reserved,
            final(self).dnctrl == old(self).dnctrl,
            final(self)._reserved2 == old(self)._reserved2,
            final(self).dcbaap == old(self).dcbaap,
            final(self).config == old(self).config,
    {
        let mut val = self.crcr.data;
        val = val & (0b11 << 4);
        val = val | (1 << 2);
        self.crcr.data = val;
    }

    pub fn device_context_base_address_array_pointer(&self) -> (ret: u64)
        ensures
            ret == (self.dcbaap.data),
    {
        self.dcbaap.data
    }

    pub fn set_device_context_base_address_array_pointer(&mut self, ptr: u64)
        ensures
            final(self).dcbaap.data == ptr,
            final(self).usbcmd == old(self).usbcmd,
            final(self).usbsts == old(self).usbsts,
            final(self).pagesize == old(self).pagesize,
            final(self)._reserved == old(self)._reserved,
            final(self).dnctrl == old(self).dnctrl,
            final(self).crcr == old(self).crcr,
            final(self)._reserved2 == old(self)._reserved2,
            final(self).config == old(self).config,
    {
        self.dcbaap.data = ptr;
    }

    pub fn max_device_slots_enabled(&self) -> (ret: u8)
        ensures
            ret == ((self.dcbaap.data & 0xFF) as u8),
    {
        (self.dcbaap.data & 0xFF) as u8
    }

    pub fn set_max_device_slots_enabled(&mut self, value: u8)
        ensures
            final(self).config.data == ((old(self).config.data & (!0xFFu32)) | (value as u32)),
            final(self).usbcmd == old(self).usbcmd,
            final(self).usbsts == old(self).usbsts,
            final(self).pagesize == old(self).pagesize,
            final(self)._reserved == old(self)._reserved,
            final(self).dnctrl == old(self).dnctrl,
            final(self).crcr == old(self).crcr,
            final(self)._reserved2 == old(self)._reserved2,
            final(self).dcbaap == old(self).dcbaap,
    {
        let mut val = self.config.data;
        val = val & (!0xFF);
        val = val | (value as u32);
        self.config.data = val;
    }

    pub fn u32_entry_enabled(&self) -> (ret: bool)
        ensures
            ret == ((self.config.data >> 8u32 & 1 == 1)),
    {
        (self.config.data >> 8u32 & 1 == 1)
    }

    pub fn set_u32_entry_enabled(&mut self, status: bool)
        ensures
            final(self).config.data == (if status { old(self).config.data | (1u32 << 8u32) } else { old(self).config.data & (!(1u32 << 8u32)) }),
            final(self).usbcmd == old(self).usbcmd,
            final(self).usbsts == old(self).usbsts,
            final(self).pagesize == old(self).pagesize,
            final(self)._reserved == old(self)._reserved,
            final(self).dnctrl == old(self).dnctrl,
            final(self).crcr == old(self).crcr,
            final(self)._reserved2 == old(self)._reserved2,
            final(self).dcbaap == old(self).dcbaap,
    {
        let mut val = self.config.data;
        if status {
            val = val | (1 << 8);
        } else {
            val = val & (!(1 << 8));
        }
        self.config.data = val;
    }

    pub fn configuration_information_enabled(&self) -> (ret: bool)
        ensures
            ret == ((self.config.data >> 8u32 & 1 == 1)),
    {
        (self.config.data >> 8u32 & 1 == 1)
    }

    pub fn set_configuration_information_enabled(&mut self, status: bool)
        ensures
            final(self).config.data == (if status { old(self).config.data | (1u32 << 8u32) } else { old(self).config.data & (!(1u32 << 8u32)) }),
            final(self).usbcmd == old(self).usbcmd,
            final(self).usbsts == old(self).usbsts,
            final(self).pagesize == old(self).pagesize,
            final(self)._reserved == old(self)._reserved,
            final(self).dnctrl == old(self).dnctrl,
            final(self).crcr == old(self).crcr,
            final(self)._reserved2 == old(self)._reserved2,
            final(self).dcbaap == old(self).dcbaap,
    {
        let mut val = self.config.data;
        if status {
            val = val | (1 << 8);
        } else {
            val = val & (!(1 << 8));
        }
        self.config.data = val;
    }
}

/// The registers of one root hub port.
#[derive(Clone, Copy)]
pub struct Port {
    pub portsc: Register<u32>,
    pub portpmsc: Register<u32>,
    pub portli: Register<u32>,
    pub porthlpmc: Register<u32>,
}

impl Port {
    pub fn current_connect_status(&self) -> (ret: bool)
        ensures
            ret == ((self.portsc.data >> 0u32 & 1 == 1)),
    {
        (self.portsc.data >> 0u32 & 1 == 1)
    }

    pub fn port_enabled(&self) -> (ret: bool)
        ensures
            ret == ((self.portsc.data >> 1u32 & 1 == 1)),
    {
        (self.portsc.data >> 1u32 & 1 == 1)
    }

    pub fn disable_port(&mut self)
        ensures
            final(self).portsc.data == ((old(self).portsc.data & (PORTSC_PMASK)) | (1u32 << 1u32)),
            final(self).portpmsc == old(self).portpmsc,
            final(self).portli == old(self).portli,
            final(self).porthlpmc == old(self).porthlpmc,
    {
        let mut val = self.portsc.data;
        val = val & (PORTSC_PMASK);
        val = val | (1 << 1);
        self.portsc.data = val;
    }

    pub fn over_current_active(&self) -> (ret: bool)
        ensures
            ret == ((self.portsc.data >> 3u32 & 1 == 1)),
    {
        (self.portsc.data >> 3u32 & 1 == 1)
    }

    pub fn port_reset_status(&self) -> (ret: bool)
        ensures
            ret == ((self.portsc.data >> 4u32 & 1 == 1)),
    {
        (self.portsc.data >> 4u32 & 1 == 1)
    }

    pub fn reset_port(&mut self)
        ensures
            final(self).portsc.data == ((old(self).portsc.data & (PORTSC_PMASK)) | (1u32 << 4u32)),
            final(self).portpmsc == old(self).portpmsc,
            final(self).portli == old(self).portli,
            final(self).porthlpmc == old(self).porthlpmc,
    {
        let mut val = self.portsc.data;
        val = val & (PORTSC_PMASK);
        val = val | (1 << 4);
        self.portsc.data = val;
    }

    pub fn port_link_state(&self) -> (ret: u8)
        ensures
            ret == ((self.portsc.data >> 5 & 0xF) as u8),
    {
        (self.portsc.data >> 5 & 0xF) as u8
    }

    pub fn set_port_link_state(&mut self, state: u8)
        ensures
            final(self).portsc.data == ((((old(self).portsc.data & (PORTSC_PMASK)) & (!(0xFu32 << 5u32))) | ((state as u32 & 0xFu32) << 5u32)) | (1u32 << 16u32)),
            final(self).portpmsc == old(self).portpmsc,
            final(self).portli == old(self).portli,
            final(self).porthlpmc == old(self).porthlpmc,
    {
        let mut val = self.portsc.data;
        val = val & (PORTSC_PMASK);
        val = val & (!(0xF << 5));
        val = val | ((state as u32 & 0xF) << 5);
        val = val | (1 << 16);
        self.portsc.data = val;
    }

    pub fn port_power(&self) -> (ret: bool)
        ensures
            ret == ((self.portsc.data >> 9u32 & 1 == 1)),
    {
        (self.portsc.data >> 9u32 & 1 == 1)
    }

    pub fn set_port_power(&mut self, status: bool)
        ensures
            final(self).portsc.data == (if status { (old(self).portsc.data & (PORTSC_PMASK)) | (1u32 << 9u32) } else { (old(self).portsc.data & (PORTSC_PMASK)) & (!(1u32 << 9u32)) }),
            final(self).portpmsc == old(self).portpmsc,
            final(self).portli == old(self).portli,
            final(self).porthlpmc == old(self).porthlpmc,
    {
        let mut val = self.portsc.data;
        val = val & (PORTSC_PMASK);
        if status {
            val = val | (1 << 9);
        } else {
            val = val & (!(1 << 9));
        }
        self.portsc.data = val;
    }

    pub fn port_speed(&self) -> (ret: u8)
        ensures
            ret == ((self.portsc.data >> 10 & 0xF) as u8),
    {
        (self.portsc.data >> 10 & 0xF) as u8
    }

    pub fn port_indicator(&self) -> (ret: u8)
        ensures
            ret == ((self.portsc.data >> 14 & 0b11) as u8),
    {
        (self.portsc.data >> 14 & 0b11) as u8
    }

    pub fn set_port_indicator(&mut self, status: u8)
        ensures
            final(self).portsc.data == (((old(self).portsc.data & (PORTSC_PMASK)) & (!(0b11u32 << 14u32))) | ((status as u32 & 0b11u32) << 14u32)),
            final(self).portpmsc == old(self).portpmsc,
            final(self).portli == old(self).portli,
            final(self).porthlpmc == old(self).porthlpmc,
    {
        let mut val = self.portsc.data;
        val = val & (PORTSC_PMASK);
        val = val & (!(0b11 << 14));
        val = val | ((status as u32 & 0b11) << 14);
        self.portsc.data = val;
    }

    pub fn connect_status_change(&self) -> (ret: bool)
        ensures
            ret == ((self.portsc.data >> 17u32 & 1 == 1)),
    {
        (self.portsc.data >> 17u32 & 1 == 1)
    }

    pub fn clear_connect_status_change(&mut self)
        ensures
            final(self).portsc.data == ((old(self).portsc.data & (PORTSC_PMASK)) | (1u32 << 17u32)),
            final(self).portpmsc == old(self).portpmsc,
            final(self).portli == old(self).portli,
            final(self).porthlpmc == old(self).porthlpmc,
    {
        let mut val = self.portsc.data;
        val = val & (PORTSC_PMASK);
        val = val | (1 << 17);
        self.portsc.data = val;
    }

    pub fn port_enable_disable_change(&self) -> (ret: bool)
        ensures
            ret == ((self.portsc.data >> 18u32 & 1 == 1)),
    {
        (self.portsc.data >> 18u32 & 1 == 1)
    }

    pub fn clear_port_enable_disable_change(&mut self)
        ensures
            final(self).portsc.data == ((old(self).portsc.data & (PORTSC_PMASK)) | (1u32 << 18u32)),
            final(self).portpmsc == old(self).portpmsc,
            final(self).portli == old(self).portli,
            final(self).porthlpmc == old(self).porthlpmc,
    {
        let mut val = self.portsc.data;
        val = val & (PORTSC_PMASK);
        val = val | (1 << 18);
        self.portsc.data = val;
    }

    pub fn warm_port_reset_change(&self) -> (ret: bool)
        ensures
            ret == ((self.portsc.data >> 19u32 & 1 == 1)),
    {
        (self.portsc.data >> 19u32 & 1 == 1)
    }

    pub fn clear_warm_port_reset_change(&mut self)
        ensures
            final(self).portsc.data == ((old(self).portsc.data & (PORTSC_PMASK)) | (1u32 << 19u32)),
            final(self).portpmsc == old(self).portpmsc,
            final(self).portli == old(self).portli,
            final(self).porthlpmc == old(self).porthlpmc,
    {
        let mut val = self.portsc.data;
        val = val & (PORTSC_PMASK);
        val = val | (1 << 19);
        self.portsc.data = val;
    }

    pub fn over_current_change(&self) -> (ret: bool)
        ensures
            ret == ((self.portsc.data >> 20u32 & 1 == 1)),
    {
        (self.portsc.data >> 20u32 & 1 == 1)
    }

    pub fn clear_over_current_change(&mut self)
        ensures
            final(self).portsc.data == ((old(self).portsc.data & (PORTSC_PMASK)) | (1u32 << 20u32)),
            final(self).portpmsc == old(self).portpmsc,
            final(self).portli == old(self).portli,
            final(self).porthlpmc == old(self).porthlpmc,
    {
        let mut val = self.portsc.data;
        val = val & (PORTSC_PMASK);
        val = val | (1 << 20);
        self.portsc.data = val;
    }

    pub fn port_reset_change(&self) -> (ret: bool)
        ensures
            ret == ((self.portsc.data >> 21u32 & 1 == 1)),
    {
        (self.portsc.data >> 21u32 & 1 == 1)
    }

    pub fn clear_port_reset_change(&mut self)
        ensures
            final(self).portsc.data == ((old(self).portsc.data & (PORTSC_PMASK)) | (1u32 << 21u32)),
            final(self).portpmsc == old(self).portpmsc,
            final(self).portli == old(self).portli,
            final(self).porthlpmc == old(self).porthlpmc,
    {
        let mut val = self.portsc.data;
        val = val & (PORTSC_PMASK);
        val = val | (1 << 21);
        self.portsc.data = val;
    }

    pub fn port_link_state_change(&self) -> (ret: bool)
        ensures
            ret == ((self.portsc.data >> 22u32 & 1 == 1)),
    {
        (self.portsc.data >> 22u32 & 1 == 1)
    }

    pub fn clear_port_link_state_change(&mut self)
        ensures
            final(self).portsc.data == ((old(self).portsc.data & (PORTSC_PMASK)) | (1u32 << 22u32)),
            final(self).portpmsc == old(self).portpmsc,
            final(self).portli == old(self).portli,
            final(self).porthlpmc == old(self).porthlpmc,
    {
        let mut val = self.portsc.data;
        val = val & (PORTSC_PMASK);
        val = val | (1 << 22);
        self.portsc.data = val;
    }

    pub fn port_config_error_change(&self) -> (ret: bool)
        ensures
            ret == ((self.portsc.data >> 23u32 & 1 == 1)),
    {
        (self.portsc.data >> 23u32 & 1 == 1)
    }

    pub fn clear_port_config_error_change(&mut self)
        ensures
            final(self).portsc.data == ((old(self).portsc.data & (PORTSC_PMASK)) | (1u32 << 23u32)),
            final(self).portpmsc == old(self).portpmsc,
            final(self).portli == old(self).portli,
            final(self).porthlpmc == old(self).porthlpmc,
    {
        let mut val = self.portsc.data;
        val = val & (PORTSC_PMASK);
        val = val | (1 << 23);
        self.portsc.data = val;
    }

    pub fn cold_attach_status(&self) -> (ret: bool)
        ensures
            ret == ((self.portsc.data >> 24u32 & 1 == 1)),
    {
        (self.portsc.data >> 24u32 & 1 == 1)
    }

    pub fn wake_on_connect_enabled(&self) -> (ret: bool)
        ensures
            ret == ((self.portsc.data >> 25u32 & 1 == 1)),
    {
        (self.portsc.data >> 25u32 & 1 == 1)
    }

    pub fn set_wake_on_connect_enabled(&mut self, status: bool)
        ensures
            final(self).portsc.data == (if status { (old(self).portsc.data & (PORTSC_PMASK)) | (1u32 << 25u32) } else { (old(self).portsc.data & (PORTSC_PMASK)) & (!(1u32 << 25u32)) }),
            final(self).portpmsc == old(self).portpmsc,
            final(self).portli == old(self).portli,
            final(self).porthlpmc == old(self).porthlpmc,
    {
        let mut val = self.portsc.data;
        val = val & (PORTSC_PMASK);
        if status {
            val = val | (1 << 25);
        } else {
            val = val & (!(1 << 25));
        }
        self.portsc.data = val;
    }

    pub fn wake_on_disconnect_enabled(&self) -> (ret: bool)
        ensures
            ret == ((self.portsc.data >> 26u32 & 1 == 1)),
    {
        (self.portsc.data >> 26u32 & 1 == 1)
    }

    pub fn set_wake_on_disconnect_enabled(&mut self, status: bool)
        ensures
            final(self).portsc.data == (if status { (old(self).portsc.data & (PORTSC_PMASK)) | (1u32 << 26u32) } else { (old(self).portsc.data & (PORTSC_PMASK)) & (!(1u32 << 26u32)) }),
            final(self).portpmsc == old(self).portpmsc,
            final(self).portli == old(self).portli,
            final(self).porthlpmc == old(self).porthlpmc,
    {
        let mut val = self.portsc.data;
        val = val & (PORTSC_PMASK);
        if status {
            val = val | (1 << 26);
        } else {
            val = val & (!(1 << 26));
        }
        self.portsc.data = val;
    }

    pub fn wake_on_over_current_enabled(&self) -> (ret: bool)
        ensures
            ret == ((self.portsc.data >> 27u32 & 1 == 1)),
    {
        (self.portsc.data >> 27u32 & 1 == 1)
    }

    pub fn set_wake_on_over_current_enabled(&mut self, status: bool)
        ensures
            final(self).portsc.data == (if status { (old(self).portsc.data & (PORTSC_PMASK)) | (1u32 << 27u32) } else { (old(self).portsc.data & (PORTSC_PMASK)) & (!(1u32 << 27u32)) }),
            final(self).portpmsc == old(self).portpmsc,
            final(self).portli == old(self).portli,
            final(self).porthlpmc == old(self).porthlpmc,
    {
        let mut val = self.portsc.data;
        val = val & (PORTSC_PMASK);
        if status {
            val = val | (1 << 27);
        } else {
            val = val & (!(1 << 27));
        }
        self.portsc.data = val;
    }

    pub fn device_removable(&self) -> (ret: bool)
        ensures
            ret == ((self.portsc.data >> 30u32 & 1 == 1)),
    {
        (self.portsc.data >> 30u32 & 1 == 1)
    }

    pub fn warm_reset_port(&mut self)
        ensures
            final(self).portsc.data == ((old(self).portsc.data & (PORTSC_PMASK)) | (1u32 << 31u32)),
            final(self).portpmsc == old(self).portpmsc,
            final(self).portli == old(self).portli,
            final(self).porthlpmc == old(self).porthlpmc,
    {
        let mut val = self.portsc.data;
        val = val & (PORTSC_PMASK);
        val = val | (1 << 31);
        self.portsc.data = val;
    }

    pub fn u1_timeout(&self) -> (ret: u8)
        ensures
            ret == ((self.portpmsc.data & 0xFF) as u8),
    {
        (self.portpmsc.data & 0xFF) as u8
    }

    pub fn set_u1_timeout(&mut self, status: u8)
        ensures
            final(self).portpmsc.data == ((old(self).portpmsc.data & (!0xFFu32)) | (status as u32)),
            final(self).portsc == old(self).portsc,
            final(self).portli == old(self).portli,
            final(self).porthlpmc == old(self).porthlpmc,
    {
        let mut val = self.portpmsc.data;
        val = val & (!0xFF);
        val = val | (status as u32);
        self.portpmsc.data = val;
    }

    pub fn u2_timeout(&self) -> (ret: u16)
        ensures
            ret == ((self.portpmsc.data >> 8 & 0xFFFF) as u16),
    {
        (self.portpmsc.data >> 8 & 0xFFFF) as u16
    }

    pub fn set_u2_timeout(&mut self, status: u16)
        ensures
            final(self).portpmsc.data == ((old(self).portpmsc.data & (!(0xFFFFu32 << 8u32))) | ((status as u32) << 8u32)),
            final(self).portsc == old(self).portsc,
            final(self).portli == old(self).portli,
            final(self).porthlpmc == old(self).porthlpmc,
    {
        let mut val = self.portpmsc.data;
        val = val & (!(0xFFFF << 8));
        val = val | ((status as u32) << 8);
        self.portpmsc.data = val;
    }

    pub fn force_link_pm_accept(&self) -> (ret: bool)
        ensures
            ret == ((self.portpmsc.data >> 16u32 & 1 == 1)),
    {
        (self.portpmsc.data >> 16u32 & 1 == 1)
    }

    pub fn set_force_link_pm_accept(&mut self, status: bool)
        ensures
            final(self).portpmsc.data == (if status { old(self).portpmsc.data | (1u32 << 16u32) } else { old(self).portpmsc.data & (!(1u32 << 16u32)) }),
            final(self).portsc == old(self).portsc,
            final(self).portli == old(self).portli,
            final(self).porthlpmc == old(self).porthlpmc,
    {
        let mut val = self.portpmsc.data;
        if status {
            val = val | (1 << 16);
        } else {
            val = val & (!(1 << 16));
        }
        self.portpmsc.data = val;
    }

    pub fn l1_status(&self) -> (ret: u8)
        ensures
            ret == ((self.portpmsc.data & 0b111) as u8),
    {
        (self.portpmsc.data & 0b111) as u8
    }

    pub fn remote_wake_enabled(&self) -> (ret: bool)
        ensures
            ret == ((self.portpmsc.data >> 3u32 & 1 == 1)),
    {
        (self.portpmsc.data >> 3u32 & 1 == 1)
    }

    pub fn set_remote_wake_enabled(&mut self, status: bool)
        ensures
            final(self).portpmsc.data == (if status { old(self).portpmsc.data | (1u32 << 3u32) } else { old(self).portpmsc.data & (!(1u32 << 3u32)) }),
            final(self).portsc == old(self).portsc,
            final(self).portli == old(self).portli,
            final(self).porthlpmc == old(self).porthlpmc,
    {
        let mut val = self.portpmsc.data;
        if status {
            val = val | (1 << 3);
        } else {
            val = val & (!(1 << 3));
        }
        self.portpmsc.data = val;
    }

    pub fn best_effor_service_latency(&self) -> (ret: u8)
        ensures
            ret == ((self.portpmsc.data >> 4 & 0xF) as u8),
    {
        (self.portpmsc.data >> 4 & 0xF) as u8
    }

    /// Writes the low four bits of `status` to bits 7:4 of PORTPMSC; every other bit
    /// of the register is preserved.
    pub fn set_best_effort_service_latency(&mut self, status: u8)
        ensures
            final(self).portpmsc.data == ((old(self).portpmsc.data & (!(0xFu32 << 4u32))) | (((status & 0xF) as u32) << 4u32)),
            final(self).portpmsc.data & !0xF0u32 == old(self).portpmsc.data & !0xF0u32,
            final(self).portpmsc.data >> 4u32 & 0xF == (status & 0xF) as u32,
            final(self).portsc == old(self).portsc,
            final(self).portli == old(self).portli,
            final(self).porthlpmc == old(self).porthlpmc,
    {
        let mut val = self.portpmsc.data;
        let old_val: u32 = val;
        val = val & (!(0xF << 4));
        val = val | (((status & 0xF) as u32) << 4);
        assert(val & !0xF0u32 == old_val & !0xF0u32 && val >> 4u32 & 0xF == (status & 0xF) as u32) by (bit_vector)
            requires
                val == ((old_val & (!(0xFu32 << 4u32))) | (((status & 0xF) as u32) << 4u32)),
        ;
        self.portpmsc.data = val;
    }

    pub fn l1_device_slot(&self) -> (ret: u8)
        ensures
            ret == ((self.portpmsc.data >> 8 & 0xFF) as u8),
    {
        (self.portpmsc.data >> 8 & 0xFF) as u8
    }

    pub fn set_l1_device_slot(&mut self, status: u8)
        ensures
            final(self).portpmsc.data == ((old(self).portpmsc.data & (!(0xFFu32 << 8u32))) | ((status as u32) << 8u32)),
            final(self).portsc == old(self).portsc,
            final(self).portli == old(self).portli,
            final(self).porthlpmc == old(self).porthlpmc,
    {
        let mut val = self.portpmsc.data;
        val = val & (!(0xFF << 8));
        val = val | ((status as u32) << 8);
        self.portpmsc.data = val;
    }

    pub fn hardware_lpm_enabled(&self) -> (ret: bool)
        ensures
            ret == ((self.portpmsc.data >> 16u32 & 1 == 1)),
    {
        (self.portpmsc.data >> 16u32 & 1 == 1)
    }

    pub fn set_hardware_lmp_enabled(&mut self, status: bool)
        ensures
            final(self).portpmsc.data == (if status { old(self).portpmsc.data | (1u32 << 16u32) } else { old(self).portpmsc.data & (!(1u32 << 16u32)) }),
            final(self).portsc == old(self).portsc,
            final(self).portli == old(self).portli,
            final(self).porthlpmc == old(self).porthlpmc,
    {
        let mut val = self.portpmsc.data;
        if status {
            val = val | (1 << 16);
        } else {
            val = val & (!(1 << 16));
        }
        self.portpmsc.data = val;
    }

    pub fn port_test_control(&self) -> (ret: u8)
        ensures
            ret == ((self.portpmsc.data >> 28) as u8),
    {
        (self.portpmsc.data >> 28) as u8
    }

    pub fn set_port_test_control(&mut self, status: u8)
        ensures
            final(self).portpmsc.data == ((old(self).portpmsc.data & (!(0xFu32 << 28u32))) | ((status as u32) << 28u32)),
            final(self).portsc == old(self).portsc,
            final(self).portli == old(self).portli,
            final(self).porthlpmc == old(self).porthlpmc,
    {
        let mut val = self.portpmsc.data;
        val = val & (!(0xF << 28));
        val = val | ((status as u32) << 28);
        self.portpmsc.data = val;
    }

    pub fn link_error_count(&self) -> (ret: u16)
        ensures
            ret == ((self.portli.data & 0xFFFF) as u16),
    {
        (self.portli.data & 0xFFFF) as u16
    }

    pub fn reset_link_error_count(&mut self)
        ensures
            final(self).portli.data == (old(self).portli.data & (!0xFFFFu32)),
            final(self).portsc == old(self).portsc,
            final(self).portpmsc == old(self).portpmsc,
            final(self).porthlpmc == old(self).porthlpmc,
    {
        let mut val = self.portli.data;
        val = val & (!0xFFFF);
        self.portli.data = val;
    }

    pub fn rx_lane_count(&self) -> (ret: u8)
        ensures
            ret == ((self.portli.data >> 16 & 0xF) as u8),
    {
        (self.portli.data >> 16 & 0xF) as u8
    }

    pub fn tx_lane_count(&self) -> (ret: u8)
        ensures
            ret == ((self.portli.data >> 20 & 0xF) as u8),
    {
        (self.portli.data >> 20 & 0xF) as u8
    }
}


/// Setting or clearing one bit of a register and reading it back gives the value
/// written, and leaves every other bit as it was: what each setter of a one-bit
/// field (`v | 1 << n` to set, `v & !(1 << n)` to clear) promises its getter.
pub proof fn lemma_set_then_get(v: u32, n: u32, m: u32, status: bool)
    requires
        n < 32,
        m < 32,
    ensures
        ((if status { v | (1u32 << n) } else { v & !(1u32 << n) }) >> n & 1 == 1) == status,
        m != n ==> (if status { v | (1u32 << n) } else { v & !(1u32 << n) }) >> m & 1 == v >> m & 1,
{
    assert(((v | (1u32 << n)) >> n & 1 == 1) && ((v & !(1u32 << n)) >> n & 1 == 0) && (m != n ==> (v | (1u32 << n))
        >> m & 1 == v >> m & 1 && (v & !(1u32 << n)) >> m & 1 == v >> m & 1)) by (bit_vector)
        requires
            n < 32,
            m < 32,
    ;
}

} // verus!
