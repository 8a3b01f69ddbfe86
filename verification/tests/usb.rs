use osdev::kernel::usb::xhci::datastructures::{
    Dcbaa32, Dcbaa64, DeviceContext32, DeviceContext64, EndpointContext, SlotContext,
};
use osdev::kernel::usb::xhci::kernel_address;
use osdev::kernel::usb::xhci::register::{Capability, Num, Operational, Port, Register, PORTSC_PMASK};

fn reg(v: u32) -> Register<u32> {
    Register::new(v)
}

fn capability(words: [u32; 9]) -> Capability {
    Capability {
        first: reg(words[0]),
        hcsparams1: reg(words[1]),
        hcsparams2: reg(words[2]),
        hcsparams3: reg(words[3]),
        hccparams1: reg(words[4]),
        dboff: reg(words[5]),
        rtsoff: reg(words[6]),
        hccparams2: reg(words[7]),
        vtiosoff: reg(words[8]),
    }
}

fn operational() -> Operational {
    Operational {
        usbcmd: reg(0),
        usbsts: reg(0),
        pagesize: reg(1),
        _reserved: [reg(0); 2],
        dnctrl: reg(0),
        crcr: Register::new(0u64),
        _reserved2: [reg(0); 4],
        dcbaap: Register::new(0u64),
        config: reg(0),
    }
}

#[test]
fn capability_fields() {
    let c = capability([0x0110_0020, 0x0800_0440, 0xF820_0003, 0x0200_000A, 0x0000_0004, 0x100, 0x200, 0x1, 0x300]);
    assert_eq!(c.cap_length(), 0x20);
    assert_eq!(c.interface_version(), 0x0110);
    assert_eq!(c.max_device_slots(), 0x40);
    assert_eq!(c.max_interrupters(), 4);
    assert_eq!(c.max_ports(), 8);
    assert_eq!(c.ist(), 3);
    assert_eq!(c.max_scratchpad_buffers(), (0x1F << 5) | 1);
    assert_eq!(c.u1_device_exit_latency(), 0x0A);
    assert_eq!(c.u2_device_exit_latency(), 0x0200);
    assert!(c.uses_64_bit_contexts());
    assert!(!c.uses_64_bit_addresses());
    assert!(c.secondary_sid());
    assert_eq!(c.doorbell_offset(), 0x100);
    assert_eq!(c.runtime_register_space_offset(), 0x200);
    assert!(c.u3_entry());
    assert_eq!(c.vtio_register_space_offset(), 0x300);
}

#[test]
fn command_register_bits() {
    let mut o = operational();
    o.usbsts.write(1);
    assert!(o.is_halted());
    assert!(!o.get_run_stop());
    o.start_running();
    assert!(o.get_run_stop());
    o.set_interrupts_enabled(true);
    assert!(o.interrupts_enabled());
    o.set_interrupts_enabled(false);
    assert!(!o.interrupts_enabled());
    assert!(o.get_run_stop());
    o.stop_running();
    assert_eq!(o.usbcmd.read(), 0);
    assert!(o.light_host_controller_reset_complete());
    o.light_host_controller_reset();
    assert!(!o.light_host_controller_reset_complete());
}

#[test]
fn status_register_is_written_with_ones_to_clear() {
    let mut o = operational();
    o.usbsts.write(0xFFFF_FFFF);
    o.clear_event_interrupt();
    assert_eq!(o.usbsts.read(), 1 << 3);
    assert!(o.event_interrupt());
    assert!(o.controller_ready());
}

#[test]
fn page_size_and_slots() {
    let mut o = operational();
    assert_eq!(o.page_size(), 4096);
    o.config.write(0xABCD_EF00);
    o.set_max_device_slots_enabled(1);
    assert_eq!(o.config.read(), 0xABCD_EF01);
    o.set_device_context_base_address_array_pointer(0x1234_5000);
    assert_eq!(o.device_context_base_address_array_pointer(), 0x1234_5000);
    // The slot count is read from the low byte of DCBAAP, as the driver reads it.
    assert_eq!(o.max_device_slots_enabled(), 0x00);
    o.set_notification_enabled(3, true);
    assert!(o.notification_enabled(3));
    o.set_ring_cycle_state(true, 0x1000);
    assert_eq!(o.crcr.read(), 0x1001);
}

#[test]
fn port_writes_keep_only_preserved_bits() {
    let mut p = Port { portsc: reg(0xFFFF_FFFF), portpmsc: reg(0), portli: reg(0x0012_0034), porthlpmc: reg(0) };
    assert!(p.current_connect_status());
    p.reset_port();
    assert_eq!(p.portsc.read(), PORTSC_PMASK | (1 << 4));
    p.set_port_link_state(3);
    assert_eq!(p.port_link_state(), 3);
    p.set_port_power(false);
    assert!(!p.port_power());
    assert_eq!(p.link_error_count(), 0x34);
    assert_eq!(p.rx_lane_count(), 2);
    p.reset_link_error_count();
    assert_eq!(p.link_error_count(), 0);
    p.set_u2_timeout(0xBEEF);
    assert_eq!(p.u2_timeout(), 0xBEEF);
}

#[test]
fn context_arrays_start_empty() {
    let a = Dcbaa32::new();
    assert_eq!(a.scratchpad_bufer_addr, 0);
    assert_eq!(a.device_contexts.len(), 255);
    assert!(a.device_contexts.iter().all(|c| c.is_none()));
    let b = Dcbaa64::new();
    assert_eq!(b.device_contexts.len(), 255);
    assert!(b.device_contexts.iter().all(|c| c.is_none()));
}

#[test]
fn endpoint_numbering() {
    let slot = SlotContext { register0: reg(0x2600_0123), register1: reg(0x0305_0010), register2: reg(0x0040_0201), register3: reg(0x1800_0007), reserved: [0; 4] };
    assert_eq!(slot.route_string(), 0x123);
    assert!(slot.multi_tt());
    assert!(slot.hub());
    assert_eq!(slot.context_entries(), 4);
    assert_eq!(slot.root_hub_number(), 5);
    assert_eq!(slot.number_of_ports(), 3);
    assert_eq!(slot.parent_hub_slot_id(), 1);
    assert_eq!(slot.parent_port_number(), 2);
    assert_eq!(slot.interrupter_target(), 1);
    assert_eq!(slot.usb_device_address(), 7);
    assert_eq!(slot.slot_state(), 3);
    let eps: Vec<EndpointContext> = (0..62u32).map(|i| EndpointContext { data: reg(i) }).collect();
    let d32 = DeviceContext32 { slot_context: slot, endpoint_contexts: eps[..31].to_vec() };
    assert_eq!(d32.index(1).data.read(), 0);
    assert_eq!(d32.index(31).data.read(), 30);
    let d64 = DeviceContext64 { slot_context: slot, padding: 0, endpoint_contexts: eps.clone() };
    assert_eq!(d64.index(2).data.read(), 2);
    assert_eq!(d64.index(31).data.read(), 60);
}

#[test]
fn numbers_and_addresses() {
    assert_eq!(<u32 as Num>::one(), 1);
    assert_eq!(<u64 as Num>::one(), 1);
    assert_eq!(kernel_address(0xFEB0_0000), 0xFFFF_FF80_FEB0_0000);
    assert_eq!(kernel_address(0xFFFF_FF80_0000_1000), 0xFFFF_FF80_0000_1000);
}

#[test]
fn best_effort_service_latency_writes_only_its_four_bits() {
    let mut p = Port { portsc: reg(0), portpmsc: reg(0xFFFF_FF0F), portli: reg(0), porthlpmc: reg(0) };
    p.set_best_effort_service_latency(0x1A);
    // Only bits 7:4 change: the value's high bits do not reach the L1 device slot.
    assert_eq!(p.portpmsc.read(), 0xFFFF_FFAF);
    assert_eq!(p.best_effor_service_latency(), 0xA);
    assert_eq!(p.l1_device_slot(), 0xFF);
}
