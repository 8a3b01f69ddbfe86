use osdev::kernel::pata::{
    drive_present, poll_status, status_busy, store_sector, Bus, DiskSelect, NewDiskInfo, PataDiskInfo, PollStatus, ReadError,
    ReadPlan,
};
use osdev::kernel::pic;
use osdev::kernel::ps2::{basic, Config, Ps2Driver, Status};
use osdev::kernel::spinlock::Spinlock;

fn identify(lba48: bool, count28: u32, count48: u64) -> Vec<u16> {
    let mut w = vec![0u16; 256];
    if lba48 {
        w[83] = 1 << 10;
    }
    w[60] = count28 as u16;
    w[61] = (count28 >> 16) as u16;
    for k in 0..4 {
        w[100 + k] = (count48 >> (16 * k)) as u16;
    }
    w
}

#[test]
fn identify_answer_gives_the_size() {
    let info = PataDiskInfo::from_identify(&identify(false, 0x0012_3456, 0));
    assert!(!info.supports_lba_48);
    assert_eq!(info.lba_28_sector_count, 0x0012_3456);
    assert_eq!(info.sector_count(), 0x0012_3456);
    let info = PataDiskInfo::from_identify(&identify(true, 5, 0x1_0000_0002));
    assert!(info.supports_lba_48);
    assert_eq!(info.sector_count(), 0x1_0000_0002);
}

fn bus_with_master(info: PataDiskInfo) -> Bus {
    let mut bus = Bus::primary();
    bus.master_drive = NewDiskInfo::Pata(info);
    bus
}

#[test]
fn read_errors() {
    let bus = Bus::primary();
    assert_eq!((bus.io_base, bus.ctl_base), (0x1F0, 0x3F6));
    assert!(bus.plan_read(DiskSelect::Master, 0, 512) == Err(ReadError::MasterNotInitialized));
    assert!(bus.plan_read(DiskSelect::Slave, 0, 512) == Err(ReadError::SlaveNotInitialized));
    let mut bus = Bus::new(0x170, 0x376);
    bus.master_drive = NewDiskInfo::Missing;
    bus.slave_drive = NewDiskInfo::Other;
    assert!(bus.plan_read(DiskSelect::Master, 0, 512) == Err(ReadError::MasterNotConnected));
    assert!(bus.plan_read(DiskSelect::Slave, 0, 512) == Err(ReadError::SlaveNotAta));
    bus.master_drive = NewDiskInfo::Other;
    bus.slave_drive = NewDiskInfo::Missing;
    assert!(bus.plan_read(DiskSelect::Master, 0, 512) == Err(ReadError::MasterNotAta));
    assert!(bus.plan_read(DiskSelect::Slave, 0, 512) == Err(ReadError::SlaveNotConnected));
    let info = PataDiskInfo::from_identify(&identify(false, 1000, 0));
    let bus = bus_with_master(info);
    assert!(bus.plan_read(DiskSelect::Master, 1000, 512) == Err(ReadError::SectorOutOfRange { sectors: 1000, sector: 1000 }));
    assert!(bus.plan_read(DiskSelect::Master, 0, 100) == Err(ReadError::BufferLength { len: 100 }));
    assert!(bus.plan_read(DiskSelect::Master, 0, 512 * 257) == Err(ReadError::OutOfLba28Range { start: 0, end: 257, count: 257 }));
    let info = PataDiskInfo::from_identify(&identify(false, 0x1000_0000, 0));
    let bus = bus_with_master(info);
    assert!(bus.plan_read(DiskSelect::Master, 0xFFF_FFFF, 1024)
        == Err(ReadError::OutOfLba28Range { start: 0xFFF_FFFF, end: 0x1000_0001, count: 2 }));
}

#[test]
fn read_plans() {
    let info = PataDiskInfo::from_identify(&identify(false, 0x0FFF_FFFF, 0));
    let bus = bus_with_master(info);
    let plan = bus.plan_read(DiskSelect::Master, 0x0123_4567, 1024).unwrap();
    assert!(plan == ReadPlan { drive_head: 0xE1, count_byte: 2, lba_low: 0x67, lba_mid: 0x45, lba_high: 0x23, sectors: 2 });
    assert_eq!(plan.transfer_count(), 2);
    let plan = bus.plan_read(DiskSelect::Master, 0, 256 * 512).unwrap();
    assert_eq!(plan.count_byte, 0);
    assert_eq!(plan.sectors, 256);
    // The transfer loop counts with the count byte, so a 256-sector read moves none.
    assert_eq!(plan.transfer_count(), 0);
    let mut bus = Bus::primary();
    bus.slave_drive = NewDiskInfo::Pata(info);
    let plan = bus.plan_read(DiskSelect::Slave, 5, 512).unwrap();
    assert_eq!(plan.drive_head, 0xF0);
}

#[test]
fn sector_words_are_stored_low_byte_first() {
    let mut buffer = vec![0u8; 1024];
    let words: Vec<u16> = (0..256).map(|i| 0x0100 * (i as u16) + 7).collect();
    store_sector(&mut buffer, 1, &words);
    assert!(buffer[..512].iter().all(|&b| b == 0));
    assert_eq!(buffer[512], 7);
    assert_eq!(buffer[513], 0);
    assert_eq!(buffer[514], 7);
    assert_eq!(buffer[515], 1);
    assert_eq!(buffer[1023], 255);
}

#[test]
fn status_bytes_while_polling() {
    assert!(status_busy(0x88));
    assert!(!status_busy(0x08));
    // Once the drive is no longer busy, the busy bit is not looked at again.
    assert!(poll_status(0x88) == PollStatus::Ready);
    assert!(poll_status(0x08) == PollStatus::Ready);
    assert!(poll_status(0x09) == PollStatus::Ready);
    assert!(poll_status(0x01) == PollStatus::Error);
    assert!(poll_status(0x20) == PollStatus::DiskError);
    assert!(poll_status(0x40) == PollStatus::Waiting);
    assert!(!drive_present(0));
    assert!(drive_present(0x50));
}

#[test]
fn configuration_byte_round_trip() {
    for v in 0..=255u8 {
        assert_eq!(u8::from(Config::from(v)), v);
    }
    let c = Config::from(0b0101_0011);
    assert!(c.first_port_interrupt);
    assert!(c.second_port_interrupt);
    assert!(!c.first_port_clock);
    assert!(c.second_port_clock);
    assert!(c.first_port_translation);
}

#[test]
fn controller_setup_bytes() {
    let d = Ps2Driver::new();
    assert_eq!(d.disable_commands(), (0xAD, 0xA7));
    // Interrupts and translation off; the clock bits and bits 2, 3, 7 stay.
    assert_eq!(d.initial_config(0b1111_1111), 0b1011_1100);
    assert_eq!(d.interrupt_config(0b0000_0000), 0b0000_0001);
    assert!(Ps2Driver::self_test_passed(0x55));
    assert!(!Ps2Driver::self_test_passed(0xFC));
    assert!(Ps2Driver::port_test_passed(0));
    assert!(!Ps2Driver::port_test_passed(1));
}

#[test]
fn status_bits() {
    let s = Status::new(0b0110_0101);
    assert!(s.output_buffer_full());
    assert!(!s.input_buffer_full());
    assert!(s.system_flag());
    assert!(!s.expecting_command());
    assert!(!s.bit_4());
    assert!(!s.bit_5());
    assert!(s.time_out_error());
    assert!(s.parity_error());
    let b = basic::Ps2Driver::new();
    assert_eq!(b.read_config_command(), 0x20);
    assert!(basic::Ps2Driver::data_ready(1));
    assert!(!basic::Ps2Driver::can_write(2));
    assert!(basic::Status::new(0x08).expecting_command());
}

#[test]
fn interrupt_controller_masks() {
    assert_eq!(pic::enable_irq(1, 0xFF, 0xFF), (true, 0xFD));
    assert_eq!(pic::enable_irq(14, 0xFF, 0xFF), (false, 0xBF));
    assert_eq!(pic::disable_irq(2, 0x00, 0x00), (true, 0x04));
    assert_eq!(pic::disable_irq(8, 0x00, 0x00), (false, 0x01));
    assert_eq!(pic::send_eoi(3), (true, false));
    assert_eq!(pic::send_eoi(12), (true, true));
    assert_eq!(pic::combine(0x12, 0x34), 0x1234);
    assert_eq!(pic::initialization_words(), (0x11, (0x20, 0x28), (4, 2), (1, 1)));
}

#[test]
fn spinlock_takes_and_frees() {
    let mut lock = Spinlock::new(5u32);
    assert!(lock.try_lock());
    assert!(!lock.try_lock());
    lock.unlock();
    {
        let guard = lock.lock();
        assert_eq!(*guard.get(), 5);
    }
    lock.unlock();
    assert!(lock.try_lock());
}

#[test]
fn masking_and_unmasking_restore_the_mask() {
    let (_, masked) = pic::disable_irq(3, 0b1010_0000, 0);
    let (_, unmasked) = pic::enable_irq(3, masked, 0);
    assert_eq!(unmasked, 0b1010_0000);
    let (_, unmasked) = pic::enable_irq(12, 0, 0xFF);
    let (_, masked) = pic::disable_irq(12, 0, unmasked);
    assert_eq!(masked, 0xFF);
}
