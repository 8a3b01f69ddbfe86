use vstd::prelude::*;

verus! {

/// Which drive of a bus.
#[derive(Clone, Copy, PartialEq, Eq, Structural, Debug)]
pub enum DiskSelect {
    Master,
    Slave,
}

/// What is known of a drive.
#[derive(Clone, Copy, PartialEq, Eq, Structural, Debug)]
pub enum NewDiskInfo {
    Uninitialized,
    Pata(PataDiskInfo),
    Missing,
    Other,
}

/// What a PATA drive's IDENTIFY answer says of its size.
#[derive(Clone, Copy, PartialEq, Eq, Structural, Debug)]
pub struct PataDiskInfo {
    pub supports_lba_48: bool,
    pub lba_28_sector_count: u32,
    pub lba_48_sector_count: u64,
}

/// Bit `n` of a 16-bit word.
pub open spec fn word_bit(w: u16, n: u16) -> bool {
    w & (1u16 << n) > 0
}

impl PataDiskInfo {
    /// The number of sectors: the 48-bit count where the drive supports 48-bit
    /// addressing, else the 28-bit count.
    pub open spec fn spec_sector_count(self) -> u64 {
        if self.supports_lba_48 {
            self.lba_48_sector_count
        } else {
            self.lba_28_sector_count as u64
        }
    }

    pub fn sector_count(&self) -> (ret: u64)
        ensures
            ret == self.spec_sector_count(),
    {
        if self.supports_lba_48 {
            self.lba_48_sector_count
        } else {
            self.lba_28_sector_count as u64
        }
    }

    /// Reads the drive's size from its 256-word IDENTIFY answer: 48-bit support is
    /// bit 10 of word 83, the 28-bit count is words 60 and 61, the 48-bit count
    /// words 100 to 103, low word first.
    pub fn from_identify(identify: &Vec<u16>) -> (ret: Self)
        requires
            identify@.len() == 256,
        ensures
            ret.supports_lba_48 == word_bit(identify@[83], 10),
            ret.lba_28_sector_count == identify@[60] as u32 + (identify@[61] as u32) * 0x1_0000,
            ret.lba_48_sector_count == identify@[100] as u64 + (identify@[101] as u64) * 0x1_0000 + (identify@[102] as u64)
                * 0x1_0000_0000 + (identify@[103] as u64) * 0x1_0000_0000_0000,
    {
        let w60 = identify[60];
        let w61 = identify[61];
        let w100 = identify[100];
        let w101 = identify[101];
        let w102 = identify[102];
        let w103 = identify[103];
        let lba_28_sector_count = w60 as u32 | (w61 as u32) << 16u32;
        let lba_48_sector_count = w100 as u64 | (w101 as u64) << 16u64 | (w102 as u64) << 32u64 | (w103 as u64) << 48u64;
        assert(w60 as u32 | (w61 as u32) << 16u32 == w60 as u32 + (w61 as u32) * 0x1_0000) by (bit_vector);
        assert(w100 as u64 | (w101 as u64) << 16u64 | (w102 as u64) << 32u64 | (w103 as u64) << 48u64 == w100 as u64
            + (w101 as u64) * 0x1_0000 + (w102 as u64) * 0x1_0000_0000 + (w103 as u64) * 0x1_0000_0000_0000)
            by (bit_vector);
        PataDiskInfo {
            supports_lba_48: identify[83] & (1u16 << 10u16) > 0,
            lba_28_sector_count,
            lba_48_sector_count,
        }
    }
}

/// Why a read of sectors was refused.
#[derive(Clone, Copy, PartialEq, Eq, Structural, Debug)]
pub enum ReadError {
    MasterNotInitialized,
    MasterNotConnected,
    MasterNotAta,
    SlaveNotInitialized,
    SlaveNotConnected,
    SlaveNotAta,
    /// The drive has `sectors` sectors; the read started at `sector`.
    SectorOutOfRange { sectors: u64, sector: u64 },
    /// The buffer's length is not a multiple of 512.
    BufferLength { len: usize },
    /// The range `start..end` of `count` sectors needs 48-bit addressing, which the
    /// drive lacks.
    OutOfLba28Range { start: u64, end: u64, count: u64 },
    /// More than 256 sectors were asked for.
    TooManySectors { count: u64 },
}

/// The register writes of a 28-bit PIO read: the drive/head byte, the sector count
/// byte (0 for 256), and the three low bytes of the start sector; `sectors` is the
/// number of sectors to read.
#[derive(Clone, Copy, PartialEq, Eq, Structural, Debug)]
pub struct ReadPlan {
    pub drive_head: u8,
    pub count_byte: u8,
    pub lba_low: u8,
    pub lba_mid: u8,
    pub lba_high: u8,
    pub sectors: u64,
}

impl ReadPlan {
    /// How many sectors the transfer loop reads: the sector count byte, so a read of
    /// 256 sectors (count byte 0) transfers none.
    pub fn transfer_count(&self) -> (ret: usize)
        ensures
            ret == self.count_byte as usize,
    {
        self.count_byte as usize
    }
}

/// A PATA bus: the base ports of its I/O and control registers and its two drives.
pub struct Bus {
    pub io_base: u16,
    pub ctl_base: u16,
    pub master_drive: NewDiskInfo,
    pub slave_drive: NewDiskInfo,
}

/// The drive that a read goes to, or why there is none.
pub open spec fn drive_of(master: NewDiskInfo, slave: NewDiskInfo, select: DiskSelect) -> Result<PataDiskInfo, ReadError> {
    match select {
        DiskSelect::Master => match master {
            NewDiskInfo::Uninitialized => Err(ReadError::MasterNotInitialized),
            NewDiskInfo::Missing => Err(ReadError::MasterNotConnected),
            NewDiskInfo::Other => Err(ReadError::MasterNotAta),
            NewDiskInfo::Pata(info) => Ok(info),
        },
        DiskSelect::Slave => match slave {
            NewDiskInfo::Uninitialized => Err(ReadError::SlaveNotInitialized),
            NewDiskInfo::Missing => Err(ReadError::SlaveNotConnected),
            NewDiskInfo::Other => Err(ReadError::SlaveNotAta),
            NewDiskInfo::Pata(info) => Ok(info),
        },
    }
}

/// The range needs 48-bit addressing: it ends past sector 0xFFFFFFF or has more
/// than 256 sectors.
pub open spec fn needs_lba48(start: u64, count: int) -> bool {
    start + count > 0xFFFFFFF || count > 256
}

impl Bus {
    /// A bus whose drives are not yet identified.
    pub fn new(io_base: u16, ctl_base: u16) -> (ret: Self)
        ensures
            ret.io_base == io_base,
            ret.ctl_base == ctl_base,
            ret.master_drive == NewDiskInfo::Uninitialized,
            ret.slave_drive == NewDiskInfo::Uninitialized,
    {
        Self { io_base, ctl_base, master_drive: NewDiskInfo::Uninitialized, slave_drive: NewDiskInfo::Uninitialized }
    }

    /// The bus at the usual ports 0x1F0 and 0x3F6.
    pub fn primary() -> (ret: Self)
        ensures
            ret == Bus::new_spec(0x1F0, 0x3F6),
    {
        Self::new(0x1F0, 0x3F6)
    }

    pub open spec fn new_spec(io_base: u16, ctl_base: u16) -> Bus {
        Bus { io_base, ctl_base, master_drive: NewDiskInfo::Uninitialized, slave_drive: NewDiskInfo::Uninitialized }
    }

    /// The drive that a read of `drive_select` goes to.
    fn drive(&self, drive_select: DiskSelect) -> (ret: Result<PataDiskInfo, ReadError>)
        ensures
            ret == drive_of(self.master_drive, self.slave_drive, drive_select),
    {
        match drive_select {
            DiskSelect::Master => match self.master_drive {
                NewDiskInfo::Uninitialized => Err(ReadError::MasterNotInitialized),
                NewDiskInfo::Missing => Err(ReadError::MasterNotConnected),
                NewDiskInfo::Other => Err(ReadError::MasterNotAta),
                NewDiskInfo::Pata(info) => Ok(info),
            },
            DiskSelect::Slave => match self.slave_drive {
                NewDiskInfo::Uninitialized => Err(ReadError::SlaveNotInitialized),
                NewDiskInfo::Missing => Err(ReadError::SlaveNotConnected),
                NewDiskInfo::Other => Err(ReadError::SlaveNotAta),
                NewDiskInfo::Pata(info) => Ok(info),
            },
        }
    }

    /// Checks a read of `buffer_len` bytes from `start_sector` of a drive and plans
    /// the register writes of a 28-bit PIO read. A range that needs 48-bit
    /// addressing on a drive that supports it is not handled.
    pub fn plan_read(&self, drive_select: DiskSelect, start_sector: u64, buffer_len: usize) -> (ret: Result<ReadPlan, ReadError>)
        requires
            !(drive_of(self.master_drive, self.slave_drive, drive_select) matches Ok(info) && start_sector
                < info.spec_sector_count() && buffer_len % 512 == 0 && needs_lba48(start_sector, (buffer_len / 512) as int)
                && info.supports_lba_48),
        ensures
            ret == plan_read_spec(self.master_drive, self.slave_drive, drive_select, start_sector, buffer_len),
    {
        let drive = match self.drive(drive_select) {
            Ok(info) => info,
            Err(e) => {
                return Err(e);
            },
        };
        let sectors = drive.sector_count();
        if start_sector >= sectors {
            return Err(ReadError::SectorOutOfRange { sectors, sector: start_sector });
        }
        if buffer_len % 512 != 0 {
            return Err(ReadError::BufferLength { len: buffer_len });
        }
        let sector_count = buffer_len as u64 / 512;
        if start_sector > 0xFFFFFFF || sector_count > 0xFFFFFFF - start_sector || sector_count > 256 {
            let end = start_sector + sector_count;
            return Err(ReadError::OutOfLba28Range { start: start_sector, end, count: sector_count });
        }
        let count_byte: u8 = if sector_count == 256 {
            0u8
        } else {
            sector_count as u8
        };
        let slave_bit: u8 = if drive_select == DiskSelect::Slave {
            0x10
        } else {
            0
        };
        let drive_head = 0xE0 | slave_bit | ((start_sector >> 24u64) as u8 & 0xF);
        Ok(ReadPlan {
            drive_head,
            count_byte,
            lba_low: (start_sector & 0xFF) as u8,
            lba_mid: ((start_sector >> 8u64) & 0xFF) as u8,
            lba_high: ((start_sector >> 16u64) & 0xFF) as u8,
            sectors: sector_count,
        })
    }
}

/// The drive/head byte of a 28-bit read: 0xE0, bit 4 for the slave, and bits 24 to
/// 27 of the start sector.
pub open spec fn drive_head_byte(select: DiskSelect, start: u64) -> u8 {
    0xE0u8 | (if select == DiskSelect::Slave { 0x10u8 } else { 0u8 }) | ((start >> 24u64) as u8 & 0xFu8)
}

/// What `plan_read` answers.
pub open spec fn plan_read_spec(master: NewDiskInfo, slave: NewDiskInfo, select: DiskSelect, start: u64, len: usize) -> Result<
    ReadPlan,
    ReadError,
> {
    match drive_of(master, slave, select) {
        Err(e) => Err(e),
        Ok(info) => if start >= info.spec_sector_count() {
            Err(ReadError::SectorOutOfRange { sectors: info.spec_sector_count(), sector: start })
        } else if len % 512 != 0 {
            Err(ReadError::BufferLength { len })
        } else if needs_lba48(start, (len / 512) as int) {
            Err(ReadError::OutOfLba28Range { start, end: (start + len / 512) as u64, count: (len / 512) as u64 })
        } else {
            Ok(
                ReadPlan {
                    drive_head: drive_head_byte(select, start),
                    count_byte: if len / 512 == 256 { 0u8 } else { (len / 512) as u8 },
                    lba_low: (start & 0xFF) as u8,
                    lba_mid: ((start >> 8u64) & 0xFF) as u8,
                    lba_high: ((start >> 16u64) & 0xFF) as u8,
                    sectors: (len / 512) as u64,
                },
            )
        },
    }
}

/// What a status byte read while waiting for a transfer says, once the drive has
/// stopped being busy.
#[derive(Clone, Copy, PartialEq, Eq, Structural, Debug)]
pub enum PollStatus {
    /// Data is ready (bit 3).
    Ready,
    /// The drive reports an error (bit 0).
    Error,
    /// The drive reports a fault (bit 5).
    DiskError,
    /// None of these: read the status again.
    Waiting,
}

/// Whether the drive is still busy (bit 7): polling first waits until it is not.
pub fn status_busy(status: u8) -> (ret: bool)
    ensures
        ret == (status & 0x80 > 0),
{
    status & 0x80 > 0
}

/// The meaning of a status byte read after the drive stopped being busy: ready, error
/// and fault, in that order; the busy bit is not looked at again.
pub fn poll_status(status: u8) -> (ret: PollStatus)
    ensures
        ret == (if status & 0x08 > 0 {
            PollStatus::Ready
        } else if status & 0x01 > 0 {
            PollStatus::Error
        } else if status & 0x20 > 0 {
            PollStatus::DiskError
        } else {
            PollStatus::Waiting
        }),
{
    if status & 0x08 > 0 {
        PollStatus::Ready
    } else if status & 0x01 > 0 {
        PollStatus::Error
    } else if status & 0x20 > 0 {
        PollStatus::DiskError
    } else {
        PollStatus::Waiting
    }
}

/// Stores the 256 words of sector `s` into `buffer`, each word low byte first.
pub fn store_sector(buffer: &mut Vec<u8>, s: usize, words: &Vec<u16>)
    requires
        words@.len() == 256,
        (s + 1) * 512 <= old(buffer)@.len(),
    ensures
        final(buffer)@.len() == old(buffer)@.len(),
        forall|i: int| 0 <= i < final(buffer)@.len() ==> #[trigger] final(buffer)@[i] == if s * 512 <= i < (s + 1) * 512 {
            word_byte(words@[(i - s * 512) / 2], (i - s * 512) % 2 == 1)
        } else {
            old(buffer)@[i]
        },
{
    let len = buffer.len();
    assert(s * 512 + 512 <= len) by (nonlinear_arith)
        requires
            (s + 1) * 512 <= len,
    ;
    let base = s * 512;
    let mut i: usize = 0;
    while i < 256
        invariant
            words@.len() == 256,
            base == s * 512,
            base + 512 <= old(buffer)@.len(),
            i <= 256,
            buffer@.len() == old(buffer)@.len(),
            forall|k: int| 0 <= k < buffer@.len() ==> #[trigger] buffer@[k] == if base <= k < base + 2 * i {
                word_byte(words@[(k - base) / 2], (k - base) % 2 == 1)
            } else {
                old(buffer)@[k]
            },
        decreases 256 - i,
    {
        let value = words[i];
        let low = (value & 0xFF) as u8;
        let high = (value >> 8u16) as u8;
        buffer.set(base + i * 2, low);
        buffer.set(base + i * 2 + 1, high);
        i = i + 1;
    }
}

/// Byte `high` (else the low byte) of a word.
pub open spec fn word_byte(w: u16, high: bool) -> u8 {
    if high {
        (w >> 8u16) as u8
    } else {
        (w & 0xFF) as u8
    }
}

/// Whether a drive answered the IDENTIFY command at all: a status of zero means no
/// drive.
pub fn drive_present(status: u8) -> (ret: bool)
    ensures
        ret == (status != 0),
{
    status != 0
}


/// What the bus learned from one drive's IDENTIFY command.
#[derive(Clone, Copy, PartialEq, Eq, Structural, Debug)]
pub struct IdentifyOutcome {
    /// The status read right after the command was not zero.
    pub present: bool,
    /// The LBA mid or high register was not zero: the drive is not ATA.
    pub not_ata: bool,
    /// The error bit was seen while waiting for data.
    pub error_seen: bool,
}

impl Bus {
    /// Records the outcome of IDENTIFY for the selected drive, as the bus's setup
    /// does: a drive that did not answer is missing; otherwise it is a PATA drive of
    /// the size that the answer gives. A drive found not to be ATA, or to report an
    /// error, marks the master drive as other; for the master this mark is then
    /// overwritten, for the slave it stays on the master.
    pub fn record_identify(&mut self, select: DiskSelect, outcome: IdentifyOutcome, identify: &Vec<u16>)
        requires
            identify@.len() == 256,
        ensures
            final(self).io_base == old(self).io_base,
            final(self).ctl_base == old(self).ctl_base,
            ({
                let drive = if outcome.present {
                    NewDiskInfo::Pata(PataDiskInfo::identified(identify@))
                } else {
                    NewDiskInfo::Missing
                };
                let flagged = outcome.present && (outcome.not_ata || outcome.error_seen);
                match select {
                    DiskSelect::Master => final(self).master_drive == drive && final(self).slave_drive == old(self).slave_drive,
                    DiskSelect::Slave => final(self).slave_drive == drive && final(self).master_drive == (if flagged {
                        NewDiskInfo::Other
                    } else {
                        old(self).master_drive
                    }),
                }
            }),
    {
        if !outcome.present {
            match select {
                DiskSelect::Master => self.master_drive = NewDiskInfo::Missing,
                DiskSelect::Slave => self.slave_drive = NewDiskInfo::Missing,
            }
            return;
        }
        if outcome.not_ata || outcome.error_seen {
            self.master_drive = NewDiskInfo::Other;
        }
        let info = PataDiskInfo::from_identify(identify);
        match select {
            DiskSelect::Master => self.master_drive = NewDiskInfo::Pata(info),
            DiskSelect::Slave => self.slave_drive = NewDiskInfo::Pata(info),
        }
    }
}

impl PataDiskInfo {
    /// The size that a 256-word IDENTIFY answer gives (see `from_identify`).
    pub open spec fn identified(identify: Seq<u16>) -> PataDiskInfo {
        PataDiskInfo {
            supports_lba_48: word_bit(identify[83], 10),
            lba_28_sector_count: (identify[60] as u32 + (identify[61] as u32) * 0x1_0000) as u32,
            lba_48_sector_count: (identify[100] as u64 + (identify[101] as u64) * 0x1_0000 + (identify[102] as u64)
                * 0x1_0000_0000 + (identify[103] as u64) * 0x1_0000_0000_0000) as u64,
        }
    }
}

/// What a status byte read while waiting for IDENTIFY data says: whether the data is
/// ready (bit 3) and whether the error bit (bit 0) is set.
pub fn identify_wait_status(status: u8) -> (ret: (bool, bool))
    ensures
        ret == (status & 0x08 > 0, status & 0x01 > 0),
{
    (status & 0b1000 > 0, status & 1 > 0)
}

} // verus!
