use vstd::prelude::*;

verus! {

/// The IDE disk controller.
pub struct ATADriver;

/// The register values that start a DMA transfer of a buffer.
#[derive(Debug, Clone, Copy, PartialEq, Eq, Structural)]
pub struct AtaCommand {
    pub nsector: u8,
    pub blkno_1: u8,
    pub blkno_2: u8,
    pub blkno_3: u8,
    pub mode: u8,
    /// `HD_DMA_READ` or `HD_DMA_WRITE`.
    pub command: u8,
}

/// What the disk interrupt does with the active request.
#[derive(Debug, Clone, Copy, PartialEq, Eq, Structural)]
pub enum AtaInterrupt {
    /// No transfer was active, or none was queued: nothing to do.
    Idle,
    /// The transfer failed and is retried (the error count is kept).
    Retry,
    /// The transfer ended (in error when `failed`): the request leaves the queue and
    /// the next one starts.
    Done { failed: bool },
}

impl ATADriver {
    pub const DATA_PORT: u16 = 0x1f0;
    pub const ERROR_PORT: u16 = 0x1f1;
    pub const NSECTOR_PORT: u16 = 0x1f2;
    pub const BLKNO_PORT_1: u16 = 0x1f3;
    pub const BLKNO_PORT_2: u16 = 0x1f4;
    pub const BLKNO_PORT_3: u16 = 0x1f5;
    pub const MODE_PORT: u16 = 0x1f6;
    pub const CMD_PORT: u16 = 0x1f7;
    pub const STATUS_PORT: u16 = 0x1f7;
    pub const CTRL_PORT: u16 = 0x3f6;
    pub const HD_ERROR: u8 = 0x01;
    pub const HD_DEVICE_REQUEST: u8 = 0x08;
    pub const HD_DEVICE_FAULT: u8 = 0x20;
    pub const HD_DEVICE_READY: u8 = 0x40;
    pub const HD_DEVICE_BUSY: u8 = 0x80;
    pub const HD_READ: u8 = 0x20;
    pub const HD_WRITE: u8 = 0x30;
    pub const HD_DMA_READ: u8 = 0xc8;
    pub const HD_DMA_WRITE: u8 = 0xca;
    pub const MODE_IDE: u8 = 0xa0;
    pub const MODE_LBA28: u8 = 0x40;
    pub const MASTER_PIC_COMMAND_PORT: u16 = 0x20;
    pub const SLAVE_PIC_COMMAND_PORT: u16 = 0xa0;
    pub const PIC_EOI: u8 = 0x20;
    /// Failed transfers of a request retried before it fails.
    pub const MAX_RETRIES: u32 = 10;

    /// The controller is ready for a command: not busy, and ready.
    pub fn is_ready(status: u8) -> (r: bool)
        ensures
            r == (status & (Self::HD_DEVICE_BUSY | Self::HD_DEVICE_READY) == Self::HD_DEVICE_READY),
    {
        status & (Self::HD_DEVICE_BUSY | Self::HD_DEVICE_READY) == Self::HD_DEVICE_READY
    }

    /// The status reports an error.
    pub fn is_error(status: u8) -> (r: bool)
        ensures
            r == (status & Self::HD_ERROR == Self::HD_ERROR),
    {
        status & Self::HD_ERROR == Self::HD_ERROR
    }

    /// The registers that start a DMA transfer of `wcount` bytes at block `blkno` of
    /// disk `minor` (a read when `read`): the sector count, the block number in LBA28
    /// form (its low three bytes, then its high nibble in the mode with the disk and the
    /// IDE and LBA bits) and the DMA read or write command.
    pub fn dev_start(minor: u8, blkno: u32, wcount: i32, read: bool) -> (r: AtaCommand)
        requires
            0 <= wcount,
            minor < 16,
        ensures
            r.nsector == (wcount / 512) as u8,
            r.blkno_1 == (blkno & 0xff) as u8,
            r.blkno_2 == ((blkno >> 8u32) & 0xff) as u8,
            r.blkno_3 == ((blkno >> 16u32) & 0xff) as u8,
            r.mode == Self::MODE_IDE | Self::MODE_LBA28 | (minor << 4u8) | (((blkno >> 24u32) & 0x0f) as u8),
            r.command == (if read { Self::HD_DMA_READ } else { Self::HD_DMA_WRITE }),
    {
        let sectors = (wcount as usize / 512) as u8;
        AtaCommand {
            nsector: sectors,
            blkno_1: (blkno & 0xff) as u8,
            blkno_2: ((blkno >> 8u32) & 0xff) as u8,
            blkno_3: ((blkno >> 16u32) & 0xff) as u8,
            mode: Self::MODE_IDE | Self::MODE_LBA28 | (minor << 4u8) | (((blkno >> 24u32) & 0x0f) as u8),
            command: if read { Self::HD_DMA_READ } else { Self::HD_DMA_WRITE },
        }
    }

    /// The disk interrupt: with a transfer active and a request queued, an error (of
    /// the disk or of the DMA engine) retries the request up to `MAX_RETRIES` times and
    /// then fails it; the error count restarts when the request leaves the queue. The
    /// controller is no longer marked active either way.
    pub fn ata_handler(active: &mut bool, errcnt: &mut u32, has_request: bool, error: bool) -> (r: AtaInterrupt)
        requires
            *old(errcnt) < u32::MAX,
        ensures
            !*old(active) ==> r == AtaInterrupt::Idle && *final(active) == *old(active) && *final(errcnt) == *old(errcnt),
            *old(active) && !has_request ==> r == AtaInterrupt::Idle && !*final(active) && *final(errcnt) == *old(errcnt),
            *old(active) && has_request && error && *old(errcnt) + 1 <= Self::MAX_RETRIES ==> r == AtaInterrupt::Retry
                && !*final(active) && *final(errcnt) == *old(errcnt) + 1,
            *old(active) && has_request && !(error && *old(errcnt) + 1 <= Self::MAX_RETRIES) ==> r == (AtaInterrupt::Done { failed: error })
                && !*final(active) && *final(errcnt) == 0,
    {
        if !*active {
            return AtaInterrupt::Idle;
        }
        if !has_request {
            *active = false;
            return AtaInterrupt::Idle;
        }
        *active = false;
        if error {
            *errcnt = *errcnt + 1;
            if *errcnt <= Self::MAX_RETRIES {
                return AtaInterrupt::Retry;
            }
        }
        *errcnt = 0;
        AtaInterrupt::Done { failed: error }
    }
}

} // verus!
