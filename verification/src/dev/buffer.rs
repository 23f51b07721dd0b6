use vstd::prelude::*;

verus! {

/// A device number: major number in the high byte, minor number in the low byte.
#[derive(Debug, Clone, Copy, PartialEq, Eq, Structural)]
pub struct DevId(pub i16);

/// A block number inside a file.
#[derive(Debug, Clone, Copy, PartialEq, Eq, Structural)]
pub struct LogicalBlock(pub u32);

/// A block number on a disk; block 0 never holds file data.
#[derive(Debug, Clone, Copy, PartialEq, Eq, Structural)]
pub struct PhysicalBlock(pub u32);

impl PhysicalBlock {
    /// A physical block number, or `None` for block 0.
    pub fn new(blkid: u32) -> (r: Option<PhysicalBlock>)
        ensures
            blkid != 0 ==> r == Some(PhysicalBlock(blkid)),
            blkid == 0 ==> r is None,
    {
        if blkid != 0 {
            Some(PhysicalBlock(blkid))
        } else {
            None
        }
    }
}

/// Flags of a block buffer.
pub struct BufFlag;

impl BufFlag {
    /// Write operation.
    pub const B_WRITE: u32 = 0x1;
    /// Read operation.
    pub const B_READ: u32 = 0x2;
    /// The transfer has ended.
    pub const B_DONE: u32 = 0x4;
    /// The transfer ended with an error.
    pub const B_ERROR: u32 = 0x8;
    /// The buffer is in use.
    pub const B_BUSY: u32 = 0x10;
    /// A process waits for the buffer; wake it when the buffer stops being busy.
    pub const B_WANTED: u32 = 0x20;
    /// Asynchronous transfer: nobody waits for its end.
    pub const B_ASYNC: u32 = 0x40;
    /// Delayed write: the buffer must be written before it is reused.
    pub const B_DELWRI: u32 = 0x80;
}

} // verus!
