use vstd::prelude::*;

verus! {

/// Number of block/char device slots known to the kernel.
pub const MAX_DEVICE_NUM: usize = 10;
/// The "no device" number.
pub const NODEV: i16 = -1;
/// Device number of the root file system disk.
pub const ROOTDEV: i16 = 0;
/// Device number of the console terminal.
pub const TTYDEV: i16 = 0;

/// The major number: the high byte of a device number, sign-extended.
pub fn major(dev: i16) -> (r: i16)
    ensures
        r == dev >> 8,
        -128 <= r < 128,
        dev >= 0 ==> r == dev / 256,
{
    assert(-128 <= (dev >> 8) < 128 && (dev >= 0 ==> (dev >> 8) == dev / 256)) by (bit_vector);
    dev >> 8
}

/// The minor number: the low byte of a device number.
pub fn minor(dev: i16) -> (r: i16)
    ensures
        r == dev & 0x00ff,
        0 <= r < 256,
        dev >= 0 ==> r == dev % 256,
{
    assert(0 <= (dev & 0x00ff) < 256 && (dev >= 0 ==> (dev & 0x00ff) == dev % 256)) by (bit_vector);
    dev & 0x00ff
}

/// Replaces the major number of `dev` with the low byte of `value`.
pub fn set_major(dev: i16, value: i16) -> (r: i16)
    ensures
        r == (dev & 0x00ff) | ((value << 8) as i16),
        r & 0x00ff == dev & 0x00ff,
        r >> 8 == (((value & 0x00ff) << 8) as i16) >> 8,
{
    assert(((dev & 0x00ff) | ((value << 8) as i16)) & 0x00ff == dev & 0x00ff
        && ((dev & 0x00ff) | ((value << 8) as i16)) >> 8 == (((value & 0x00ff) << 8) as i16) >> 8)
        by (bit_vector);
    (dev & 0x00ff) | (value << 8)
}

/// Replaces the minor number of `dev` with the low byte of `value`.
pub fn set_minor(dev: i16, value: i16) -> (r: i16)
    ensures
        r == (dev & (0xff00u16 as i16)) | (value & 0x00ff),
        r & 0x00ff == value & 0x00ff,
        r >> 8 == dev >> 8,
{
    assert(((dev & (0xff00u16 as i16)) | (value & 0x00ff)) & 0x00ff == value & 0x00ff
        && ((dev & (0xff00u16 as i16)) | (value & 0x00ff)) >> 8 == dev >> 8) by (bit_vector);
    (dev & (0xff00u16 as i16)) | (value & 0x00ff)
}

} // verus!
