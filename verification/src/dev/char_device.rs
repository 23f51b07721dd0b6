use vstd::prelude::*;

use crate::constants::PosixError;
use crate::dev::device_manager::{major, minor};
use crate::tty::{after_write, read_outcome, Tty, TtyView, TAB_WIDTH};

verus! {

/// A character device.
pub trait CharDevice {
    /// `data` can be written without overflowing the device's bookkeeping.
    spec fn can_write(&self, data: Seq<u8>) -> bool;

    fn open(&mut self, dev: i16, mode: i32) -> (r: Result<(), PosixError>);

    fn close(&mut self, dev: i16, mode: i32) -> (r: Result<(), PosixError>);

    /// Reads what is available into `out`: `None` when the reader must wait for input.
    fn read(&mut self, dev: i16, out: &mut [u8]) -> (r: Result<Option<usize>, PosixError>);

    fn write(&mut self, dev: i16, data: &[u8]) -> (r: Result<usize, PosixError>)
        requires
            old(self).can_write(data@);
}

/// The console: one terminal, minor device 0.
pub struct ConsoleDevice {
    pub is_open: bool,
    pub tty: Tty,
}

impl ConsoleDevice {
    /// A closed console on a fresh terminal.
    pub fn new() -> (r: Self)
        ensures
            !r.is_open,
            r.tty@.state == 0 && r.tty@.buffer.len() == 0 && r.tty@.termio.is_standard() && r.tty@.column == 0,
    {
        ConsoleDevice { is_open: false, tty: Tty::new() }
    }

    /// The console has only minor device 0 (`ENXIO` otherwise).
    pub fn validate(dev: i16) -> (r: Result<(), PosixError>)
        ensures
            r == (if dev & 0x00ff == 0 { Ok::<(), PosixError>(()) } else { Err(PosixError::ENXIO) }),
    {
        if minor(dev) == 0 {
            Ok(())
        } else {
            Err(PosixError::ENXIO)
        }
    }
}

impl CharDevice for ConsoleDevice {
    open spec fn can_write(&self, data: Seq<u8>) -> bool {
        self.tty@.column + TAB_WIDTH * data.len() + TAB_WIDTH <= usize::MAX
    }

    /// Opens the console: it is marked open and its terminal opened (see `Tty::open`).
    fn open(&mut self, dev: i16, mode: i32) -> (r: Result<(), PosixError>)
        ensures
            dev & 0x00ff != 0 ==> r == Err::<(), PosixError>(PosixError::ENXIO) && final(self).is_open == old(self).is_open && final(self).tty@ == old(self).tty@,
            dev & 0x00ff == 0 ==> r is Ok && final(self).is_open
                && (old(self).tty@.state & crate::tty::ISOPEN != 0 ==> final(self).tty@ == old(self).tty@)
                && (old(self).tty@.state & crate::tty::ISOPEN == 0 ==> final(self).tty@ == (TtyView {
                    state: crate::tty::ISOPEN | crate::tty::CARR_ON,
                    termio: final(self).tty@.termio,
                    ..old(self).tty@
                }) && final(self).tty@.termio.is_standard())
                && final(self).tty@.state & crate::tty::ISOPEN != 0,
    {
        match Self::validate(dev) {
            Err(e) => return Err(e),
            Ok(()) => {},
        }
        self.is_open = true;
        self.tty.open();
        proof {
            let s = self.tty@.state;
            assert((1u32 | 2u32) & 1u32 != 0) by (bit_vector);
        }
        Ok(())
    }

    /// Closing only checks the device.
    fn close(&mut self, dev: i16, mode: i32) -> (r: Result<(), PosixError>)
        ensures
            r == (if dev & 0x00ff == 0 { Ok::<(), PosixError>(()) } else { Err(PosixError::ENXIO) }),
            final(self).is_open == old(self).is_open && final(self).tty@ == old(self).tty@,
    {
        Self::validate(dev)
    }

    /// Reads the terminal's available input (see `Tty::read_available`).
    fn read(&mut self, dev: i16, out: &mut [u8]) -> (r: Result<Option<usize>, PosixError>)
        ensures
            dev & 0x00ff != 0 ==> r == Err::<Option<usize>, PosixError>(PosixError::ENXIO) && final(self).tty@ == old(self).tty@ && final(out)@ == old(out)@,
            dev & 0x00ff == 0 ==> (r matches Ok(n) && read_outcome(old(self).tty@, old(out)@, final(self).tty@, final(out)@, n)),
            final(self).is_open == old(self).is_open,
    {
        match Self::validate(dev) {
            Err(e) => return Err(e),
            Ok(()) => {},
        }
        Ok(self.tty.read_available(out))
    }

    /// Writes to the terminal (see `Tty::write`): all of `data` is taken.
    fn write(&mut self, dev: i16, data: &[u8]) -> (r: Result<usize, PosixError>)
        ensures
            dev & 0x00ff != 0 ==> r == Err::<usize, PosixError>(PosixError::ENXIO) && final(self).tty@ == old(self).tty@,
            dev & 0x00ff == 0 ==> r == Ok::<usize, PosixError>(data@.len() as usize) && final(self).tty@ == after_write(old(self).tty@, data@),
            final(self).is_open == old(self).is_open,
    {
        match Self::validate(dev) {
            Err(e) => return Err(e),
            Ok(()) => {},
        }
        Ok(self.tty.write(data))
    }
}

/// The character devices.
#[derive(Debug, Clone, Copy, PartialEq, Eq, Structural)]
pub enum CharDev {
    Console,
}

/// The console device.
pub fn console_device() -> (r: CharDev)
    ensures
        r == CharDev::Console,
{
    CharDev::Console
}

/// The character device of major number `major`: the console for 0.
pub fn char_device_for_major(major: i16) -> (r: Option<CharDev>)
    ensures
        r == (if major == 0 { Some(CharDev::Console) } else { None::<CharDev> }),
{
    if major == 0 {
        Some(CharDev::Console)
    } else {
        None
    }
}

/// The character device of device number `dev` (by its major number).
pub fn char_device_for_dev(dev: i16) -> (r: Option<CharDev>)
    ensures
        r == (if dev >> 8 == 0 { Some(CharDev::Console) } else { None::<CharDev> }),
{
    char_device_for_major(major(dev))
}

/// The negated error number returned through the C interface.
pub fn errno(err: PosixError) -> (r: i32)
    ensures
        r == -(err.spec_code() as int),
{
    -(err.code() as i32)
}

} // verus!
