use vstd::prelude::*;

use crate::constants::PosixError;

verus! {

/// Number of system call slots.
pub const SYSTEM_CALL_NUM: usize = 64;

/// The system call numbers.
pub struct SyscallNumber;

impl SyscallNumber {
    pub const INDIRECT: usize = 0;
    pub const EXIT: usize = 1;
    pub const FORK: usize = 2;
    pub const READ: usize = 3;
    pub const WRITE: usize = 4;
    pub const OPEN: usize = 5;
    pub const CLOSE: usize = 6;
    pub const WAIT: usize = 7;
    pub const CREAT: usize = 8;
    pub const LINK: usize = 9;
    pub const UNLINK: usize = 10;
    pub const EXEC: usize = 11;
    pub const CHDIR: usize = 12;
    pub const TIME: usize = 13;
    pub const MKNOD: usize = 14;
    pub const CHMOD: usize = 15;
    pub const CHOWN: usize = 16;
    pub const SBREAK: usize = 17;
    pub const STAT: usize = 18;
    pub const SEEK: usize = 19;
    pub const GETPID: usize = 20;
    pub const MOUNT: usize = 21;
    pub const UMOUNT: usize = 22;
    pub const SETUID: usize = 23;
    pub const GETUID: usize = 24;
    pub const STIME: usize = 25;
    pub const PTRACE: usize = 26;
    pub const FSTAT: usize = 28;
    pub const TRACE: usize = 29;
    pub const SMDATE: usize = 30;
    pub const STTY: usize = 31;
    pub const GTTY: usize = 32;
    pub const NICE: usize = 34;
    pub const SLEEP: usize = 35;
    pub const SYNC: usize = 36;
    pub const KILL: usize = 37;
    pub const GETSWITCH: usize = 38;
    pub const PWD: usize = 39;
    pub const DUP: usize = 41;
    pub const PIPE: usize = 42;
    pub const TIMES: usize = 43;
    pub const PROFIL: usize = 44;
    pub const SETGID: usize = 46;
    pub const GETGID: usize = 47;
    pub const SSIG: usize = 48;
}

/// The numbers that name no system call of this kernel.
pub open spec fn unimplemented_spec(number: usize) -> bool {
    number == 27 || number == 33 || number == 40 || number == 45 || (49 <= number && number <= 63)
}

/// The number names no system call of this kernel.
pub fn is_unimplemented(number: usize) -> (r: bool)
    ensures
        r == unimplemented_spec(number),
{
    number == 27 || number == 33 || number == 40 || number == 45 || (49 <= number && number <= 63)
}

/// What a system call number asks the kernel to do.
#[derive(Debug, Clone, Copy, PartialEq, Eq, Structural)]
pub enum Syscall {
    /// Accepted and ignored (indirect, mount, umount, ptrace, smdate, profil, stty, gtty).
    Ignored,
    Exit,
    Fork,
    Read,
    Write,
    Open,
    Close,
    Wait,
    Creat,
    Link,
    Unlink,
    Exec,
    Chdir,
    Time,
    Mknod,
    Chmod,
    Chown,
    Sbreak,
    Stat,
    Seek,
    Getpid,
    Setuid,
    Getuid,
    Stime,
    Fstat,
    Trace,
    Kill,
    Getswitch,
    Pwd,
    Nice,
    Sleep,
    Sync,
    Dup,
    Pipe,
    Times,
    Setgid,
    Getgid,
    Ssig,
    /// No such system call: `ENOSYS`.
    NoSys,
}

/// The system call of number `n`.
pub open spec fn syscall_spec(n: usize) -> Syscall {
    if n == 0 || n == 21 || n == 22 || n == 26 || n == 30 || n == 44 || n == 31 || n == 32 { Syscall::Ignored }
    else if n == 1 { Syscall::Exit }
    else if n == 2 { Syscall::Fork }
    else if n == 3 { Syscall::Read }
    else if n == 4 { Syscall::Write }
    else if n == 5 { Syscall::Open }
    else if n == 6 { Syscall::Close }
    else if n == 7 { Syscall::Wait }
    else if n == 8 { Syscall::Creat }
    else if n == 9 { Syscall::Link }
    else if n == 10 { Syscall::Unlink }
    else if n == 11 { Syscall::Exec }
    else if n == 12 { Syscall::Chdir }
    else if n == 13 { Syscall::Time }
    else if n == 14 { Syscall::Mknod }
    else if n == 15 { Syscall::Chmod }
    else if n == 16 { Syscall::Chown }
    else if n == 17 { Syscall::Sbreak }
    else if n == 18 { Syscall::Stat }
    else if n == 19 { Syscall::Seek }
    else if n == 20 { Syscall::Getpid }
    else if n == 23 { Syscall::Setuid }
    else if n == 24 { Syscall::Getuid }
    else if n == 25 { Syscall::Stime }
    else if n == 28 { Syscall::Fstat }
    else if n == 29 { Syscall::Trace }
    else if n == 34 { Syscall::Nice }
    else if n == 35 { Syscall::Sleep }
    else if n == 36 { Syscall::Sync }
    else if n == 37 { Syscall::Kill }
    else if n == 38 { Syscall::Getswitch }
    else if n == 39 { Syscall::Pwd }
    else if n == 41 { Syscall::Dup }
    else if n == 42 { Syscall::Pipe }
    else if n == 43 { Syscall::Times }
    else if n == 46 { Syscall::Setgid }
    else if n == 47 { Syscall::Getgid }
    else if n == 48 { Syscall::Ssig }
    else { Syscall::NoSys }
}

/// The system call table: each number reaches its handler (1 exit, 2 fork, 3 read,
/// 4 write, 5 open, 6 close, 7 wait, 8 creat, 9 link, 10 unlink, 11 exec, ...); the
/// indirect, mount, umount, ptrace, smdate, stty, gtty and profil numbers are accepted
/// and ignored; every other number, and every number past the table, is refused.
pub proof fn law_syscall_table(n: usize)
    ensures
        syscall_spec(1) == Syscall::Exit,
        syscall_spec(2) == Syscall::Fork,
        syscall_spec(3) == Syscall::Read,
        syscall_spec(4) == Syscall::Write,
        syscall_spec(5) == Syscall::Open,
        syscall_spec(6) == Syscall::Close,
        syscall_spec(7) == Syscall::Wait,
        syscall_spec(8) == Syscall::Creat,
        syscall_spec(9) == Syscall::Link,
        syscall_spec(10) == Syscall::Unlink,
        syscall_spec(11) == Syscall::Exec,
        syscall_spec(12) == Syscall::Chdir,
        syscall_spec(13) == Syscall::Time,
        syscall_spec(14) == Syscall::Mknod,
        syscall_spec(15) == Syscall::Chmod,
        syscall_spec(16) == Syscall::Chown,
        syscall_spec(17) == Syscall::Sbreak,
        syscall_spec(18) == Syscall::Stat,
        syscall_spec(19) == Syscall::Seek,
        syscall_spec(20) == Syscall::Getpid,
        syscall_spec(23) == Syscall::Setuid,
        syscall_spec(24) == Syscall::Getuid,
        syscall_spec(25) == Syscall::Stime,
        syscall_spec(28) == Syscall::Fstat,
        syscall_spec(29) == Syscall::Trace,
        syscall_spec(34) == Syscall::Nice,
        syscall_spec(35) == Syscall::Sleep,
        syscall_spec(36) == Syscall::Sync,
        syscall_spec(37) == Syscall::Kill,
        syscall_spec(38) == Syscall::Getswitch,
        syscall_spec(39) == Syscall::Pwd,
        syscall_spec(41) == Syscall::Dup,
        syscall_spec(42) == Syscall::Pipe,
        syscall_spec(43) == Syscall::Times,
        syscall_spec(46) == Syscall::Setgid,
        syscall_spec(47) == Syscall::Getgid,
        syscall_spec(48) == Syscall::Ssig,
        (n == 0 || n == 21 || n == 22 || n == 26 || n == 30 || n == 31 || n == 32 || n == 44) ==> syscall_spec(n) == Syscall::Ignored,
        (n == 27 || n == 33 || n == 40 || n == 45 || n >= 49) ==> syscall_spec(n) == Syscall::NoSys,
{
}

/// Dispatches a system call number: the handler to run, or `NoSys`.
pub fn handle_in_rust(number: usize) -> (r: Syscall)
    ensures
        r == syscall_spec(number),
        r == Syscall::NoSys <==> (unimplemented_spec(number) || number >= SYSTEM_CALL_NUM),
{
    match number {
        0 | 21 | 22 | 26 | 30 | 44 | 31 | 32 => Syscall::Ignored,
        1 => Syscall::Exit,
        2 => Syscall::Fork,
        3 => Syscall::Read,
        4 => Syscall::Write,
        5 => Syscall::Open,
        6 => Syscall::Close,
        7 => Syscall::Wait,
        8 => Syscall::Creat,
        9 => Syscall::Link,
        10 => Syscall::Unlink,
        11 => Syscall::Exec,
        12 => Syscall::Chdir,
        13 => Syscall::Time,
        14 => Syscall::Mknod,
        15 => Syscall::Chmod,
        16 => Syscall::Chown,
        17 => Syscall::Sbreak,
        18 => Syscall::Stat,
        19 => Syscall::Seek,
        20 => Syscall::Getpid,
        23 => Syscall::Setuid,
        24 => Syscall::Getuid,
        25 => Syscall::Stime,
        28 => Syscall::Fstat,
        29 => Syscall::Trace,
        34 => Syscall::Nice,
        35 => Syscall::Sleep,
        36 => Syscall::Sync,
        37 => Syscall::Kill,
        38 => Syscall::Getswitch,
        39 => Syscall::Pwd,
        41 => Syscall::Dup,
        42 => Syscall::Pipe,
        43 => Syscall::Times,
        46 => Syscall::Setgid,
        47 => Syscall::Getgid,
        48 => Syscall::Ssig,
        _ => Syscall::NoSys,
    }
}

/// What a system call leaves in the user's return register: the low 32 bits of its
/// result, or the negated error number (an interrupted call fails with `EINTR`); and the
/// error recorded for the process.
pub open spec fn return_value_spec(result: Result<usize, PosixError>, signal_pending: bool) -> (usize, Option<PosixError>) {
    let res = if signal_pending { Err(PosixError::EINTR) } else { result };
    match res {
        Ok(v) => ((v as u32) as usize, None),
        Err(e) => ((-(e.spec_code() as i32)) as usize, Some(e)),
    }
}

/// Ends a system call (see `return_value_spec`).
pub fn return_value(result: Result<usize, PosixError>, signal_pending: bool) -> (r: (usize, Option<PosixError>))
    ensures
        r == return_value_spec(result, signal_pending),
{
    let res = if signal_pending { Err(PosixError::EINTR) } else { result };
    match res {
        Ok(v) => ((v as u32) as usize, None),
        Err(e) => {
            let c = e.code() as i32;
            ((-c) as usize, Some(e))
        },
    }
}

/// The `trace` call toggles the diagnostic rows: with none shown it shows `arg` rows,
/// otherwise it hides them; returns the new count.
pub fn trace(rows: &mut u32, arg: usize) -> (r: usize)
    ensures
        *final(rows) == (if *old(rows) == 0 { arg as u32 } else { 0 }),
        r == *final(rows) as usize,
{
    if *rows == 0 {
        *rows = arg as u32;
    } else {
        *rows = 0;
    }
    *rows as usize
}

} // verus!
