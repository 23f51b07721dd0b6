use vstd::prelude::*;

pub mod platform;

verus! {
/// Error numbers returned to user programs.
#[derive(Clone, Copy, Debug, PartialEq, Eq, Structural)]
pub enum PosixError {
    EPERM,
    ENOENT,
    ESRCH,
    EINTR,
    EIO,
    ENXIO,
    ENOEXEC,
    EBADF,
    ECHILD,
    EAGAIN,
    ENOMEM,
    EACCES,
    EFAULT,
    EEXIST,
    EXDEV,
    ENODEV,
    ENOTDIR,
    EISDIR,
    EINVAL,
    ENFILE,
    EMFILE,
    ENOTTY,
    EFBIG,
    ENOSPC,
    ESPIPE,
    EROFS,
    EMLINK,
    EPIPE,
    ERANGE,
    ENOSYS,
    ELOOP,
    EOVERFLOW,
}

impl PosixError {
    /// The POSIX error number.
    pub open spec fn spec_code(self) -> u32 {
        match self {
            PosixError::EPERM => 1,
            PosixError::ENOENT => 2,
            PosixError::ESRCH => 3,
            PosixError::EINTR => 4,
            PosixError::EIO => 5,
            PosixError::ENXIO => 6,
            PosixError::ENOEXEC => 8,
            PosixError::EBADF => 9,
            PosixError::ECHILD => 10,
            PosixError::EAGAIN => 11,
            PosixError::ENOMEM => 12,
            PosixError::EACCES => 13,
            PosixError::EFAULT => 14,
            PosixError::EEXIST => 17,
            PosixError::EXDEV => 18,
            PosixError::ENODEV => 19,
            PosixError::ENOTDIR => 20,
            PosixError::EISDIR => 21,
            PosixError::EINVAL => 22,
            PosixError::ENFILE => 23,
            PosixError::EMFILE => 24,
            PosixError::ENOTTY => 25,
            PosixError::EFBIG => 27,
            PosixError::ENOSPC => 28,
            PosixError::ESPIPE => 29,
            PosixError::EROFS => 30,
            PosixError::EMLINK => 31,
            PosixError::EPIPE => 32,
            PosixError::ERANGE => 34,
            PosixError::ENOSYS => 38,
            PosixError::ELOOP => 40,
            PosixError::EOVERFLOW => 75,
        }
    }

    /// The POSIX error number.
    pub fn code(&self) -> (r: u32)
        ensures
            r == self.spec_code(),
    {
        match self {
            PosixError::EPERM => 1,
            PosixError::ENOENT => 2,
            PosixError::ESRCH => 3,
            PosixError::EINTR => 4,
            PosixError::EIO => 5,
            PosixError::ENXIO => 6,
            PosixError::ENOEXEC => 8,
            PosixError::EBADF => 9,
            PosixError::ECHILD => 10,
            PosixError::EAGAIN => 11,
            PosixError::ENOMEM => 12,
            PosixError::EACCES => 13,
            PosixError::EFAULT => 14,
            PosixError::EEXIST => 17,
            PosixError::EXDEV => 18,
            PosixError::ENODEV => 19,
            PosixError::ENOTDIR => 20,
            PosixError::EISDIR => 21,
            PosixError::EINVAL => 22,
            PosixError::ENFILE => 23,
            PosixError::EMFILE => 24,
            PosixError::ENOTTY => 25,
            PosixError::EFBIG => 27,
            PosixError::ENOSPC => 28,
            PosixError::ESPIPE => 29,
            PosixError::EROFS => 30,
            PosixError::EMLINK => 31,
            PosixError::EPIPE => 32,
            PosixError::ERANGE => 34,
            PosixError::ENOSYS => 38,
            PosixError::ELOOP => 40,
            PosixError::EOVERFLOW => 75,
        }
    }
}

/// Signals that processes can send and receive.
#[derive(Clone, Copy, Debug, PartialEq, Eq, Structural)]
pub enum Signal {
    SIGHUP,
    SIGINT,
    SIGQUIT,
    SIGILL,
    SIGTRAP,
    SIGIOT,
    SIGBUS,
    SIGFPE,
    SIGKILL,
    SIGUSR1,
    SIGSEGV,
    SIGUSR2,
    SIGPIPE,
    SIGALRM,
    SIGTERM,
    SIGSTKFLT,
    SIGCHLD,
    SIGCONT,
    SIGSTOP,
    SIGTSTP,
    SIGTTIN,
    SIGTTOU,
    SIGURG,
    SIGXCPU,
    SIGXFSZ,
    SIGVTALRM,
    SIGPROF,
    SIGWINCH,
    SIGIO,
    SIGPWR,
    SIGSYS,
}

/// Priority of a process sleeping in `sleep`.
pub const PSLEP: u32 = 90;

/// Number of signal slots (signals are numbered from 1 to `SIGMAX - 1`).
pub const SIGMAX: usize = 32;

impl Signal {
    /// One past the largest signal number.
    pub const SIGMAX: u32 = 32;

    /// The signal number.
    pub open spec fn spec_number(self) -> u32 {
        match self {
            Signal::SIGHUP => 1,
            Signal::SIGINT => 2,
            Signal::SIGQUIT => 3,
            Signal::SIGILL => 4,
            Signal::SIGTRAP => 5,
            Signal::SIGIOT => 6,
            Signal::SIGBUS => 7,
            Signal::SIGFPE => 8,
            Signal::SIGKILL => 9,
            Signal::SIGUSR1 => 10,
            Signal::SIGSEGV => 11,
            Signal::SIGUSR2 => 12,
            Signal::SIGPIPE => 13,
            Signal::SIGALRM => 14,
            Signal::SIGTERM => 15,
            Signal::SIGSTKFLT => 16,
            Signal::SIGCHLD => 17,
            Signal::SIGCONT => 18,
            Signal::SIGSTOP => 19,
            Signal::SIGTSTP => 20,
            Signal::SIGTTIN => 21,
            Signal::SIGTTOU => 22,
            Signal::SIGURG => 23,
            Signal::SIGXCPU => 24,
            Signal::SIGXFSZ => 25,
            Signal::SIGVTALRM => 26,
            Signal::SIGPROF => 27,
            Signal::SIGWINCH => 28,
            Signal::SIGIO => 29,
            Signal::SIGPWR => 30,
            Signal::SIGSYS => 31,
        }
    }

    /// The signal number.
    pub fn number(&self) -> (r: u32)
        ensures
            r == self.spec_number(),
    {
        match self {
            Signal::SIGHUP => 1,
            Signal::SIGINT => 2,
            Signal::SIGQUIT => 3,
            Signal::SIGILL => 4,
            Signal::SIGTRAP => 5,
            Signal::SIGIOT => 6,
            Signal::SIGBUS => 7,
            Signal::SIGFPE => 8,
            Signal::SIGKILL => 9,
            Signal::SIGUSR1 => 10,
            Signal::SIGSEGV => 11,
            Signal::SIGUSR2 => 12,
            Signal::SIGPIPE => 13,
            Signal::SIGALRM => 14,
            Signal::SIGTERM => 15,
            Signal::SIGSTKFLT => 16,
            Signal::SIGCHLD => 17,
            Signal::SIGCONT => 18,
            Signal::SIGSTOP => 19,
            Signal::SIGTSTP => 20,
            Signal::SIGTTIN => 21,
            Signal::SIGTTOU => 22,
            Signal::SIGURG => 23,
            Signal::SIGXCPU => 24,
            Signal::SIGXFSZ => 25,
            Signal::SIGVTALRM => 26,
            Signal::SIGPROF => 27,
            Signal::SIGWINCH => 28,
            Signal::SIGIO => 29,
            Signal::SIGPWR => 30,
            Signal::SIGSYS => 31,
        }
    }

    /// The signal with number `value`; `EINVAL` for 0 and for numbers from `SIGMAX` on.
    pub fn from_number(value: u32) -> (r: Result<Signal, PosixError>)
        ensures
            (1 <= value < Self::SIGMAX) ==> (r matches Ok(s) && s.spec_number() == value),
            !(1 <= value < Self::SIGMAX) ==> r == Err::<Signal, PosixError>(PosixError::EINVAL),
    {
        match value {
            1 => Ok(Signal::SIGHUP),
            2 => Ok(Signal::SIGINT),
            3 => Ok(Signal::SIGQUIT),
            4 => Ok(Signal::SIGILL),
            5 => Ok(Signal::SIGTRAP),
            6 => Ok(Signal::SIGIOT),
            7 => Ok(Signal::SIGBUS),
            8 => Ok(Signal::SIGFPE),
            9 => Ok(Signal::SIGKILL),
            10 => Ok(Signal::SIGUSR1),
            11 => Ok(Signal::SIGSEGV),
            12 => Ok(Signal::SIGUSR2),
            13 => Ok(Signal::SIGPIPE),
            14 => Ok(Signal::SIGALRM),
            15 => Ok(Signal::SIGTERM),
            16 => Ok(Signal::SIGSTKFLT),
            17 => Ok(Signal::SIGCHLD),
            18 => Ok(Signal::SIGCONT),
            19 => Ok(Signal::SIGSTOP),
            20 => Ok(Signal::SIGTSTP),
            21 => Ok(Signal::SIGTTIN),
            22 => Ok(Signal::SIGTTOU),
            23 => Ok(Signal::SIGURG),
            24 => Ok(Signal::SIGXCPU),
            25 => Ok(Signal::SIGXFSZ),
            26 => Ok(Signal::SIGVTALRM),
            27 => Ok(Signal::SIGPROF),
            28 => Ok(Signal::SIGWINCH),
            29 => Ok(Signal::SIGIO),
            30 => Ok(Signal::SIGPWR),
            31 => Ok(Signal::SIGSYS),
            _ => Err(PosixError::EINVAL),
        }
    }
}

/// Signal numbers name the signals one to one: each signal has a number from 1 to
/// `SIGMAX - 1`, and two signals with the same number are the same signal (so
/// `from_number` of a signal's number gives that signal back).
pub proof fn law_signal_numbers(a: Signal, b: Signal)
    ensures
        1 <= a.spec_number() < Signal::SIGMAX,
        a.spec_number() == b.spec_number() ==> a == b,
{
}

} // verus!
