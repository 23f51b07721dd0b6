use vstd::prelude::*;

use crate::constants::{PosixError, Signal};
use crate::dev::buffer::PhysicalBlock;
use crate::mm::allocator::{order_for_size, pow2, PAGE_SIZE};

verus! {

/// The state of a process.
#[derive(Debug, Clone, Copy, PartialEq, Eq, Structural)]
pub enum ProcessState {
    /// Free slot.
    SNULL,
    /// Sleeping at a kernel priority (not interruptible).
    SSLEEP,
    /// Sleeping at a user priority (interruptible by signals).
    SWAIT,
    /// Runnable.
    SRUN,
    /// Being created.
    SIDL,
    /// Exited, waiting for its parent.
    SZOMB,
    /// Stopped.
    SSTOP,
}

/// The process image is in memory.
pub const SLOAD: u32 = 0x1;
/// A system process: never selected to run in user mode.
pub const SSYS: u32 = 0x2;
/// Locked in memory.
pub const SLOCK: u32 = 0x4;
/// Swapped out.
pub const SSWAP: u32 = 0x8;

/// The base priority of user processes.
pub const PUSER: u32 = 100;

/// The scheduler's shared state.
#[derive(Debug, Clone, Copy)]
pub struct Scheduler {
    /// Priority of the running process.
    pub cur_pri: i32,
    /// Requests to reschedule.
    pub runrun: u32,
    /// The swapper waits for a process to swap in.
    pub run_in: u32,
    /// The swapper waits for a process to swap out.
    pub run_out: u32,
    /// Number of process switches.
    pub switch_cnt: u32,
}

/// A program text shared by the processes running it: its swap area, and how many
/// processes use it and have it in memory.
#[derive(Debug, Clone, Copy)]
pub struct Text {
    pub disk_addr: PhysicalBlock,
    pub len_bytes: usize,
    /// The text's memory pages are allocated.
    pub has_pages: bool,
    pub refcount: usize,
    pub in_mem_count: usize,
}

/// What dropping a use of a text leaves to free.
#[derive(Debug, Clone, Copy, PartialEq, Eq, Structural)]
pub struct TextPut {
    /// The memory pages were the last in-memory use: free them.
    pub free_pages: bool,
    /// The last use: free the swap area of `len_bytes` at `disk_addr`.
    pub free_swap: bool,
}

impl Text {
    /// A text of `len` bytes at swap area `disk_addr`, used once and in memory when its
    /// pages were allocated.
    pub fn new(disk_addr: PhysicalBlock, len: usize, has_pages: bool) -> (r: Self)
        ensures
            r == (Text { disk_addr, len_bytes: len, has_pages, refcount: 1, in_mem_count: 1 }),
    {
        Text { disk_addr, len_bytes: len, has_pages, refcount: 1, in_mem_count: 1 }
    }

    /// One more process uses the text, in memory.
    pub fn get(&mut self)
        requires
            old(self).refcount < usize::MAX,
            old(self).in_mem_count < usize::MAX,
        ensures
            *final(self) == (Text { refcount: (old(self).refcount + 1) as usize, in_mem_count: (old(self).in_mem_count + 1) as usize, ..*old(self) }),
    {
        self.refcount = self.refcount + 1;
        self.in_mem_count = self.in_mem_count + 1;
    }

    /// One in-memory use less; the last one frees the pages (returns `true`).
    pub fn put_mem(&mut self) -> (r: bool)
        requires
            old(self).in_mem_count != 0,
            old(self).in_mem_count == 1 ==> old(self).has_pages,
        ensures
            r == (old(self).in_mem_count == 1),
            *final(self) == (Text {
                in_mem_count: (old(self).in_mem_count - 1) as usize,
                has_pages: if r { false } else { old(self).has_pages },
                ..*old(self)
            }),
    {
        self.in_mem_count = self.in_mem_count - 1;
        if self.in_mem_count != 0 {
            return false;
        }
        self.has_pages = false;
        true
    }

    /// One use less (in memory too while it is); the last one frees the swap area.
    pub fn put(&mut self) -> (r: TextPut)
        requires
            old(self).refcount != 0,
            old(self).in_mem_count == 1 ==> old(self).has_pages,
        ensures
            r.free_pages == (old(self).in_mem_count == 1),
            r.free_swap == (old(self).refcount == 1),
            final(self).in_mem_count == (if old(self).in_mem_count != 0 { old(self).in_mem_count - 1 } else { 0 }),
            final(self).refcount == old(self).refcount - 1,
            final(self).has_pages == (if r.free_pages { false } else { old(self).has_pages }),
            final(self).disk_addr == old(self).disk_addr && final(self).len_bytes == old(self).len_bytes,
    {
        let mut free_pages = false;
        if self.in_mem_count != 0 {
            free_pages = self.put_mem();
        }
        self.refcount = self.refcount - 1;
        TextPut { free_pages, free_swap: self.refcount == 0 }
    }
}

/// A process's entry in the process table.
#[derive(Debug, Clone, Copy)]
pub struct Process {
    pub uid: u16,
    pub pid: u32,
    pub ppid: u32,
    /// Memory address of the image, or its swap block when swapped out.
    pub addr: usize,
    pub size: u32,
    pub stat: ProcessState,
    pub flag: u32,
    pub pri: i32,
    pub cpu: u32,
    pub nice: i32,
    /// Seconds since the last swap in or out.
    pub time: u32,
    /// The channel the process sleeps on.
    pub wchan: usize,
    pub pending_signal: Option<Signal>,
    /// The controlling terminal.
    pub tty: usize,
}

/// The priority `set_pri` computes: recent CPU usage over 16, plus the user base and
/// the nice value (in 32-bit wrapping arithmetic), at most 255.
pub open spec fn user_pri(cpu: u32, nice: i32) -> u32 {
    let sum = cpu / 16 + PUSER + (nice as u32);
    let p = if sum > u32::MAX { sum - 0x1_0000_0000 } else { sum };
    if p > 255 { 255 } else { p as u32 }
}

/// `p` sleeps on channel `chan`.
pub open spec fn sleeping_on(p: Process, chan: usize) -> bool {
    (p.stat == ProcessState::SWAIT || p.stat == ProcessState::SSLEEP) && p.wchan == chan
}

/// The pending signal is to be handled: an interrupt, or a signal with a handler
/// (`handler` is the handler of the pending signal).
pub open spec fn should_process_spec(p: Process, handler: usize) -> bool {
    match p.pending_signal {
        Some(s) => s == Signal::SIGINT || handler != 0,
        None => false,
    }
}

/// What a process's sleep asks of the scheduler.
#[derive(Debug, Clone, Copy, PartialEq, Eq, Structural)]
pub struct SleepOutcome {
    /// A signal is to be handled: the process did not go to sleep.
    pub interrupted: bool,
    /// The swapper waited for a process to swap in: wake it.
    pub wake_runin: bool,
}

/// What `sbrk` does with the data segment.
#[derive(Debug, Clone, Copy, PartialEq, Eq, Structural)]
pub enum SbrkStep {
    /// The break asked for is 0: the current break is returned.
    Current(usize),
    /// The data segment keeps its length: the break asked for is returned.
    Unchanged(usize),
    /// The data segment becomes `data_len` bytes and the image `len` bytes (the
    /// per-process page, the data and the stack). The stack's bytes move from offset
    /// `move_from` to offset `move_to` of the image: before the image shrinks, or after
    /// it grew. The break asked for is returned.
    Resize { data_len: usize, len: usize, grow: bool, move_from: usize, move_to: usize },
}

/// What `sbrk(brk)` does on a data segment at `data` of `data_len` bytes with a stack of
/// `stack_len` bytes (see `Process::sbrk`).
pub open spec fn sbrk_step(data: usize, data_len: usize, stack_len: usize, brk: usize) -> SbrkStep {
    if brk == 0 {
        SbrkStep::Current((data + data_len) as usize)
    } else if brk - data == data_len {
        SbrkStep::Unchanged(brk)
    } else {
        SbrkStep::Resize {
            data_len: (brk - data) as usize,
            len: (brk - data + PAGE_SIZE + stack_len) as usize,
            grow: brk - data > data_len,
            move_from: (PAGE_SIZE + data_len) as usize,
            move_to: (PAGE_SIZE + brk - data) as usize,
        }
    }
}

/// Moving the break back undoes a move: after `sbrk(brk)` resized the data segment,
/// `sbrk` to the old break gives the old length back, resizes the image the other way
/// and moves the stack back to where it was.
pub proof fn law_sbrk_undo(data: usize, data_len: usize, stack_len: usize, brk: usize)
    requires
        brk != 0 && brk >= data && brk - data != data_len,
        data + data_len <= usize::MAX,
        data_len + PAGE_SIZE + stack_len <= usize::MAX,
        brk - data + PAGE_SIZE + stack_len <= usize::MAX,
        data + data_len != 0,
    ensures
        sbrk_step(data, data_len, stack_len, brk) matches SbrkStep::Resize { data_len: l2, len: n1, grow: g1, move_from: f1, move_to: t1 }
            && sbrk_step(data, l2, stack_len, (data + data_len) as usize) == (SbrkStep::Resize {
                data_len,
                len: (data_len + PAGE_SIZE + stack_len) as usize,
                grow: !g1,
                move_from: t1,
                move_to: f1,
            }),
{
}

/// What `sstack` does: the stack grows by a page to `stack_len` bytes and the image to
/// `len`; after the image grew, the old stack's `move_len` bytes move from offset
/// `move_from` to offset `move_to`.
#[derive(Debug, Clone, Copy, PartialEq, Eq, Structural)]
pub struct SstackStep {
    pub stack_len: usize,
    pub len: usize,
    pub move_from: usize,
    pub move_to: usize,
    pub move_len: usize,
}

/// What `expand` asks for: pages of buddy order `order` for the new image, into which
/// the first `copy_len` bytes of the old one (`old_len` bytes long) are copied. When no
/// such pages can be had the old image goes to swap instead.
#[derive(Debug, Clone, Copy, PartialEq, Eq, Structural)]
pub struct ExpandStep {
    pub order: u32,
    pub old_len: usize,
    pub copy_len: usize,
}

impl Process {
    /// A child of `parent` with pid `pid`: same user, size, nice value and terminal,
    /// runnable and loaded, with nothing pending and no usage yet (its image address is
    /// set when it gets memory).
    pub fn new_from(pid: u32, parent: &Process) -> (r: Process)
        ensures
            r == (Process {
                uid: parent.uid, pid, ppid: parent.pid, addr: 0, size: parent.size,
                stat: ProcessState::SRUN, flag: SLOAD, pri: 0, cpu: 0, nice: parent.nice,
                time: 0, wchan: 0, pending_signal: None, tty: parent.tty,
            }),
    {
        Process {
            uid: parent.uid, pid, ppid: parent.pid, addr: 0, size: parent.size,
            stat: ProcessState::SRUN, flag: SLOAD, pri: 0, cpu: 0, nice: parent.nice,
            time: 0, wchan: 0, pending_signal: None, tty: parent.tty,
        }
    }

    /// Process 0, the scheduler: a loaded system process of the super-user whose
    /// per-process area is at `ppda` and one page long.
    pub fn proc_zero(pid: u32, ppda: usize) -> (r: Process)
        ensures
            r == (Process {
                uid: 0, pid, ppid: 0, addr: ppda, size: 0x1000,
                stat: ProcessState::SRUN, flag: SLOAD | SSYS, pri: 0, cpu: 0, nice: 0,
                time: 0, wchan: 0, pending_signal: None, tty: 0,
            }),
    {
        Process {
            uid: 0, pid, ppid: 0, addr: ppda, size: 0x1000,
            stat: ProcessState::SRUN, flag: SLOAD | SSYS, pri: 0, cpu: 0, nice: 0,
            time: 0, wchan: 0, pending_signal: None, tty: 0,
        }
    }

    /// The image was written to swap block `blkno`: the address names that block, the
    /// process is no longer loaded nor locked, and its residence time restarts.
    pub fn swapped_out(&mut self, blkno: u32)
        ensures
            *final(self) == (Process { addr: blkno as usize, flag: old(self).flag & !(SLOAD | SLOCK), time: 0, ..*old(self) }),
    {
        self.addr = blkno as usize;
        self.flag = self.flag & !(SLOAD | SLOCK);
        self.time = 0;
    }

    /// `sbrk(brk)` on a data segment at `data` of `data_len` bytes with a stack of
    /// `stack_len` bytes: 0 asks for the current break; a break that keeps the length
    /// changes nothing; otherwise the data segment is resized to end at `brk`, the
    /// image follows, and the stack moves from right after the old data to right
    /// after the new.
    pub fn sbrk(data: usize, data_len: usize, stack_len: usize, brk: usize) -> (r: SbrkStep)
        requires
            brk == 0 || brk >= data,
            data + data_len <= usize::MAX,
            data_len + PAGE_SIZE + stack_len <= usize::MAX,
            brk - data + PAGE_SIZE + stack_len <= usize::MAX,
        ensures
            r == sbrk_step(data, data_len, stack_len, brk),
    {
        if brk == 0 {
            return SbrkStep::Current(data + data_len);
        }
        let newlen = brk - data;
        if newlen == data_len {
            return SbrkStep::Unchanged(brk);
        }
        SbrkStep::Resize {
            data_len: newlen,
            len: newlen + PAGE_SIZE + stack_len,
            grow: newlen > data_len,
            move_from: PAGE_SIZE + data_len,
            move_to: PAGE_SIZE + newlen,
        }
    }

    /// Grows the stack of an image with `data_len` bytes of data and `stack_len` of
    /// stack by a page: the old stack moves up by a page, to the end of the image.
    pub fn sstack(data_len: usize, stack_len: usize) -> (r: SstackStep)
        requires
            data_len + stack_len + 2 * PAGE_SIZE <= usize::MAX,
        ensures
            r == (SstackStep {
                stack_len: (stack_len + PAGE_SIZE) as usize,
                len: (PAGE_SIZE + data_len + stack_len + PAGE_SIZE) as usize,
                move_from: (PAGE_SIZE + data_len) as usize,
                move_to: (2 * PAGE_SIZE + data_len) as usize,
                move_len: stack_len,
            }),
    {
        let new_stack = stack_len + PAGE_SIZE;
        SstackStep {
            stack_len: new_stack,
            len: PAGE_SIZE + data_len + new_stack,
            move_from: PAGE_SIZE + data_len,
            move_to: PAGE_SIZE + data_len + PAGE_SIZE,
            move_len: stack_len,
        }
    }

    /// The image is to become `newlen` bytes long (more than half a page): its size is
    /// recorded and the allocation to ask for returned (see `ExpandStep`): the order is
    /// that of the smallest power of two holding `newlen`, and what fits of the old
    /// image is copied.
    pub fn expand(&mut self, newlen: usize) -> (r: ExpandStep)
        requires
            PAGE_SIZE / 2 < newlen <= u32::MAX,
            newlen <= usize::MAX / 2 + 1,
        ensures
            *final(self) == (Process { size: newlen as u32, ..*old(self) }),
            r.old_len == old(self).size,
            r.copy_len == (if old(self).size < newlen { old(self).size as usize } else { newlen }),
            pow2((r.order + 12) as nat) >= newlen,
            r.order == 0 || pow2((r.order + 11) as nat) < newlen,
    {
        let oldlen = self.size as usize;
        self.size = newlen as u32;
        let order = order_for_size(newlen);
        let copy_len = if oldlen < newlen { oldlen } else { newlen };
        ExpandStep { order, old_len: oldlen, copy_len }
    }

    /// Sets the process's user.
    pub fn setuid(&mut self, uid: u16)
        ensures
            *final(self) == (Process { uid, ..*old(self) }),
    {
        self.uid = uid;
    }

    /// The pending signal is to be handled (see `should_process_spec`).
    pub fn should_process(&self, handler: usize) -> (r: bool)
        ensures
            r == should_process_spec(*self, handler),
    {
        match self.pending_signal {
            Some(s) => s == Signal::SIGINT || handler != 0,
            None => false,
        }
    }

    /// Makes the process runnable: not sleeping, and a reschedule is requested when it
    /// beats the running process. A swapped-out process wakes the swapper when it waits
    /// (returns `true`: wake the sleepers on the swap-out channel).
    pub fn set_run(&mut self, sched: &mut Scheduler) -> (r: bool)
        requires
            old(sched).runrun < u32::MAX,
        ensures
            *final(self) == (Process { wchan: 0, stat: ProcessState::SRUN, ..*old(self) }),
            final(sched).runrun == (if old(self).pri < old(sched).cur_pri { old(sched).runrun + 1 } else { old(sched).runrun as int }),
            r == (old(sched).run_out != 0 && old(self).flag & SLOAD == 0),
            final(sched).run_out == (if r { 0 } else { old(sched).run_out }),
            final(sched).cur_pri == old(sched).cur_pri && final(sched).run_in == old(sched).run_in
                && final(sched).switch_cnt == old(sched).switch_cnt,
    {
        self.wchan = 0;
        self.stat = ProcessState::SRUN;
        if self.pri < sched.cur_pri {
            sched.runrun = sched.runrun + 1;
        }
        if sched.run_out != 0 && self.flag & SLOAD == 0 {
            sched.run_out = 0;
            return true;
        }
        false
    }

    /// Recomputes the user priority (see `user_pri`); a reschedule is requested when it
    /// is above the running one.
    pub fn set_pri(&mut self, sched: &mut Scheduler)
        requires
            old(sched).runrun < u32::MAX,
        ensures
            *final(self) == (Process { pri: user_pri(old(self).cpu, old(self).nice) as i32, ..*old(self) }),
            *final(sched) == (Scheduler {
                runrun: if user_pri(old(self).cpu, old(self).nice) as i32 > old(sched).cur_pri { (old(sched).runrun + 1) as u32 } else { old(sched).runrun },
                ..*old(sched)
            }),
    {
        let mut pri = (self.cpu / 16 + PUSER).wrapping_add(self.nice as u32);
        if pri > 255 {
            pri = 255;
        }
        if pri as i32 > sched.cur_pri {
            sched.runrun = sched.runrun + 1;
        }
        self.pri = pri as i32;
    }

    /// Posts `signal` (a kill signal is ignored): the process's priority is raised to the
    /// user base at least, and a process waiting at a user priority is made runnable
    /// (see `set_run`, whose result is returned).
    pub fn raise(&mut self, sched: &mut Scheduler, signal: Signal) -> (r: bool)
        requires
            old(sched).runrun < u32::MAX,
        ensures
            signal == Signal::SIGKILL ==> *final(self) == *old(self) && *final(sched) == *old(sched) && !r,
            signal != Signal::SIGKILL ==> {
                let p1 = Process { pending_signal: Some(signal), pri: if old(self).pri > PUSER as i32 { PUSER as i32 } else { old(self).pri }, ..*old(self) };
                &&& old(self).stat == ProcessState::SWAIT ==> *final(self) == (Process { wchan: 0, stat: ProcessState::SRUN, ..p1 })
                    && final(sched).runrun == (if p1.pri < old(sched).cur_pri { old(sched).runrun + 1 } else { old(sched).runrun as int })
                    && r == (old(sched).run_out != 0 && old(self).flag & SLOAD == 0)
                    && final(sched).run_out == (if r { 0 } else { old(sched).run_out })
                &&& old(self).stat != ProcessState::SWAIT ==> *final(self) == p1 && *final(sched) == *old(sched) && !r
            },
            final(sched).cur_pri == old(sched).cur_pri && final(sched).run_in == old(sched).run_in
                && final(sched).switch_cnt == old(sched).switch_cnt,
    {
        if signal == Signal::SIGKILL {
            return false;
        }
        self.pending_signal = Some(signal);
        if self.pri > PUSER as i32 {
            self.pri = PUSER as i32;
        }
        if self.stat == ProcessState::SWAIT {
            return self.set_run(sched);
        }
        false
    }

    /// Sets the nice value: at most 20, and only the super-user may go below 0 (others
    /// get 0).
    pub fn set_nice(&mut self, nice: i32)
        ensures
            *final(self) == (Process {
                nice: if nice > 20 { 20 } else if nice < 0 && old(self).uid != 0 { 0 } else { nice },
                ..*old(self)
            }),
    {
        let mut n = nice;
        if n > 20 {
            n = 20;
        }
        if n < 0 && self.uid != 0 {
            n = 0;
        }
        self.nice = n;
    }

    /// The process sleeps on `chan`.
    pub fn is_sleeping_on(&self, chan: usize) -> (r: bool)
        ensures
            r == sleeping_on(*self, chan),
    {
        match self.stat {
            ProcessState::SWAIT | ProcessState::SSLEEP => self.wchan == chan,
            _ => false,
        }
    }

    /// Puts the process to sleep on `chan` at kernel priority `pri`.
    pub fn sleep_kernel(&mut self, chan: usize, pri: i32)
        ensures
            *final(self) == (Process { wchan: chan, stat: ProcessState::SSLEEP, pri, ..*old(self) }),
    {
        self.wchan = chan;
        self.stat = ProcessState::SSLEEP;
        self.pri = pri;
    }

    /// An interruptible sleep on `chan` at priority `pri`: not taken when a signal is to
    /// be handled (`handler` is the pending signal's handler). The swapper is woken when
    /// it waited to swap in.
    pub fn sleep_user(&mut self, sched: &mut Scheduler, chan: usize, pri: u32, handler: usize) -> (r: SleepOutcome)
        ensures
            should_process_spec(*old(self), handler) ==> r == (SleepOutcome { interrupted: true, wake_runin: false })
                && *final(self) == *old(self) && *final(sched) == *old(sched),
            !should_process_spec(*old(self), handler) ==> r == (SleepOutcome { interrupted: false, wake_runin: old(sched).run_in != 0 })
                && *final(self) == (Process { wchan: chan, stat: ProcessState::SWAIT, pri: pri as i32, ..*old(self) })
                && *final(sched) == (Scheduler { run_in: 0, ..*old(sched) }),
    {
        if self.should_process(handler) {
            return SleepOutcome { interrupted: true, wake_runin: false };
        }
        self.wchan = chan;
        self.stat = ProcessState::SWAIT;
        self.pri = pri as i32;
        let wake_runin = sched.run_in != 0;
        sched.run_in = 0;
        SleepOutcome { interrupted: false, wake_runin }
    }

    /// `ssig(signal, func)`: installs `func` as the handler of `signal` (`EINVAL` for a
    /// number that names no signal) and returns the previous handler; a pending
    /// `signal` is dropped.
    pub fn send_signal(&mut self, handlers: &mut Vec<usize>, signal: u32, func: usize) -> (r: Result<usize, PosixError>)
        requires
            old(handlers)@.len() == Signal::SIGMAX,
        ensures
            final(handlers)@.len() == Signal::SIGMAX,
            !(1 <= signal < Signal::SIGMAX) ==> r == Err::<usize, PosixError>(PosixError::EINVAL)
                && final(handlers)@ == old(handlers)@ && *final(self) == *old(self),
            (1 <= signal < Signal::SIGMAX) ==> {
                &&& r == Ok::<usize, PosixError>(old(handlers)@[signal as int])
                &&& final(handlers)@ == old(handlers)@.update(signal as int, func)
                &&& *final(self) == (Process {
                    pending_signal: if (old(self).pending_signal matches Some(p) && p.spec_number() == signal) { None } else { old(self).pending_signal },
                    ..*old(self)
                })
            },
    {
        let s = match Signal::from_number(signal) {
            Ok(s) => s,
            Err(e) => return Err(e),
        };
        let n = s.number() as usize;
        let old_handler = handlers[n];
        handlers.set(n, func);
        match self.pending_signal {
            Some(p) => {
                if p == s {
                    self.pending_signal = None;
                }
            },
            None => {},
        }
        Ok(old_handler)
    }

    /// Takes the pending signal for delivery: returns the handler to run (the caller
    /// pushes the interrupted program counter); `None` when no signal is pending, which
    /// makes the process exit.
    pub fn process_signal(&mut self, handlers: &Vec<usize>) -> (r: Option<usize>)
        requires
            handlers@.len() == Signal::SIGMAX,
        ensures
            match old(self).pending_signal {
                Some(s) => r == Some(handlers@[s.spec_number() as int]),
                None => r is None,
            },
            *final(self) == (Process { pending_signal: None, ..*old(self) }),
    {
        match self.pending_signal {
            Some(s) => {
                self.pending_signal = None;
                Some(handlers[s.number() as usize])
            },
            None => None,
        }
    }
}

} // verus!
