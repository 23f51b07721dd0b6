use vstd::prelude::*;

use crate::constants::{PosixError, Signal};
use crate::fs::file::OpenFiles;
use crate::fs::file_manager::{access_inode, access_spec};
use crate::fs::inode::{Inode, InodeMode};
use crate::proc::process::{
    sleeping_on, user_pri, Process, ProcessState, Scheduler, PUSER, SLOAD, SLOCK, SSWAP, SSYS,
};

verus! {

/// The channel the swapper sleeps on while waiting to swap a process out.
pub const RUNOUT_CHAN: usize = 1;
/// The channel the swapper sleeps on while waiting to swap a process in.
pub const RUNIN_CHAN: usize = 2;

/// The channel processes sleep on while too many programs are being loaded.
pub const EXEC_CHAN: usize = 3;
/// Number of programs that may be loaded at once.
pub const NEXEC: u32 = 10;

/// Largest `time` a process accumulates.
pub const MAX_TIME: u32 = 127;
/// CPU usage forgotten every second.
pub const SCHED_MAGIC: u32 = 20;

/// Number of elements of `ps` that satisfy `f`.
pub open spec fn count_where(ps: Seq<Process>, f: spec_fn(Process) -> bool) -> nat
    decreases ps.len(),
{
    if ps.len() == 0 {
        0
    } else {
        count_where(ps.drop_last(), f) + if f(ps.last()) { 1nat } else { 0nat }
    }
}

/// `p` made runnable (see `Process::set_run`).
pub open spec fn woken(p: Process) -> Process {
    Process { wchan: 0, stat: ProcessState::SRUN, ..p }
}

/// `p` with `signal` pending and its priority raised to at most `PUSER` (see
/// `Process::raise`).
pub open spec fn raised(p: Process, signal: Signal) -> Process {
    Process { pending_signal: Some(signal), pri: if p.pri > PUSER as i32 { PUSER as i32 } else { p.pri }, ..p }
}

/// What posting `signal` to `p` under scheduler state `s` leaves (see
/// `Process::raise`): the process `p2`, the scheduler `s2`, and whether the swapper's
/// sleepers must be woken (`w`).
pub open spec fn raise_outcome(p: Process, s: Scheduler, signal: Signal, p2: Process, s2: Scheduler, w: bool) -> bool {
    if signal == Signal::SIGKILL {
        p2 == p && s2 == s && !w
    } else if p.stat == ProcessState::SWAIT {
        let p1 = raised(p, signal);
        &&& p2 == woken(p1)
        &&& w == (s.run_out != 0 && p.flag & SLOAD == 0)
        &&& s2 == (Scheduler {
            runrun: if p1.pri < s.cur_pri { (s.runrun + 1) as u32 } else { s.runrun },
            run_out: if w { 0 } else { s.run_out },
            ..s
        })
    } else {
        p2 == raised(p, signal) && s2 == s && !w
    }
}

/// Broadcasting `signal` wakes `p`: it is a user process asleep and the signal is not
/// `SIGKILL`.
pub open spec fn raise_wakes(p: Process, signal: Signal) -> bool {
    p.pid > 1 && signal != Signal::SIGKILL && p.stat == ProcessState::SWAIT
}

/// The processes of `ps` sleeping on `chan` made runnable.
pub open spec fn wake_all_spec(ps: Seq<Process>, chan: usize) -> Seq<Process> {
    Seq::new(ps.len(), |j: int| if sleeping_on(ps[j], chan) { woken(ps[j]) } else { ps[j] })
}

/// Waking the sleepers on `chan` wakes a swapped-out process while the swapper waits.
pub open spec fn wakes_runout(ps: Seq<Process>, chan: usize, run_out: u32) -> bool {
    run_out != 0 && exists|j: int| 0 <= j < ps.len() && sleeping_on(ps[j], chan) && #[trigger] ps[j].flag & SLOAD == 0
}

/// A process's state after a second of `recalc_pri`.
pub open spec fn recalc_one(p: Process) -> Process {
    let cpu = if p.cpu >= SCHED_MAGIC { (p.cpu - SCHED_MAGIC) as u32 } else { 0u32 };
    let time = if p.time + 1 < MAX_TIME { (p.time + 1) as u32 } else { MAX_TIME };
    Process {
        time,
        cpu,
        pri: if p.pri > PUSER as i32 { user_pri(cpu, p.nice) as i32 } else { p.pri },
        ..p
    }
}

/// The process can be chosen to run.
pub open spec fn eligible(p: Process) -> bool {
    p.stat == ProcessState::SRUN && p.flag & SLOAD != 0 && p.flag & SSYS == 0
}

/// Position of slot `j` in the round that starts after slot `last` of `n` slots.
pub open spec fn round_pos(j: int, last: int, n: int) -> int {
    (j - (last + 1)) % n
}

/// What `wait` found among the children of a process.
#[derive(Debug, Clone, Copy, PartialEq, Eq, Structural)]
pub enum WaitStep {
    /// A dead child with this pid was reaped.
    Reaped(u32),
    /// Children are alive: sleep until one exits, then look again.
    Sleep,
}

/// The image of a process that is being swapped (it holds nothing itself).
pub struct ProcessImage();

/// The process table and the scheduler's state.
pub struct ProcessManager {
    pub procs: Vec<Process>,
    pub sched: Scheduler,
    /// The slot chosen last by `select`.
    pub last_idx: usize,
    /// Number of programs being loaded.
    pub exe_cnt: u32,
}

impl View for ProcessManager {
    type V = Seq<Process>;

    open spec fn view(&self) -> Seq<Process> {
        self.procs@
    }
}

impl ProcessManager {
    /// An empty table.
    pub fn new() -> (r: Self)
        ensures
            r@.len() == 0,
            r.sched == (Scheduler { cur_pri: 0, runrun: 0, run_in: 0, run_out: 0, switch_cnt: 0 }),
            r.last_idx == 0,
            r.exe_cnt == 0,
    {
        ProcessManager { procs: Vec::new(), sched: Scheduler { cur_pri: 0, runrun: 0, run_in: 0, run_out: 0, switch_cnt: 0 }, last_idx: 0, exe_cnt: 0 }
    }

    /// A process asks to load a program: admitted (`true`, counted) while fewer than
    /// `NEXEC` programs are being loaded, otherwise it must sleep on `EXEC_CHAN` and
    /// ask again.
    pub fn exec_enter(&mut self) -> (r: bool)
        ensures
            r == (old(self).exe_cnt < NEXEC),
            final(self).exe_cnt == (if r { old(self).exe_cnt + 1 } else { old(self).exe_cnt as int }),
            final(self)@ == old(self)@ && final(self).sched == old(self).sched && final(self).last_idx == old(self).last_idx,
    {
        if self.exe_cnt >= NEXEC {
            return false;
        }
        self.exe_cnt = self.exe_cnt + 1;
        true
    }

    /// A program was loaded, or its loading given up: one fewer is counted; returns
    /// whether the count was at the limit, in which case the sleepers on `EXEC_CHAN`
    /// are to be woken.
    pub fn exec_leave(&mut self) -> (r: bool)
        requires
            old(self).exe_cnt > 0,
        ensures
            r == (old(self).exe_cnt >= NEXEC),
            final(self).exe_cnt == old(self).exe_cnt - 1,
            final(self)@ == old(self)@ && final(self).sched == old(self).sched && final(self).last_idx == old(self).last_idx,
    {
        let wake = self.exe_cnt >= NEXEC;
        self.exe_cnt = self.exe_cnt - 1;
        wake
    }

    /// The admitted program (`exec_enter`) in `inode` is checked before it is loaded:
    /// user `uid`/`gid` must be allowed to execute it and it must be a regular file.
    /// Otherwise the loading is given up with `ENOEXEC` (and the count released, see
    /// `exec_leave`: the flag says whether to wake the sleepers on `EXEC_CHAN`).
    pub fn exec_admit(&mut self, inode: &Inode, uid: i16, gid: i16) -> (r: Result<(), (PosixError, bool)>)
        requires
            old(self).exe_cnt > 0,
        ensures
            ({
                let ok = access_spec(*inode, InodeMode::IEXEC, uid, gid, Some(false)) is Ok
                    && inode.i_mode & InodeMode::IFMT == 0;
                &&& ok ==> r is Ok && final(self).exe_cnt == old(self).exe_cnt
                &&& !ok ==> r == Err::<(), (PosixError, bool)>((PosixError::ENOEXEC, old(self).exe_cnt >= NEXEC))
                    && final(self).exe_cnt == old(self).exe_cnt - 1
            }),
            final(self)@ == old(self)@ && final(self).sched == old(self).sched && final(self).last_idx == old(self).last_idx,
    {
        let ok = access_inode(inode, InodeMode::IEXEC, uid, gid, Some(false)).is_ok()
            && inode.i_mode & InodeMode::IFMT == 0;
        if ok {
            Ok(())
        } else {
            let wake = self.exec_leave();
            Err((PosixError::ENOEXEC, wake))
        }
    }

    /// The admitted program was loaded (`loaded`: see `ElfParser::load`) and its memory
    /// laid out (`overflow`: it does not fit in user space). A program that did not load
    /// is given up with `ENOEXEC`, one that does not fit with `ENOMEM`; either way the
    /// count is released (see `exec_leave`: the flag says whether to wake the sleepers on
    /// `EXEC_CHAN`). Otherwise the loading goes on, still counted.
    pub fn exec_loaded(&mut self, loaded: bool, overflow: bool) -> (r: Result<(), (PosixError, bool)>)
        requires
            old(self).exe_cnt > 0,
        ensures
            loaded && !overflow ==> r is Ok && final(self).exe_cnt == old(self).exe_cnt,
            !loaded ==> r == Err::<(), (PosixError, bool)>((PosixError::ENOEXEC, old(self).exe_cnt >= NEXEC))
                && final(self).exe_cnt == old(self).exe_cnt - 1,
            loaded && overflow ==> r == Err::<(), (PosixError, bool)>((PosixError::ENOMEM, old(self).exe_cnt >= NEXEC))
                && final(self).exe_cnt == old(self).exe_cnt - 1,
            final(self)@ == old(self)@ && final(self).sched == old(self).sched && final(self).last_idx == old(self).last_idx,
    {
        if !loaded {
            let wake = self.exec_leave();
            return Err((PosixError::ENOEXEC, wake));
        }
        if overflow {
            let wake = self.exec_leave();
            return Err((PosixError::ENOMEM, wake));
        }
        Ok(())
    }

    /// Number of slots.
    pub fn len(&self) -> (r: usize)
        ensures
            r == self@.len(),
    {
        self.procs.len()
    }

    /// The process in slot `i`.
    pub fn process(&self, i: usize) -> (r: Process)
        requires
            i < self@.len(),
        ensures
            r == self@[i as int],
    {
        self.procs[i]
    }

    /// Replaces the process in slot `i`.
    pub fn set_process(&mut self, i: usize, p: Process)
        requires
            i < old(self)@.len(),
        ensures
            final(self)@ == old(self)@.update(i as int, p),
            final(self).sched == old(self).sched && final(self).last_idx == old(self).last_idx && final(self).exe_cnt == old(self).exe_cnt,
    {
        self.procs.set(i, p);
    }

    /// Adds a process in a new slot.
    pub fn add(&mut self, p: Process)
        ensures
            final(self)@ == old(self)@.push(p),
            final(self).sched == old(self).sched && final(self).last_idx == old(self).last_idx && final(self).exe_cnt == old(self).exe_cnt,
    {
        self.procs.push(p);
    }

    /// One pass of `wakeup_all`: makes the sleepers on `chan` runnable; returns whether
    /// a swapped-out one was woken while the swapper waited.
    fn wake_pass(&mut self, chan: usize) -> (r: bool)
        requires
            old(self).sched.runrun + old(self)@.len() <= u32::MAX,
        ensures
            final(self)@ == wake_all_spec(old(self)@, chan),
            final(self).sched.runrun == old(self).sched.runrun + count_where(old(self)@, |p: Process| sleeping_on(p, chan) && p.pri < old(self).sched.cur_pri),
            r == wakes_runout(old(self)@, chan, old(self).sched.run_out),
            final(self).sched == (Scheduler { runrun: final(self).sched.runrun, run_out: if r { 0 } else { old(self).sched.run_out }, ..old(self).sched }),
            final(self).last_idx == old(self).last_idx && final(self).exe_cnt == old(self).exe_cnt,
    {
        let ghost ps = self@;
        let ghost f = |p: Process| sleeping_on(p, chan) && p.pri < old(self).sched.cur_pri;
        let mut trig = false;
        let mut i: usize = 0;
        while i < self.procs.len()
            invariant
                ps == old(self)@,
                f == (|p: Process| sleeping_on(p, chan) && p.pri < old(self).sched.cur_pri),
                self@.len() == ps.len(),
                i <= ps.len(),
                forall|j: int| 0 <= j < i ==> #[trigger] self@[j] == (if sleeping_on(ps[j], chan) { woken(ps[j]) } else { ps[j] }),
                forall|j: int| i <= j < ps.len() ==> #[trigger] self@[j] == ps[j],
                self.sched.runrun == old(self).sched.runrun + count_where(ps.take(i as int), f),
                count_where(ps.take(i as int), f) <= i,
                old(self).sched.runrun + ps.len() <= u32::MAX,
                trig == (old(self).sched.run_out != 0 && exists|j: int| 0 <= j < i && sleeping_on(ps[j], chan) && #[trigger] ps[j].flag & SLOAD == 0),
                self.sched == (Scheduler { runrun: self.sched.runrun, run_out: if trig { 0 } else { old(self).sched.run_out }, ..old(self).sched }),
                self.last_idx == old(self).last_idx && self.exe_cnt == old(self).exe_cnt,
            decreases ps.len() - i,
        {
            assert(ps.take(i as int + 1).drop_last() =~= ps.take(i as int));
            let mut p = self.procs[i];
            if p.is_sleeping_on(chan) {
                if p.set_run(&mut self.sched) {
                    trig = true;
                }
                self.procs.set(i, p);
            }
            i = i + 1;
        }
        assert(ps.take(ps.len() as int) =~= ps);
        assert(self@ =~= wake_all_spec(ps, chan));
        trig
    }

    /// Makes every process sleeping on `chan` runnable (see `Process::set_run`); when
    /// that wakes a swapped-out process while the swapper waits, the swapper's sleepers
    /// are woken too.
    pub fn wakeup_all(&mut self, chan: usize)
        requires
            old(self).sched.runrun + 2 * old(self)@.len() <= u32::MAX,
        ensures
            ({
                let cp = old(self).sched.cur_pri;
                let p1 = wake_all_spec(old(self)@, chan);
                let w = wakes_runout(old(self)@, chan, old(self).sched.run_out);
                &&& final(self)@ == (if w { wake_all_spec(p1, RUNOUT_CHAN) } else { p1 })
                &&& final(self).sched.runrun == old(self).sched.runrun
                    + count_where(old(self)@, |p: Process| sleeping_on(p, chan) && p.pri < cp)
                    + (if w { count_where(p1, |p: Process| sleeping_on(p, RUNOUT_CHAN) && p.pri < cp) } else { 0 })
                &&& final(self).sched.run_out == (if w { 0 } else { old(self).sched.run_out })
                &&& final(self).sched.cur_pri == cp && final(self).sched.run_in == old(self).sched.run_in
                &&& final(self).sched.switch_cnt == old(self).sched.switch_cnt
            }),
            final(self).last_idx == old(self).last_idx && final(self).exe_cnt == old(self).exe_cnt,
    {
        let ghost ps = self@;
        proof { lemma_count_where_le(ps, |p: Process| sleeping_on(p, chan) && p.pri < old(self).sched.cur_pri); }
        if self.wake_pass(chan) {
            let ghost p1 = self@;
            proof { lemma_count_where_le(p1, |p: Process| sleeping_on(p, RUNOUT_CHAN) && p.pri < old(self).sched.cur_pri); }
            let w2 = self.wake_pass(RUNOUT_CHAN);
        }
    }

    /// Makes the swapper runnable when it waits to swap a process out.
    pub fn wakeup_runout(&mut self)
        requires
            old(self).sched.runrun + 2 * old(self)@.len() <= u32::MAX,
        ensures
            final(self)@ == wake_all_spec(old(self)@, RUNOUT_CHAN),
            final(self).sched == (Scheduler {
                runrun: (old(self).sched.runrun + count_where(old(self)@, |p: Process| sleeping_on(p, RUNOUT_CHAN) && p.pri < old(self).sched.cur_pri)) as u32,
                run_out: if wakes_runout(old(self)@, RUNOUT_CHAN, old(self).sched.run_out) { 0 } else { old(self).sched.run_out },
                ..old(self).sched
            }),
            final(self).last_idx == old(self).last_idx && final(self).exe_cnt == old(self).exe_cnt,
    {
        let ghost ps = self@;
        proof {
            lemma_count_where_le(ps, |p: Process| sleeping_on(p, RUNOUT_CHAN) && p.pri < old(self).sched.cur_pri);
        }
        if self.wake_pass(RUNOUT_CHAN) {
            proof {
                lemma_wake_all_idempotent(ps, RUNOUT_CHAN);
            }
            let ghost p1 = self@;
            proof {
                lemma_count_where_le(p1, |p: Process| sleeping_on(p, RUNOUT_CHAN) && p.pri < old(self).sched.cur_pri);
                lemma_none_sleeping_after_wake(ps, RUNOUT_CHAN, |p: Process| sleeping_on(p, RUNOUT_CHAN) && p.pri < old(self).sched.cur_pri);
            }
            let w2 = self.wake_pass(RUNOUT_CHAN);
        }
    }

    /// Makes the swapper runnable when it waits to swap a process in (see `wakeup_all`).
    pub fn wakeup_runin(&mut self)
        requires
            old(self).sched.runrun + 2 * old(self)@.len() <= u32::MAX,
        ensures
            ({
                let cp = old(self).sched.cur_pri;
                let p1 = wake_all_spec(old(self)@, RUNIN_CHAN);
                let w = wakes_runout(old(self)@, RUNIN_CHAN, old(self).sched.run_out);
                &&& final(self)@ == (if w { wake_all_spec(p1, RUNOUT_CHAN) } else { p1 })
                &&& final(self).sched.runrun == old(self).sched.runrun
                    + count_where(old(self)@, |p: Process| sleeping_on(p, RUNIN_CHAN) && p.pri < cp)
                    + (if w { count_where(p1, |p: Process| sleeping_on(p, RUNOUT_CHAN) && p.pri < cp) } else { 0 })
                &&& final(self).sched.run_out == (if w { 0 } else { old(self).sched.run_out })
                &&& final(self).sched.cur_pri == cp && final(self).sched.run_in == old(self).sched.run_in
                &&& final(self).sched.switch_cnt == old(self).sched.switch_cnt
            }),
            final(self).last_idx == old(self).last_idx && final(self).exe_cnt == old(self).exe_cnt,
    {
        self.wakeup_all(RUNIN_CHAN);
    }

    /// Every second: each process's time grows (up to `MAX_TIME`), its CPU usage decays
    /// by `SCHED_MAGIC`, and a process at a user priority gets it recomputed (see
    /// `Process::set_pri`).
    pub fn recalc_pri(&mut self)
        requires
            old(self).sched.runrun + old(self)@.len() <= u32::MAX,
            forall|j: int| 0 <= j < old(self)@.len() ==> (#[trigger] old(self)@[j]).time < u32::MAX,
        ensures
            final(self)@ == Seq::new(old(self)@.len(), |j: int| recalc_one(old(self)@[j])),
            final(self).sched.runrun == old(self).sched.runrun
                + count_where(old(self)@, |p: Process| p.pri > PUSER as i32 && recalc_one(p).pri > old(self).sched.cur_pri),
            final(self).sched == (Scheduler { runrun: final(self).sched.runrun, ..old(self).sched }),
            final(self).last_idx == old(self).last_idx && final(self).exe_cnt == old(self).exe_cnt,
    {
        let ghost ps = self@;
        let ghost f = |p: Process| p.pri > PUSER as i32 && recalc_one(p).pri > old(self).sched.cur_pri;
        let mut i: usize = 0;
        while i < self.procs.len()
            invariant
                ps == old(self)@,
                f == (|p: Process| p.pri > PUSER as i32 && recalc_one(p).pri > old(self).sched.cur_pri),
                self@.len() == ps.len(),
                i <= ps.len(),
                forall|j: int| 0 <= j < ps.len() ==> (#[trigger] ps[j]).time < u32::MAX,
                forall|j: int| 0 <= j < i ==> #[trigger] self@[j] == recalc_one(ps[j]),
                forall|j: int| i <= j < ps.len() ==> #[trigger] self@[j] == ps[j],
                self.sched.runrun == old(self).sched.runrun + count_where(ps.take(i as int), f),
                count_where(ps.take(i as int), f) <= i,
                old(self).sched.runrun + ps.len() <= u32::MAX,
                self.sched == (Scheduler { runrun: self.sched.runrun, ..old(self).sched }),
                self.last_idx == old(self).last_idx && self.exe_cnt == old(self).exe_cnt,
            decreases ps.len() - i,
        {
            assert(ps.take(i as int + 1).drop_last() =~= ps.take(i as int));
            let mut p = self.procs[i];
            let t = p.time + 1;
            p.time = if t < MAX_TIME { t } else { MAX_TIME };
            p.cpu = p.cpu.saturating_sub(SCHED_MAGIC);
            if p.pri > PUSER as i32 {
                p.set_pri(&mut self.sched);
            }
            self.procs.set(i, p);
            i = i + 1;
        }
        assert(ps.take(ps.len() as int) =~= ps);
        assert(self@ =~= Seq::new(ps.len(), |j: int| recalc_one(ps[j])));
    }

    /// Posts `signal` to every process but 0 and 1 (see `Process::raise`). Returns
    /// whether the swapper's sleepers must be woken: a swapped-out sleeper was woken
    /// while the swapper waited.
    pub fn raise(&mut self, signal: Signal) -> (r: bool)
        requires
            old(self).sched.runrun + old(self)@.len() <= u32::MAX,
        ensures
            final(self)@.len() == old(self)@.len(),
            forall|j: int| 0 <= j < old(self)@.len() ==> {
                let p = #[trigger] old(self)@[j];
                let p1 = raised(p, signal);
                &&& (p.pid <= 1 || signal == Signal::SIGKILL) ==> final(self)@[j] == p
                &&& (p.pid > 1 && signal != Signal::SIGKILL && p.stat == ProcessState::SWAIT) ==> final(self)@[j] == woken(p1)
                &&& (p.pid > 1 && signal != Signal::SIGKILL && p.stat != ProcessState::SWAIT) ==> final(self)@[j] == p1
            },
            final(self).sched.runrun == old(self).sched.runrun + count_where(old(self)@, |p: Process| raise_wakes(p, signal) && raised(p, signal).pri < old(self).sched.cur_pri),
            r == (old(self).sched.run_out != 0 && exists|j: int| 0 <= j < old(self)@.len() && raise_wakes(old(self)@[j], signal) && #[trigger] old(self)@[j].flag & SLOAD == 0),
            final(self).sched == (Scheduler { runrun: final(self).sched.runrun, run_out: if r { 0 } else { old(self).sched.run_out }, ..old(self).sched }),
            final(self).last_idx == old(self).last_idx && final(self).exe_cnt == old(self).exe_cnt,
    {
        let ghost ps = self@;
        let ghost f = |p: Process| raise_wakes(p, signal) && raised(p, signal).pri < old(self).sched.cur_pri;
        let mut w = false;
        let mut i: usize = 0;
        while i < self.procs.len()
            invariant
                ps == old(self)@,
                f == (|p: Process| raise_wakes(p, signal) && raised(p, signal).pri < old(self).sched.cur_pri),
                self@.len() == ps.len(),
                i <= ps.len(),
                self.sched.runrun == old(self).sched.runrun + count_where(ps.take(i as int), f),
                count_where(ps.take(i as int), f) <= i,
                old(self).sched.runrun + ps.len() <= u32::MAX,
                w == (old(self).sched.run_out != 0 && exists|j: int| 0 <= j < i && raise_wakes(ps[j], signal) && #[trigger] ps[j].flag & SLOAD == 0),
                self.sched == (Scheduler { runrun: self.sched.runrun, run_out: if w { 0 } else { old(self).sched.run_out }, ..old(self).sched }),
                self.last_idx == old(self).last_idx && self.exe_cnt == old(self).exe_cnt,
                forall|j: int| i <= j < ps.len() ==> #[trigger] self@[j] == ps[j],
                forall|j: int| 0 <= j < i ==> {
                    let p = #[trigger] ps[j];
                    let p1 = raised(p, signal);
                    &&& (p.pid <= 1 || signal == Signal::SIGKILL) ==> self@[j] == p
                    &&& (p.pid > 1 && signal != Signal::SIGKILL && p.stat == ProcessState::SWAIT) ==> self@[j] == woken(p1)
                    &&& (p.pid > 1 && signal != Signal::SIGKILL && p.stat != ProcessState::SWAIT) ==> self@[j] == p1
                },
            decreases ps.len() - i,
        {
            assert(ps.take(i as int + 1).drop_last() =~= ps.take(i as int));
            let mut p = self.procs[i];
            if p.pid > 1 {
                if p.raise(&mut self.sched, signal) {
                    w = true;
                }
                self.procs.set(i, p);
            }
            i = i + 1;
        }
        assert(ps.take(ps.len() as int) =~= ps);
        w
    }

    /// The first slot of process `pid`.
    pub fn find(&self, pid: u32) -> (r: Option<usize>)
        ensures
            match r {
                Some(i) => i < self@.len() && self@[i as int].pid == pid && forall|j: int| 0 <= j < i ==> (#[trigger] self@[j]).pid != pid,
                None => forall|j: int| 0 <= j < self@.len() ==> (#[trigger] self@[j]).pid != pid,
            },
    {
        let mut i: usize = 0;
        while i < self.procs.len()
            invariant
                i <= self@.len(),
                forall|j: int| 0 <= j < i ==> (#[trigger] self@[j]).pid != pid,
            decreases self@.len() - i,
        {
            if self.procs[i].pid == pid {
                return Some(i);
            }
            i = i + 1;
        }
        None
    }

    /// `kill(pid, signal)` from process `cur_pid` of user `cur_uid` on terminal
    /// `cur_tty`: a process cannot signal itself (`EINVAL`); pid 0 signals the first
    /// process of the caller's terminal it may signal (`ESRCH` when there is none);
    /// otherwise the process must exist (`ESRCH`) and belong to the caller unless the
    /// caller is the super-user (`EPERM`). The signal is posted (see `Process::raise`).
    /// Returns the slot signalled and whether the swapper's sleepers must be woken.
    pub fn kill(&mut self, cur_pid: u32, cur_uid: u16, cur_tty: usize, pid: u32, signal: Signal) -> (r: Result<(usize, bool), PosixError>)
        requires
            old(self).sched.runrun < u32::MAX,
        ensures
            pid == cur_pid ==> r == Err::<(usize, bool), PosixError>(PosixError::EINVAL) && final(self)@ == old(self)@,
            pid != cur_pid && pid == 0 ==> match r {
                Ok((i, _)) => i < old(self)@.len() && may_signal_pgroup(old(self)@[i as int], cur_uid, cur_tty)
                    && forall|j: int| 0 <= j < i ==> !may_signal_pgroup(#[trigger] old(self)@[j], cur_uid, cur_tty),
                Err(e) => e == PosixError::ESRCH && final(self)@ == old(self)@
                    && forall|j: int| 0 <= j < old(self)@.len() ==> !may_signal_pgroup(#[trigger] old(self)@[j], cur_uid, cur_tty),
            },
            pid != cur_pid && pid != 0 ==> match r {
                Ok((i, _)) => i < old(self)@.len() && old(self)@[i as int].pid == pid
                    && (forall|j: int| 0 <= j < i ==> (#[trigger] old(self)@[j]).pid != pid)
                    && (cur_uid == 0 || old(self)@[i as int].uid == cur_uid),
                Err(e) => final(self)@ == old(self)@ && (
                    (e == PosixError::ESRCH && forall|j: int| 0 <= j < old(self)@.len() ==> (#[trigger] old(self)@[j]).pid != pid)
                    || (e == PosixError::EPERM && cur_uid != 0 && exists|i: int| 0 <= i < old(self)@.len() && (#[trigger] old(self)@[i]).pid == pid
                        && old(self)@[i].uid != cur_uid && forall|j: int| 0 <= j < i ==> (#[trigger] old(self)@[j]).pid != pid)),
            },
            r is Err ==> final(self).sched == old(self).sched,
            r matches Ok((i, w)) ==> final(self)@.len() == old(self)@.len()
                && (forall|j: int| 0 <= j < old(self)@.len() && j != i ==> #[trigger] final(self)@[j] == old(self)@[j])
                && raise_outcome(old(self)@[i as int], old(self).sched, signal, final(self)@[i as int], final(self).sched, w),
            final(self).last_idx == old(self).last_idx && final(self).exe_cnt == old(self).exe_cnt,
    {
        if pid == cur_pid {
            return Err(PosixError::EINVAL);
        }
        let i = if pid == 0 {
            match self.find_pgroup_member(cur_uid, cur_tty) {
                Some(i) => i,
                None => return Err(PosixError::ESRCH),
            }
        } else {
            match self.find(pid) {
                Some(i) => {
                    if cur_uid != 0 && self.procs[i].uid != cur_uid {
                        return Err(PosixError::EPERM);
                    }
                    i
                },
                None => return Err(PosixError::ESRCH),
            }
        };
        let mut p = self.procs[i];
        let w = p.raise(&mut self.sched, signal);
        self.procs.set(i, p);
        Ok((i, w))
    }

    /// The first process that `kill(0, ..)` may signal.
    fn find_pgroup_member(&self, cur_uid: u16, cur_tty: usize) -> (r: Option<usize>)
        ensures
            match r {
                Some(i) => i < self@.len() && may_signal_pgroup(self@[i as int], cur_uid, cur_tty)
                    && forall|j: int| 0 <= j < i ==> !may_signal_pgroup(#[trigger] self@[j], cur_uid, cur_tty),
                None => forall|j: int| 0 <= j < self@.len() ==> !may_signal_pgroup(#[trigger] self@[j], cur_uid, cur_tty),
            },
    {
        let mut i: usize = 0;
        while i < self.procs.len()
            invariant
                i <= self@.len(),
                forall|j: int| 0 <= j < i ==> !may_signal_pgroup(#[trigger] self@[j], cur_uid, cur_tty),
            decreases self@.len() - i,
        {
            let p = self.procs[i];
            if p.pid != 0 && p.tty == cur_tty && (cur_uid == 0 || p.uid == cur_uid) {
                return Some(i);
            }
            i = i + 1;
        }
        None
    }

    /// `wait()` by process `pid`: reaps its first dead child (the slot is cleared and
    /// the child's pid returned); with children all alive the caller sleeps and tries
    /// again; without children, `ECHILD`.
    pub fn wait(&mut self, pid: u32) -> (r: Result<WaitStep, PosixError>)
        ensures
            match r {
                Ok(WaitStep::Reaped(c)) => exists|i: int| 0 <= i < old(self)@.len() && {
                    let p = #[trigger] old(self)@[i];
                    &&& p.ppid == pid && p.stat == ProcessState::SZOMB && c == p.pid
                    &&& forall|j: int| 0 <= j < i ==> !((#[trigger] old(self)@[j]).ppid == pid && old(self)@[j].stat == ProcessState::SZOMB)
                    &&& final(self)@ == old(self)@.update(i, Process { stat: ProcessState::SNULL, pid: 0, ppid: 0, pending_signal: None, flag: 0, ..p })
                },
                Ok(WaitStep::Sleep) => final(self)@ == old(self)@
                    && (exists|i: int| 0 <= i < old(self)@.len() && (#[trigger] old(self)@[i]).ppid == pid)
                    && forall|j: int| 0 <= j < old(self)@.len() ==> !((#[trigger] old(self)@[j]).ppid == pid && old(self)@[j].stat == ProcessState::SZOMB),
                Err(e) => e == PosixError::ECHILD && final(self)@ == old(self)@
                    && forall|j: int| 0 <= j < old(self)@.len() ==> (#[trigger] old(self)@[j]).ppid != pid,
            },
            final(self).sched == old(self).sched,
    {
        let mut has_child = false;
        let mut i: usize = 0;
        while i < self.procs.len()
            invariant
                self@ == old(self)@,
                self.sched == old(self).sched,
                i <= self@.len(),
                forall|j: int| 0 <= j < i ==> !((#[trigger] self@[j]).ppid == pid && self@[j].stat == ProcessState::SZOMB),
                has_child == exists|j: int| 0 <= j < i && (#[trigger] self@[j]).ppid == pid,
            decreases self@.len() - i,
        {
            let p = self.procs[i];
            if p.ppid == pid {
                has_child = true;
                if p.stat == ProcessState::SZOMB {
                    let c = p.pid;
                    self.procs.set(i, Process { stat: ProcessState::SNULL, pid: 0, ppid: 0, pending_signal: None, flag: 0, ..p });
                    return Ok(WaitStep::Reaped(c));
                }
            }
            i = i + 1;
        }
        if has_child {
            Ok(WaitStep::Sleep)
        } else {
            Err(PosixError::ECHILD)
        }
    }

    /// The last slot of process `ppid`, whose sleepers an exiting child wakes.
    pub fn wake_ppid(&self, ppid: u32) -> (r: Option<usize>)
        ensures
            match r {
                Some(i) => i < self@.len() && self@[i as int].pid == ppid && forall|j: int| i < j < self@.len() ==> (#[trigger] self@[j]).pid != ppid,
                None => forall|j: int| 0 <= j < self@.len() ==> (#[trigger] self@[j]).pid != ppid,
            },
    {
        let mut found: Option<usize> = None;
        let mut i: usize = 0;
        while i < self.procs.len()
            invariant
                i <= self@.len(),
                match found {
                    Some(k) => k < i && self@[k as int].pid == ppid && forall|j: int| k < j < i ==> (#[trigger] self@[j]).pid != ppid,
                    None => forall|j: int| 0 <= j < i ==> (#[trigger] self@[j]).pid != ppid,
                },
            decreases self@.len() - i,
        {
            if self.procs[i].pid == ppid {
                found = Some(i);
            }
            i = i + 1;
        }
        found
    }

    /// The children of exiting process `pid` pass to process 1; stopped ones are made
    /// runnable (see `Process::set_run`). Returns whether the swapper's sleepers must be
    /// woken: a swapped-out child was made runnable while the swapper waited.
    pub fn reparent(&mut self, pid: u32) -> (r: bool)
        requires
            old(self).sched.runrun + old(self)@.len() <= u32::MAX,
        ensures
            final(self)@.len() == old(self)@.len(),
            forall|j: int| 0 <= j < old(self)@.len() ==> {
                let p = #[trigger] old(self)@[j];
                &&& p.ppid != pid ==> final(self)@[j] == p
                &&& p.ppid == pid && p.stat != ProcessState::SSTOP ==> final(self)@[j] == (Process { ppid: 1, ..p })
                &&& p.ppid == pid && p.stat == ProcessState::SSTOP ==> final(self)@[j] == woken(Process { ppid: 1, ..p })
            },
            final(self).sched.runrun == old(self).sched.runrun + count_where(old(self)@, |p: Process| p.ppid == pid && p.stat == ProcessState::SSTOP && p.pri < old(self).sched.cur_pri),
            r == (old(self).sched.run_out != 0 && exists|j: int| 0 <= j < old(self)@.len() && old(self)@[j].ppid == pid && old(self)@[j].stat == ProcessState::SSTOP && #[trigger] old(self)@[j].flag & SLOAD == 0),
            final(self).sched == (Scheduler { runrun: final(self).sched.runrun, run_out: if r { 0 } else { old(self).sched.run_out }, ..old(self).sched }),
            final(self).last_idx == old(self).last_idx && final(self).exe_cnt == old(self).exe_cnt,
    {
        let ghost ps = self@;
        let ghost f = |p: Process| p.ppid == pid && p.stat == ProcessState::SSTOP && p.pri < old(self).sched.cur_pri;
        let mut w = false;
        let mut i: usize = 0;
        while i < self.procs.len()
            invariant
                ps == old(self)@,
                f == (|p: Process| p.ppid == pid && p.stat == ProcessState::SSTOP && p.pri < old(self).sched.cur_pri),
                self@.len() == ps.len(),
                i <= ps.len(),
                self.sched.runrun == old(self).sched.runrun + count_where(ps.take(i as int), f),
                count_where(ps.take(i as int), f) <= i,
                old(self).sched.runrun + ps.len() <= u32::MAX,
                w == (old(self).sched.run_out != 0 && exists|j: int| 0 <= j < i && ps[j].ppid == pid && ps[j].stat == ProcessState::SSTOP && #[trigger] ps[j].flag & SLOAD == 0),
                self.sched == (Scheduler { runrun: self.sched.runrun, run_out: if w { 0 } else { old(self).sched.run_out }, ..old(self).sched }),
                self.last_idx == old(self).last_idx && self.exe_cnt == old(self).exe_cnt,
                forall|j: int| i <= j < ps.len() ==> #[trigger] self@[j] == ps[j],
                forall|j: int| 0 <= j < i ==> {
                    let p = #[trigger] ps[j];
                    &&& p.ppid != pid ==> self@[j] == p
                    &&& p.ppid == pid && p.stat != ProcessState::SSTOP ==> self@[j] == (Process { ppid: 1, ..p })
                    &&& p.ppid == pid && p.stat == ProcessState::SSTOP ==> self@[j] == woken(Process { ppid: 1, ..p })
                },
            decreases ps.len() - i,
        {
            assert(ps.take(i as int + 1).drop_last() =~= ps.take(i as int));
            let mut p = self.procs[i];
            if p.ppid == pid {
                p.ppid = 1;
                if p.stat == ProcessState::SSTOP {
                    if p.set_run(&mut self.sched) {
                        w = true;
                    }
                }
                self.procs.set(i, p);
            }
            i = i + 1;
        }
        assert(ps.take(ps.len() as int) =~= ps);
        w
    }

    /// `exit()` of the process in slot `i` (not process 0): every signal is ignored
    /// again (its handlers `handlers` are cleared), its descriptors are all closed, its
    /// current directory (the inode slot `cwd`) is dropped, and it becomes a zombie for
    /// its parent to reap. Returns the parent's slot (see `wake_ppid`), whose sleepers
    /// the caller wakes before passing the children on (`reparent`) and switching away
    /// for good.
    pub fn exit(&mut self, i: usize, open_files: &mut OpenFiles, handlers: &mut Vec<usize>, cwd: &mut Option<usize>) -> (r: Option<usize>)
        requires
            i < old(self)@.len(),
            old(self)@[i as int].pid != 0,
            old(open_files).wf(),
        ensures
            final(self)@ == old(self)@.update(i as int, Process { stat: ProcessState::SZOMB, ..old(self)@[i as int] }),
            final(handlers)@.len() == old(handlers)@.len(),
            forall|k: int| 0 <= k < final(handlers)@.len() ==> #[trigger] final(handlers)@[k] == 0,
            *final(cwd) is None,
            final(open_files).wf(),
            forall|fd: int| 0 <= fd < OpenFiles::NOFILES ==> #[trigger] final(open_files)@[fd] is None,
            ({
                let ppid = old(self)@[i as int].ppid;
                match r {
                    Some(j) => j < final(self)@.len() && final(self)@[j as int].pid == ppid
                        && forall|k: int| j < k < final(self)@.len() ==> (#[trigger] final(self)@[k]).pid != ppid,
                    None => forall|k: int| 0 <= k < final(self)@.len() ==> (#[trigger] final(self)@[k]).pid != ppid,
                }
            }),
            final(self).sched == old(self).sched,
            final(self).last_idx == old(self).last_idx && final(self).exe_cnt == old(self).exe_cnt,
    {
        let mut h: usize = 0;
        while h < handlers.len()
            invariant
                h <= handlers@.len(),
                handlers@.len() == old(handlers)@.len(),
                forall|k: int| 0 <= k < h ==> #[trigger] handlers@[k] == 0,
            decreases handlers@.len() - h,
        {
            handlers.set(h, 0);
            h = h + 1;
        }
        let mut fd: usize = 0;
        while fd < OpenFiles::NOFILES
            invariant
                fd <= OpenFiles::NOFILES,
                open_files.wf(),
                forall|k: int| 0 <= k < fd ==> #[trigger] open_files@[k] is None,
            decreases OpenFiles::NOFILES - fd,
        {
            open_files.clear_f(fd);
            fd = fd + 1;
        }
        *cwd = None;
        let p = self.procs[i];
        self.procs.set(i, Process { stat: ProcessState::SZOMB, ..p });
        self.wake_ppid(p.ppid)
    }

    /// The image of the process in slot `i` is about to be written to swap: it is locked
    /// in memory meanwhile.
    pub fn swap_out_begin(&mut self, i: usize)
        requires
            i < old(self)@.len(),
        ensures
            final(self)@ == old(self)@.update(i as int, Process { flag: old(self)@[i as int].flag | SLOCK, ..old(self)@[i as int] }),
            final(self).sched == old(self).sched,
            final(self).last_idx == old(self).last_idx && final(self).exe_cnt == old(self).exe_cnt,
    {
        let p = self.procs[i];
        self.procs.set(i, Process { flag: p.flag | SLOCK, ..p });
    }

    /// The image of the process in slot `i` was written to swap block `blkno`: the
    /// process is swapped out (see `Process::swapped_out`) and marked so (`SSWAP`);
    /// when the swapper waits for a process to swap out, it is woken (see `wakeup_all`).
    pub fn send_to_swap(&mut self, i: usize, blkno: u32)
        requires
            i < old(self)@.len(),
            old(self).sched.runrun + 2 * old(self)@.len() <= u32::MAX,
        ensures
            ({
                let p = old(self)@[i as int];
                let p1 = old(self)@.update(i as int, Process {
                    addr: blkno as usize,
                    flag: (p.flag & !(SLOAD | SLOCK)) | SSWAP,
                    time: 0,
                    ..p
                });
                if old(self).sched.run_out != 0 {
                    &&& final(self)@ == wake_all_spec(p1, RUNOUT_CHAN)
                    &&& final(self).sched == (Scheduler {
                        runrun: (old(self).sched.runrun + count_where(p1, |q: Process| sleeping_on(q, RUNOUT_CHAN) && q.pri < old(self).sched.cur_pri)) as u32,
                        run_out: 0,
                        ..old(self).sched
                    })
                } else {
                    final(self)@ == p1 && final(self).sched == old(self).sched
                }
            }),
            final(self).last_idx == old(self).last_idx && final(self).exe_cnt == old(self).exe_cnt,
    {
        let mut p = self.procs[i];
        p.swapped_out(blkno);
        p.flag = p.flag | SSWAP;
        self.procs.set(i, p);
        if self.sched.run_out != 0 {
            self.sched.run_out = 0;
            self.wakeup_all(RUNOUT_CHAN);
        }
    }

    /// Adds a child of the process in slot `parent` with pid `pid` (see
    /// `Process::new_from`) and returns its slot. Where memory for a copy of the
    /// parent's image was had, at `image`, the child's image is there (the caller copies
    /// the parent's). Otherwise the child shares the parent's image until the caller has
    /// written it to swap for the child (`swap_out_begin`, `send_to_swap`), and the
    /// parent is marked being created meanwhile (see `fork_swapped`).
    pub fn fork(&mut self, parent: usize, pid: u32, image: Option<usize>) -> (r: usize)
        requires
            parent < old(self)@.len(),
        ensures
            r == old(self)@.len(),
            ({
                let pp = old(self)@[parent as int];
                let child = Process {
                    uid: pp.uid, pid, ppid: pp.pid, addr: 0, size: pp.size,
                    stat: ProcessState::SRUN, flag: SLOAD, pri: 0, cpu: 0, nice: pp.nice,
                    time: 0, wchan: 0, pending_signal: None, tty: pp.tty,
                };
                match image {
                    Some(a) => final(self)@ == old(self)@.push(Process { addr: a, ..child }),
                    None => final(self)@ == old(self)@.update(parent as int, Process { stat: ProcessState::SIDL, ..pp })
                        .push(Process { addr: pp.addr, ..child }),
                }
            }),
            final(self).sched == old(self).sched,
            final(self).last_idx == old(self).last_idx && final(self).exe_cnt == old(self).exe_cnt,
    {
        let pp = self.procs[parent];
        let mut child = Process::new_from(pid, &pp);
        match image {
            Some(a) => {
                child.addr = a;
            },
            None => {
                self.procs.set(parent, Process { stat: ProcessState::SIDL, ..pp });
                child.addr = pp.addr;
            },
        }
        let r = self.procs.len();
        self.procs.push(child);
        r
    }

    /// The image shared with a child was written to swap: the parent in slot `parent`
    /// is runnable again.
    pub fn fork_swapped(&mut self, parent: usize)
        requires
            parent < old(self)@.len(),
        ensures
            final(self)@ == old(self)@.update(parent as int, Process { stat: ProcessState::SRUN, ..old(self)@[parent as int] }),
            final(self).sched == old(self).sched,
            final(self).last_idx == old(self).last_idx && final(self).exe_cnt == old(self).exe_cnt,
    {
        let p = self.procs[parent];
        self.procs.set(parent, Process { stat: ProcessState::SRUN, ..p });
    }

    /// Chooses the process to run: among the runnable, loaded, non-system processes
    /// with a priority below 256, the one with the lowest priority, ties going to the
    /// first met in the round that starts after the slot chosen last. Clears the
    /// reschedule requests; a choice counts a switch and sets the running priority.
    pub fn select(&mut self) -> (r: Option<usize>)
        requires
            old(self)@.len() > 0,
            old(self).last_idx < old(self)@.len(),
        ensures
            final(self)@ == old(self)@,
            final(self).sched.runrun == 0,
            match r {
                Some(b) => {
                    let n = old(self)@.len() as int;
                    let last = old(self).last_idx as int;
                    let pb = old(self)@[b as int];
                    &&& b < n && eligible(pb) && pb.pri < 256
                    &&& forall|j: int| 0 <= j < n && eligible(#[trigger] old(self)@[j]) ==> pb.pri <= old(self)@[j].pri
                    &&& forall|j: int| 0 <= j < n && eligible(#[trigger] old(self)@[j]) && old(self)@[j].pri == pb.pri ==> round_pos(b as int, last, n) <= round_pos(j, last, n)
                    &&& final(self).sched.cur_pri == pb.pri
                    &&& final(self).sched.switch_cnt == (if old(self).sched.switch_cnt == u32::MAX { 0 } else { (old(self).sched.switch_cnt + 1) as u32 })
                    &&& final(self).last_idx == b && final(self).exe_cnt == old(self).exe_cnt
                },
                None => forall|j: int| 0 <= j < old(self)@.len() ==> !(eligible(#[trigger] old(self)@[j]) && old(self)@[j].pri < 256)
                    && final(self).sched == (Scheduler { runrun: 0, ..old(self).sched }) && final(self).last_idx == old(self).last_idx && final(self).exe_cnt == old(self).exe_cnt,
            },
    {
        let n = self.procs.len();
        let last = self.last_idx;
        let mut pri: i32 = 256;
        let mut best: Option<usize> = None;
        self.sched.runrun = 0;
        let mut k: usize = 0;
        while k < n
            invariant
                self@ == old(self)@,
                n == self@.len(),
                n > 0,
                last < n,
                last == old(self).last_idx,
                k <= n,
                self.sched == (Scheduler { runrun: 0, ..old(self).sched }),
                self.last_idx == old(self).last_idx && self.exe_cnt == old(self).exe_cnt,
                match best {
                    Some(b) => b < n && eligible(self@[b as int]) && self@[b as int].pri == pri && pri < 256
                        && round_pos(b as int, last as int, n as int) < k,
                    None => pri == 256,
                },
                forall|j: int| 0 <= j < n && eligible(#[trigger] self@[j]) && round_pos(j, last as int, n as int) < k ==> pri <= self@[j].pri,
                forall|j: int| 0 <= j < n && eligible(#[trigger] self@[j]) && round_pos(j, last as int, n as int) < k && self@[j].pri == pri && best is Some
                    ==> round_pos(best->0 as int, last as int, n as int) <= round_pos(j, last as int, n as int),
            decreases n - k,
        {
            let off = last + 1;
            let idx = if k < n - off { off + k } else { k - (n - off) };
            proof {
                lemma_round_pos(idx as int, last as int, n as int, k as int);
            }
            let p = self.procs[idx];
            if p.stat == ProcessState::SRUN && p.flag & SLOAD != 0 && p.flag & SSYS == 0 && p.pri < pri {
                pri = p.pri;
                best = Some(idx);
            }
            proof {
                assert forall|j: int| 0 <= j < n && round_pos(j, last as int, n as int) < k + 1 implies
                    round_pos(j, last as int, n as int) < k || j == idx by {
                    if round_pos(j, last as int, n as int) >= k {
                        lemma_round_pos_unique(j, idx as int, last as int, n as int);
                    }
                }
            }
            k = k + 1;
        }
        proof {
            assert forall|j: int| 0 <= j < n implies round_pos(j, last as int, n as int) < n by {
                lemma_round_pos_range(j, last as int, n as int);
            }
        }
        match best {
            Some(b) => {
                self.sched.switch_cnt = self.sched.switch_cnt.wrapping_add(1);
                self.sched.cur_pri = pri;
                self.last_idx = b;
                Some(b)
            },
            None => None,
        }
    }
}

/// `kill(0, ..)` may signal `p`: not process 0, on the caller's terminal, and the
/// caller's or the caller is the super-user.
pub open spec fn may_signal_pgroup(p: Process, cur_uid: u16, cur_tty: usize) -> bool {
    p.pid != 0 && p.tty == cur_tty && (cur_uid == 0 || p.uid == cur_uid)
}

proof fn lemma_count_where_le(ps: Seq<Process>, f: spec_fn(Process) -> bool)
    ensures
        count_where(ps, f) <= ps.len(),
        forall|i: int| 0 <= i <= ps.len() ==> count_where(#[trigger] ps.take(i), f) <= i,
    decreases ps.len(),
{
    if ps.len() > 0 {
        lemma_count_where_le(ps.drop_last(), f);
    }
    assert forall|i: int| 0 <= i <= ps.len() implies count_where(#[trigger] ps.take(i), f) <= i by {
        lemma_count_take_le(ps, f, i);
    }
}

proof fn lemma_count_take_le(ps: Seq<Process>, f: spec_fn(Process) -> bool, i: int)
    requires
        0 <= i <= ps.len(),
    ensures
        count_where(ps.take(i), f) <= i,
    decreases i,
{
    if i > 0 {
        assert(ps.take(i).drop_last() =~= ps.take(i - 1));
        lemma_count_take_le(ps, f, i - 1);
    }
}

proof fn lemma_none_sleeping_after_wake(ps: Seq<Process>, chan: usize, f: spec_fn(Process) -> bool)
    requires
        forall|p: Process| #[trigger] f(p) ==> sleeping_on(p, chan),
    ensures
        count_where(wake_all_spec(ps, chan), f) == 0,
    decreases ps.len(),
{
    if ps.len() > 0 {
        lemma_none_sleeping_after_wake(ps.drop_last(), chan, f);
        assert(wake_all_spec(ps, chan).drop_last() =~= wake_all_spec(ps.drop_last(), chan));
    }
}

proof fn lemma_wake_all_idempotent(ps: Seq<Process>, chan: usize)
    ensures
        wake_all_spec(wake_all_spec(ps, chan), chan) == wake_all_spec(ps, chan),
{
    assert(wake_all_spec(wake_all_spec(ps, chan), chan) =~= wake_all_spec(ps, chan));
}

proof fn lemma_round_pos(idx: int, last: int, n: int, k: int)
    requires
        0 <= last < n,
        0 <= k < n,
        idx == (if k < n - (last + 1) { last + 1 + k } else { k - (n - (last + 1)) }),
    ensures
        0 <= idx < n,
        round_pos(idx, last, n) == k,
{
    vstd::arithmetic::div_mod::lemma_small_mod(k as nat, n as nat);
    if k >= n - (last + 1) {
        vstd::arithmetic::div_mod::lemma_mod_sub_multiples_vanish(k, n);
        assert(idx - (last + 1) == -n + k);
    }
}

proof fn lemma_round_pos_range(j: int, last: int, n: int)
    requires
        n > 0,
    ensures
        0 <= round_pos(j, last, n) < n,
{
    vstd::arithmetic::div_mod::lemma_mod_bound(j - (last + 1), n);
}

proof fn lemma_round_pos_unique(j: int, i: int, last: int, n: int)
    requires
        0 <= j < n,
        0 <= i < n,
        n > 0,
        round_pos(j, last, n) == round_pos(i, last, n),
    ensures
        j == i,
{
    assert(j == i) by (nonlinear_arith)
        requires 0 <= j < n, 0 <= i < n, n > 0, (j - (last + 1)) % n == (i - (last + 1)) % n;
}

} // verus!
