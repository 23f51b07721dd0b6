use vstd::prelude::*;

use crate::constants::platform::CPU_FREQ_HZ;
use crate::proc::process::{should_process_spec, Process, Scheduler, SleepOutcome};

verus! {

/// Clock interrupts per second.
pub const INTERRUPTS_PER_SECOND: usize = 60;
/// Timer ticks between clock interrupts.
pub const TICKS_PER_INTERRUPT: usize = 166666;

/// The kernel clock: clock interrupts since the last second, seconds since boot, and the
/// time at which sleepers are to be woken.
#[derive(Debug, Clone, Copy)]
pub struct Clock {
    pub ticks: usize,
    pub time: usize,
    pub timeout: usize,
}

/// What a clock interrupt leaves for the interrupted context to do.
#[derive(Debug, Clone, Copy, PartialEq, Eq, Structural)]
pub struct TimerAction {
    /// A second ended at the sleepers' timeout: wake them.
    pub wake_sleepers: bool,
    /// A second ended: recompute the priorities and wake the swapper if it waits.
    pub second: bool,
    /// The interrupted context is a user one: handle signals, set the priority and
    /// reschedule.
    pub user_work: bool,
}

/// CPU usage of the current process.
#[derive(Debug, Clone, Copy)]
pub struct CpuUsage {
    /// Clock interrupts spent in user mode.
    pub utime: u32,
    /// Clock interrupts spent in the kernel.
    pub stime: u32,
    /// Recent CPU usage, for the scheduler (at most 1024).
    pub cpu: i32,
}

impl Clock {
    /// A clock at 0.
    pub fn new() -> (r: Self)
        ensures
            r.ticks == 0 && r.time == 0 && r.timeout == 0,
    {
        Clock { ticks: 0, time: 0, timeout: 0 }
    }

    /// Seconds since boot.
    pub fn get_time(&self) -> (r: usize)
        ensures
            r == self.time,
    {
        self.time
    }

    /// Sets the time.
    pub fn set_time(&mut self, value: usize)
        ensures
            *final(self) == (Clock { time: value, ..*old(self) }),
    {
        self.time = value;
    }

    /// Asks to be woken at `wake` at the latest: `false` when that time has come.
    /// Otherwise the sleepers' timeout moves to `wake` unless a pending one comes
    /// earlier.
    pub fn set_timer(&mut self, wake: usize) -> (r: bool)
        ensures
            r == (old(self).time < wake),
            r && (old(self).timeout <= old(self).time || old(self).timeout > wake) ==> *final(self) == (Clock { timeout: wake, ..*old(self) }),
            !(r && (old(self).timeout <= old(self).time || old(self).timeout > wake)) ==> *final(self) == *old(self),
            final(self).time == old(self).time,
    {
        let now = self.time;
        if now >= wake {
            return false;
        }
        if self.timeout <= now || self.timeout > wake {
            self.timeout = wake;
        }
        true
    }

    /// Counts a clock interrupt; a second ends after `INTERRUPTS_PER_SECOND` of them,
    /// and the time (in seconds) then advances by one. Returns whether the second ended.
    pub fn tick(&mut self) -> (r: bool)
        requires
            old(self).ticks < INTERRUPTS_PER_SECOND,
            old(self).time < usize::MAX,
        ensures
            r == (old(self).ticks + 1 >= INTERRUPTS_PER_SECOND),
            !r ==> *final(self) == (Clock { ticks: (old(self).ticks + 1) as usize, ..*old(self) }),
            r ==> *final(self) == (Clock { ticks: 0, time: (old(self).time + 1) as usize, ..*old(self) }),
            final(self).ticks < INTERRUPTS_PER_SECOND,
    {
        let ticks = self.ticks + 1;
        if ticks < INTERRUPTS_PER_SECOND {
            self.ticks = ticks;
            return false;
        }
        self.ticks = 0;
        self.time = self.time + 1;
        true
    }
}

/// A clock interrupt (there are `INTERRUPTS_PER_SECOND` a second): charges the
/// interrupted process (user or kernel time, and recent CPU usage up to 1024), counts
/// the interrupt, and at the end of a second (every `INTERRUPTS_PER_SECOND`-th
/// interrupt, when the time in seconds advances) wakes the sleepers
/// whose timeout it is. A running process interrupted in the kernel stops there;
/// otherwise the second's work is done, and user contexts get their signals handled and
/// are rescheduled.
pub fn handle_timer_interrupt(clock: &mut Clock, usage: &mut CpuUsage, is_user: bool, running: bool) -> (r: TimerAction)
    requires
        old(clock).ticks < INTERRUPTS_PER_SECOND,
        old(clock).time < usize::MAX,
        is_user ==> old(usage).utime < u32::MAX,
        !is_user ==> old(usage).stime < u32::MAX,
    ensures
        final(usage).utime == (if is_user { old(usage).utime + 1 } else { old(usage).utime as int }),
        final(usage).stime == (if is_user { old(usage).stime as int } else { old(usage).stime + 1 }),
        final(usage).cpu == (if old(usage).cpu < 1024 { old(usage).cpu + 1 } else { 1024 }),
        ({
            let second = old(clock).ticks + 1 >= INTERRUPTS_PER_SECOND;
            &&& second ==> *final(clock) == (Clock { ticks: 0, time: (old(clock).time + 1) as usize, ..*old(clock) })
            &&& !second ==> *final(clock) == (Clock { ticks: (old(clock).ticks + 1) as usize, ..*old(clock) })
            &&& r.wake_sleepers == (second && final(clock).time == old(clock).timeout)
            &&& r.second == (second && !(running && !is_user))
            &&& r.user_work == (r.second && is_user)
        }),
{
    if is_user {
        usage.utime = usage.utime + 1;
    } else {
        usage.stime = usage.stime + 1;
    }
    usage.cpu = if usage.cpu < 1024 { usage.cpu + 1 } else { 1024 };
    if !clock.tick() {
        return TimerAction { wake_sleepers: false, second: false, user_work: false };
    }
    let wake_sleepers = clock.time == clock.timeout;
    if running && !is_user {
        return TimerAction { wake_sleepers, second: false, user_work: false };
    }
    TimerAction { wake_sleepers, second: true, user_work: is_user }
}

/// The clock frequency gives the ticks between clock interrupts.
pub proof fn lemma_ticks_per_interrupt()
    ensures
        TICKS_PER_INTERRUPT == CPU_FREQ_HZ / INTERRUPTS_PER_SECOND,
{
}

/// The timer deadline one clock interrupt after `now` (wrapping at 2^64).
pub open spec fn deadline_after(now: u64) -> u64 {
    if now + TICKS_PER_INTERRUPT <= u64::MAX {
        (now + TICKS_PER_INTERRUPT) as u64
    } else {
        (now + TICKS_PER_INTERRUPT - 0x1_0000_0000_0000_0000) as u64
    }
}

/// The deadline to program the timer with at time `now`: one clock interrupt later.
pub fn set_next_timer(now: u64) -> (r: u64)
    ensures
        r == deadline_after(now),
{
    now.wrapping_add(TICKS_PER_INTERRUPT as u64)
}

/// The first deadline of the timer, when it is started at time `now`.
pub fn init_timer(now: u64) -> (r: u64)
    ensures
        r == deadline_after(now),
{
    set_next_timer(now)
}

/// Where one round of sleeping until a time leaves the process.
#[derive(Debug, Clone, Copy, PartialEq, Eq, Structural)]
pub enum SleepUntilStep {
    /// The time has come.
    Done,
    /// A signal is to be handled (the process is not asleep).
    Interrupted,
    /// The process sleeps on the timeout channel; the caller switches away and, once
    /// woken, goes round again. `wake_runin`: wake the swapper too.
    Sleeping { wake_runin: bool },
}

/// One round of sleeping until time `wake`: when the time has come, `Done`; otherwise the
/// sleepers' timeout is set for `wake` (see `Clock::set_timer`) and the process goes to
/// sleep on `chan`, the timeout's channel, at priority `pri` (see `Process::sleep_user`;
/// `handler` is the handler of its pending signal).
pub fn sleep_user_until(clock: &mut Clock, p: &mut Process, sched: &mut Scheduler, chan: usize, wake: usize, pri: u32, handler: usize) -> (r: SleepUntilStep)
    ensures
        old(clock).time >= wake ==> r == SleepUntilStep::Done && *final(clock) == *old(clock)
            && *final(p) == *old(p) && *final(sched) == *old(sched),
        old(clock).time < wake ==> final(clock).time == old(clock).time
            && (old(clock).timeout <= old(clock).time || old(clock).timeout > wake ==> *final(clock) == (Clock { timeout: wake, ..*old(clock) }))
            && (!(old(clock).timeout <= old(clock).time || old(clock).timeout > wake) ==> *final(clock) == *old(clock)),
        old(clock).time < wake && should_process_spec(*old(p), handler) ==> r == SleepUntilStep::Interrupted
            && *final(p) == *old(p) && *final(sched) == *old(sched),
        old(clock).time < wake && !should_process_spec(*old(p), handler) ==> r == (SleepUntilStep::Sleeping { wake_runin: old(sched).run_in != 0 })
            && *final(p) == (Process { wchan: chan, stat: crate::proc::process::ProcessState::SWAIT, pri: pri as i32, ..*old(p) })
            && *final(sched) == (Scheduler { run_in: 0, ..*old(sched) }),
{
    if !clock.set_timer(wake) {
        return SleepUntilStep::Done;
    }
    let outcome: SleepOutcome = p.sleep_user(sched, chan, pri, handler);
    if outcome.interrupted {
        SleepUntilStep::Interrupted
    } else {
        SleepUntilStep::Sleeping { wake_runin: outcome.wake_runin }
    }
}

} // verus!
