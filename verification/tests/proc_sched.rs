use v6pp_kernel::constants::{PosixError, Signal};
use v6pp_kernel::proc::context::TaskContext;
use v6pp_kernel::proc::manager::{ProcessManager, WaitStep, RUNOUT_CHAN};
use v6pp_kernel::proc::process::{Process, ProcessState, Scheduler, Text, SLOAD, SLOCK, SSWAP, SSYS};
use v6pp_kernel::dev::buffer::PhysicalBlock;
use v6pp_kernel::fs::file::OpenFiles;
use v6pp_kernel::fs::open_file_manager::OpenFileTable;
use v6pp_kernel::fs::inode::{Inode, InodeMode};

fn proc(pid: u32, ppid: u32, uid: u16) -> Process {
    Process {
        uid, pid, ppid, addr: 0, size: 0x1000, stat: ProcessState::SRUN, flag: SLOAD, pri: 100,
        cpu: 0, nice: 0, time: 0, wchan: 0, pending_signal: None, tty: 1,
    }
}

fn sched() -> Scheduler {
    Scheduler { cur_pri: 100, runrun: 0, run_in: 0, run_out: 0, switch_cnt: 0 }
}

#[test]
fn set_pri_uses_cpu_and_nice_up_to_255() {
    let mut s = sched();
    let mut p = proc(2, 1, 1);
    p.cpu = 160;
    p.nice = 5;
    p.set_pri(&mut s);
    assert_eq!(p.pri, 115);
    assert_eq!(s.runrun, 1);
    p.cpu = 10000;
    p.set_pri(&mut s);
    assert_eq!(p.pri, 255);
    p.cpu = 0;
    p.nice = -10;
    p.set_pri(&mut s);
    assert_eq!(p.pri, 90);
}

#[test]
fn set_nice_is_capped_and_only_root_goes_negative() {
    let mut p = proc(2, 1, 7);
    p.set_nice(40);
    assert_eq!(p.nice, 20);
    p.set_nice(-5);
    assert_eq!(p.nice, 0);
    let mut r = proc(3, 1, 0);
    r.set_nice(-5);
    assert_eq!(r.nice, -5);
}

#[test]
fn raise_wakes_a_waiting_process() {
    let mut s = sched();
    let mut p = proc(2, 1, 1);
    p.stat = ProcessState::SWAIT;
    p.wchan = 77;
    p.pri = 120;
    assert!(!p.raise(&mut s, Signal::SIGINT));
    assert_eq!(p.pending_signal, Some(Signal::SIGINT));
    assert_eq!(p.pri, 100);
    assert_eq!(p.stat, ProcessState::SRUN);
    assert_eq!(p.wchan, 0);
    let mut q = proc(3, 1, 1);
    q.raise(&mut s, Signal::SIGKILL);
    assert_eq!(q.pending_signal, None);
}

#[test]
fn sleep_user_is_interrupted_by_a_handled_signal() {
    let mut s = sched();
    s.run_in = 1;
    let mut p = proc(2, 1, 1);
    let out = p.sleep_user(&mut s, 55, 40, 0);
    assert!(!out.interrupted);
    assert!(out.wake_runin);
    assert_eq!(s.run_in, 0);
    assert_eq!((p.stat, p.wchan, p.pri), (ProcessState::SWAIT, 55, 40));
    assert!(p.is_sleeping_on(55));
    let mut q = proc(3, 1, 1);
    q.pending_signal = Some(Signal::SIGINT);
    assert!(q.should_process(0));
    assert!(q.sleep_user(&mut s, 55, 40, 0).interrupted);
    q.pending_signal = Some(Signal::SIGUSR1);
    assert!(!q.should_process(0));
    assert!(q.should_process(0x4000));
}

#[test]
fn send_signal_installs_the_handler() {
    let mut handlers = vec![0usize; 32];
    let mut p = proc(2, 1, 1);
    p.pending_signal = Some(Signal::SIGUSR1);
    assert_eq!(p.send_signal(&mut handlers, 10, 0x1234), Ok(0));
    assert_eq!(handlers[10], 0x1234);
    assert_eq!(p.pending_signal, None);
    assert_eq!(p.send_signal(&mut handlers, 10, 0x5678), Ok(0x1234));
    assert_eq!(p.send_signal(&mut handlers, 0, 1), Err(PosixError::EINVAL));
    assert_eq!(p.send_signal(&mut handlers, 32, 1), Err(PosixError::EINVAL));
    p.pending_signal = Some(Signal::SIGUSR1);
    assert_eq!(p.process_signal(&handlers), Some(0x5678));
    assert_eq!(p.pending_signal, None);
}

#[test]
fn wakeup_all_wakes_the_sleepers_on_a_channel() {
    let mut pm = ProcessManager::new();
    let mut a = proc(2, 1, 1);
    a.stat = ProcessState::SWAIT;
    a.wchan = 9;
    a.pri = 90;
    let mut b = proc(3, 1, 1);
    b.stat = ProcessState::SSLEEP;
    b.wchan = 8;
    pm.add(a);
    pm.add(b);
    pm.sched.cur_pri = 100;
    pm.wakeup_all(9);
    assert_eq!(pm.process(0).stat, ProcessState::SRUN);
    assert_eq!(pm.process(1).stat, ProcessState::SSLEEP);
    assert_eq!(pm.sched.runrun, 1);
}

#[test]
fn waking_a_swapped_out_process_wakes_the_swapper() {
    let mut pm = ProcessManager::new();
    let mut a = proc(2, 1, 1);
    a.stat = ProcessState::SWAIT;
    a.wchan = 9;
    a.flag = 0;
    let mut swapper = proc(0, 0, 0);
    swapper.stat = ProcessState::SSLEEP;
    swapper.wchan = RUNOUT_CHAN;
    pm.add(a);
    pm.add(swapper);
    pm.sched.run_out = 1;
    pm.wakeup_all(9);
    assert_eq!(pm.process(0).stat, ProcessState::SRUN);
    assert_eq!(pm.process(1).stat, ProcessState::SRUN);
    assert_eq!(pm.sched.run_out, 0);
}

#[test]
fn select_picks_the_best_priority_round_robin() {
    let mut pm = ProcessManager::new();
    let mut zero = proc(0, 0, 0);
    zero.flag = SLOAD | SSYS;
    pm.add(zero);
    let mut a = proc(2, 1, 1);
    a.pri = 90;
    let mut b = proc(3, 1, 1);
    b.pri = 90;
    let mut c = proc(4, 1, 1);
    c.pri = 95;
    pm.add(a);
    pm.add(b);
    pm.add(c);
    pm.sched.runrun = 3;
    assert_eq!(pm.select(), Some(1));
    assert_eq!(pm.sched.runrun, 0);
    assert_eq!(pm.sched.cur_pri, 90);
    assert_eq!(pm.sched.switch_cnt, 1);
    assert_eq!(pm.select(), Some(2));
    assert_eq!(pm.select(), Some(1));
}

#[test]
fn select_finds_nothing_when_nobody_can_run() {
    let mut pm = ProcessManager::new();
    let mut a = proc(2, 1, 1);
    a.stat = ProcessState::SSLEEP;
    pm.add(a);
    let mut b = proc(3, 1, 1);
    b.flag = 0;
    pm.add(b);
    assert_eq!(pm.select(), None);
}

#[test]
fn recalc_pri_decays_cpu_and_counts_time() {
    let mut pm = ProcessManager::new();
    let mut a = proc(2, 1, 1);
    a.cpu = 50;
    a.pri = 110;
    a.time = 127;
    pm.add(a);
    pm.recalc_pri();
    let p = pm.process(0);
    assert_eq!(p.cpu, 30);
    assert_eq!(p.time, 127);
    assert_eq!(p.pri, 101);
}

#[test]
fn kill_checks_permission_and_existence() {
    let mut pm = ProcessManager::new();
    pm.add(proc(1, 0, 0));
    pm.add(proc(5, 1, 7));
    pm.add(proc(6, 1, 8));
    assert_eq!(pm.kill(5, 7, 1, 5, Signal::SIGTERM), Err(PosixError::EINVAL));
    assert_eq!(pm.kill(5, 7, 1, 9, Signal::SIGTERM), Err(PosixError::ESRCH));
    assert_eq!(pm.kill(5, 7, 1, 6, Signal::SIGTERM), Err(PosixError::EPERM));
    assert_eq!(pm.kill(5, 0, 1, 6, Signal::SIGTERM).map(|r| r.0), Ok(2));
    assert_eq!(pm.process(2).pending_signal, Some(Signal::SIGTERM));
    assert_eq!(pm.kill(6, 7, 1, 0, Signal::SIGHUP).map(|r| r.0), Ok(1));
    assert_eq!(pm.kill(6, 9, 1, 0, Signal::SIGHUP), Err(PosixError::ESRCH));
}

#[test]
fn wait_reaps_a_dead_child_or_sleeps_or_fails() {
    let mut pm = ProcessManager::new();
    pm.add(proc(1, 0, 0));
    pm.add(proc(5, 1, 0));
    assert_eq!(pm.wait(1), Ok(WaitStep::Sleep));
    let mut dead = pm.process(1);
    dead.stat = ProcessState::SZOMB;
    pm.set_process(1, dead);
    assert_eq!(pm.wait(1), Ok(WaitStep::Reaped(5)));
    assert_eq!(pm.process(1).stat, ProcessState::SNULL);
    assert_eq!(pm.wait(1), Err(PosixError::ECHILD));
}

#[test]
fn reparent_gives_children_to_init() {
    let mut pm = ProcessManager::new();
    pm.add(proc(1, 0, 0));
    pm.add(proc(5, 1, 0));
    let mut c = proc(6, 5, 0);
    c.stat = ProcessState::SSTOP;
    pm.add(c);
    pm.add(proc(7, 5, 0));
    pm.reparent(5);
    assert_eq!(pm.process(2).ppid, 1);
    assert_eq!(pm.process(2).stat, ProcessState::SRUN);
    assert_eq!(pm.process(3).ppid, 1);
    assert_eq!(pm.process(1).ppid, 1);
    assert_eq!(pm.wake_ppid(5), Some(1));
    assert_eq!(pm.find(7), Some(3));
}

#[test]
fn raise_signals_everyone_but_0_and_1() {
    let mut pm = ProcessManager::new();
    pm.add(proc(0, 0, 0));
    pm.add(proc(1, 0, 0));
    pm.add(proc(2, 1, 0));
    pm.raise(Signal::SIGINT);
    assert_eq!(pm.process(0).pending_signal, None);
    assert_eq!(pm.process(1).pending_signal, None);
    assert_eq!(pm.process(2).pending_signal, Some(Signal::SIGINT));
}

#[test]
fn text_refcounts_free_pages_then_swap() {
    let mut t = Text::new(PhysicalBlock(100), 0x3000, true);
    t.get();
    let put = t.put();
    assert!(!put.free_pages && !put.free_swap);
    let put = t.put();
    assert!(put.free_pages && put.free_swap);
}

#[test]
fn new_processes_inherit_from_the_parent() {
    let mut parent = proc(3, 1, 9);
    parent.nice = 4;
    let child = Process::new_from(8, &parent);
    assert_eq!((child.pid, child.ppid, child.uid, child.nice), (8, 3, 9, 4));
    assert_eq!(child.stat, ProcessState::SRUN);
    let mut c = child;
    c.swapped_out(77);
    assert_eq!(c.addr, 77);
    assert_eq!(c.flag & SLOAD, 0);
    let zero = Process::proc_zero(0, 0x3ff000);
    assert_eq!(zero.flag, SLOAD | SSYS);
}

#[test]
fn task_context_interrupt_bit_roundtrip() {
    let mut ctx = TaskContext::new();
    assert_eq!(ctx.sstatus, TaskContext::SSTATUS_SUM);
    assert!(!ctx.is_interrupt_enabled());
    ctx.set_interrupt_enabled(true);
    assert!(ctx.is_interrupt_enabled());
    assert_eq!(ctx.sstatus, TaskContext::SSTATUS_SUM | 2);
    ctx.set_interrupt_enabled(false);
    assert_eq!(ctx.sstatus, TaskContext::SSTATUS_SUM);
    ctx.set_program_counter(0x8020_0000);
    ctx.set_stack_pointer(0xffff_0000);
    assert_eq!((ctx.ra, ctx.sp), (0x8020_0000, 0xffff_0000));
}

#[test]
fn broadcast_signal_counts_reschedules_and_wakes_the_swapper() {
    let mut pm = ProcessManager::new();
    pm.sched.cur_pri = 100;
    pm.sched.run_out = 1;
    pm.add(proc(1, 0, 0));
    let mut a = proc(2, 1, 0);
    a.stat = ProcessState::SWAIT;
    a.pri = 90;
    pm.add(a);
    let mut b = proc(3, 1, 0);
    b.stat = ProcessState::SWAIT;
    b.pri = 120;
    b.flag = 0;
    pm.add(b);
    assert!(pm.raise(Signal::SIGINT));
    assert_eq!(pm.sched.runrun, 1);
    assert_eq!(pm.sched.run_out, 0);
    assert_eq!(pm.process(2).pri, 100);
    assert_eq!(pm.process(2).stat, ProcessState::SRUN);
    assert!(!pm.raise(Signal::SIGKILL));
    assert_eq!(pm.sched.runrun, 1);
}

#[test]
fn reparent_counts_reschedules_and_wakes_the_swapper() {
    let mut pm = ProcessManager::new();
    pm.sched.cur_pri = 100;
    pm.sched.run_out = 1;
    pm.add(proc(1, 0, 0));
    let mut c = proc(6, 5, 0);
    c.stat = ProcessState::SSTOP;
    c.pri = 50;
    c.flag = 0;
    pm.add(c);
    assert!(pm.reparent(5));
    assert_eq!(pm.sched.runrun, 1);
    assert_eq!(pm.sched.run_out, 0);
    assert!(!pm.reparent(5));
}

#[test]
fn kill_wakes_a_sleeping_target() {
    let mut pm = ProcessManager::new();
    pm.sched.cur_pri = 100;
    pm.add(proc(1, 0, 0));
    let mut t = proc(5, 1, 7);
    t.stat = ProcessState::SWAIT;
    t.pri = 80;
    pm.add(t);
    assert_eq!(pm.kill(9, 7, 1, 5, Signal::SIGTERM), Ok((1, false)));
    assert_eq!(pm.process(1).stat, ProcessState::SRUN);
    assert_eq!(pm.sched.runrun, 1);
}

#[test]
fn exec_admits_ten_programs_at_once() {
    let mut pm = ProcessManager::new();
    for _ in 0..10 {
        assert!(pm.exec_enter());
    }
    assert!(!pm.exec_enter());
    assert_eq!(pm.exe_cnt, 10);
    assert!(pm.exec_leave());
    assert!(!pm.exec_leave());
    assert_eq!(pm.exe_cnt, 8);
}

#[test]
fn send_to_swap_marks_the_process_and_wakes_the_swapper() {
    let mut pm = ProcessManager::new();
    pm.sched = sched();
    pm.add(proc(1, 0, 0));
    let mut sleeper = proc(2, 1, 1);
    sleeper.stat = ProcessState::SWAIT;
    sleeper.wchan = RUNOUT_CHAN;
    sleeper.pri = 50;
    pm.add(sleeper);
    pm.sched.run_out = 1;
    pm.swap_out_begin(0);
    assert_eq!(pm.process(0).flag, SLOAD | SLOCK);

    pm.send_to_swap(0, 77);
    let p = pm.process(0);
    assert_eq!(p.addr, 77);
    assert_eq!(p.flag, SSWAP);
    assert_eq!(p.time, 0);
    assert_eq!(pm.process(1).stat, ProcessState::SRUN);
    assert_eq!(pm.process(1).wchan, 0);
    assert_eq!(pm.sched.run_out, 0);
    assert_eq!(pm.sched.runrun, 1);
}

#[test]
fn send_to_swap_without_a_waiting_swapper_wakes_nobody() {
    let mut pm = ProcessManager::new();
    pm.sched = sched();
    let mut sleeper = proc(2, 1, 1);
    sleeper.stat = ProcessState::SWAIT;
    sleeper.wchan = RUNOUT_CHAN;
    pm.add(proc(1, 0, 0));
    pm.add(sleeper);
    pm.send_to_swap(0, 9);
    assert_eq!(pm.process(0).addr, 9);
    assert_eq!(pm.process(1).stat, ProcessState::SWAIT);
    assert_eq!(pm.sched.runrun, 0);
}

#[test]
fn fork_copies_into_new_memory_or_shares_the_parent_image() {
    let mut pm = ProcessManager::new();
    let mut parent = proc(1, 0, 3);
    parent.addr = 0x9000;
    parent.size = 0x2000;
    parent.nice = 3;
    parent.tty = 7;
    pm.add(parent);
    let c = pm.fork(0, 5, Some(0xA000));
    assert_eq!(c, 1);
    let child = pm.process(1);
    assert_eq!((child.pid, child.ppid, child.uid, child.addr, child.size), (5, 1, 3, 0xA000, 0x2000));
    assert_eq!((child.nice, child.tty, child.flag, child.stat), (3, 7, SLOAD, ProcessState::SRUN));
    assert_eq!(pm.process(0).stat, ProcessState::SRUN);
    let d = pm.fork(0, 6, None);
    assert_eq!(d, 2);
    assert_eq!(pm.process(2).addr, 0x9000);
    assert_eq!(pm.process(0).stat, ProcessState::SIDL);
    pm.fork_swapped(0);
    assert_eq!(pm.process(0).stat, ProcessState::SRUN);
}

#[test]
fn exit_closes_descriptors_and_leaves_a_zombie_for_the_parent() {
    let mut pm = ProcessManager::new();
    pm.add(proc(1, 0, 0));
    pm.add(proc(2, 1, 1));
    let mut of = OpenFiles::new();
    let mut table = OpenFileTable::new();
    table.f_alloc(&mut of).unwrap();
    table.f_alloc(&mut of).unwrap();
    let mut handlers = vec![0usize; 32];
    handlers[2] = 0x4000;
    let mut cwd = Some(3usize);
    assert_eq!(pm.exit(1, &mut of, &mut handlers, &mut cwd), Some(0));
    assert!(handlers.iter().all(|&h| h == 0));
    assert_eq!(handlers.len(), 32);
    assert_eq!(cwd, None);
    assert_eq!(pm.process(1).stat, ProcessState::SZOMB);
    assert_eq!(pm.process(0).stat, ProcessState::SRUN);
    assert_eq!(of.get_f(0), Err(PosixError::EBADF));
    assert_eq!(of.get_f(1), Err(PosixError::EBADF));
}

#[test]
fn exit_without_a_parent_in_the_table_finds_none() {
    let mut pm = ProcessManager::new();
    pm.add(proc(2, 9, 1));
    let mut of = OpenFiles::new();
    let mut handlers = vec![0usize; 32];
    let mut cwd = None;
    assert_eq!(pm.exit(0, &mut of, &mut handlers, &mut cwd), None);
    assert_eq!(pm.process(0).stat, ProcessState::SZOMB);
}

#[test]
fn exec_admit_refuses_what_cannot_be_run() {
    let mut pm = ProcessManager::new();
    assert!(pm.exec_enter());
    let mut prog = Inode::new();
    prog.i_mode = InodeMode::IALLOC | 0o755;
    prog.i_uid = 1;
    assert_eq!(pm.exec_admit(&prog, 2, 2), Ok(()));
    assert_eq!(pm.exe_cnt, 1);
    let mut dir = prog;
    dir.i_mode = InodeMode::IALLOC | InodeMode::IFDIR | 0o755;
    assert_eq!(pm.exec_admit(&dir, 2, 2), Err((PosixError::ENOEXEC, false)));
    assert_eq!(pm.exe_cnt, 0);
    assert!(pm.exec_enter());
    let mut private = prog;
    private.i_mode = InodeMode::IALLOC | 0o700;
    assert_eq!(pm.exec_admit(&private, 2, 2), Err((PosixError::ENOEXEC, false)));
    assert_eq!(pm.exe_cnt, 0);
}

#[test]
fn exec_loaded_gives_up_a_bad_or_oversized_program() {
    let mut pm = ProcessManager::new();
    for _ in 0..10 {
        assert!(pm.exec_enter());
    }
    assert_eq!(pm.exec_loaded(true, false), Ok(()));
    assert_eq!(pm.exe_cnt, 10);
    assert_eq!(pm.exec_loaded(false, false), Err((PosixError::ENOEXEC, true)));
    assert_eq!(pm.exe_cnt, 9);
    assert_eq!(pm.exec_loaded(true, true), Err((PosixError::ENOMEM, false)));
    assert_eq!(pm.exe_cnt, 8);
}
