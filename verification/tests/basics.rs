use v6pp_kernel::proc::Channel;
use v6pp_kernel::constants::{PosixError, Signal};
use v6pp_kernel::dev::block_device::{block_device_for_major, BlockDev};
use v6pp_kernel::interrupt::time::{Clock, INTERRUPTS_PER_SECOND};
use v6pp_kernel::kernel::utility::{days_in_year, is_leap};
use v6pp_kernel::proc::manager::{ProcessManager, RUNOUT_CHAN};
use v6pp_kernel::proc::process::{Process, ProcessState, Scheduler, Text, SLOAD};
use v6pp_kernel::dev::buffer::PhysicalBlock;
use v6pp_kernel::tty::{Termios, Tty};

#[test]
fn error_codes_are_the_posix_numbers() {
    assert_eq!(PosixError::EPERM.code(), 1);
    assert_eq!(PosixError::ENOENT.code(), 2);
    assert_eq!(PosixError::EINVAL.code(), 22);
    assert_eq!(PosixError::ENOSYS.code(), 38);
    assert_eq!(PosixError::EOVERFLOW.code(), 75);
}

#[test]
fn signal_numbers_round_trip() {
    for n in 1..32u32 {
        let s = Signal::from_number(n).unwrap();
        assert_eq!(s.number(), n);
    }
    assert_eq!(Signal::from_number(0), Err(PosixError::EINVAL));
    assert_eq!(Signal::from_number(32), Err(PosixError::EINVAL));
    assert_eq!(Signal::SIGKILL.number(), 9);
}

#[test]
fn only_major_zero_is_a_block_device() {
    assert_eq!(block_device_for_major(0), Some(BlockDev::VirtIO));
    assert_eq!(block_device_for_major(1), None);
}

#[test]
fn leap_years_follow_the_gregorian_rule() {
    assert!(is_leap(2000));
    assert!(!is_leap(1900));
    assert!(is_leap(2024));
    assert!(!is_leap(2023));
    assert_eq!(days_in_year(2024), 366);
    assert_eq!(days_in_year(2023), 365);
}

#[test]
fn clock_ticks_into_seconds() {
    let mut c = Clock::new();
    c.set_time(41);
    c.ticks = INTERRUPTS_PER_SECOND - 2;
    assert!(!c.tick());
    assert_eq!(c.ticks, INTERRUPTS_PER_SECOND - 1);
    assert!(c.tick());
    assert_eq!((c.ticks, c.time), (0, 42));
    assert_eq!(c.get_time(), 42);
}

#[test]
fn standard_terminal_settings() {
    let t = Termios::new_standard();
    assert_eq!((t.veof(), t.veol(), t.veol2()), (0x04, 0, 0));
    assert_eq!((t.vintr(), t.vquit(), t.vsusp(), t.verase(), t.vkill()), (0x03, 0x1c, 0x1a, 0x7f, 0x15));
    assert!(t.echo() && t.echoe() && t.echoctl() && t.echoke() && t.echok());
    assert!(!t.echonl());
    assert!(t.isig() && t.icanon() && t.iexten() && t.icrnl());
    assert!(!t.igncr() && !t.inlcr() && !t.noflsh());
    assert!(t.onlcr());
}

#[test]
fn terminal_input_wakes_readers_at_end_of_line_and_flush_forgets_it() {
    let mut tty = Tty::new();
    tty.open();
    tty.input(b'a');
    assert!(!tty.take_wakeup());
    tty.input(b'\r');
    assert!(tty.take_wakeup());
    assert!(!tty.take_wakeup());
    assert_eq!(tty.take_output(), b"a\r\n".to_vec());
    let mut out = [0u8; 8];
    assert_eq!(tty.read_available(&mut out), Some(2));
    assert_eq!(&out[..2], b"a\n");
    tty.input(b'b');
    tty.flush();
    assert_eq!(tty.column(), 0);
    assert_eq!(tty.read_available(&mut out), None);
}

fn proc(pid: u32) -> Process {
    Process {
        uid: 0, pid, ppid: 1, addr: 0, size: 0x1000, stat: ProcessState::SRUN, flag: SLOAD, pri: 100,
        cpu: 0, nice: 0, time: 0, wchan: 0, pending_signal: None, tty: 1,
    }
}

#[test]
fn process_state_changes() {
    let mut s = Scheduler { cur_pri: 100, runrun: 0, run_in: 0, run_out: 1, switch_cnt: 0 };
    let mut p = proc(3);
    p.setuid(7);
    assert_eq!(p.uid, 7);
    p.sleep_kernel(0x40, -50);
    assert_eq!((p.stat, p.wchan, p.pri), (ProcessState::SSLEEP, 0x40, -50));
    p.flag = 0;
    assert!(p.set_run(&mut s));
    assert_eq!((p.stat, p.wchan), (ProcessState::SRUN, 0));
    assert_eq!((s.runrun, s.run_out), (1, 0));
}

#[test]
fn text_in_memory_uses() {
    let mut t = Text::new(PhysicalBlock(9), 0x2000, true);
    t.get();
    assert!(!t.put_mem());
    assert!(t.has_pages);
    assert!(t.put_mem());
    assert!(!t.has_pages);
}

#[test]
fn swapper_wakeups() {
    let mut pm = ProcessManager::new();
    pm.sched.cur_pri = 100;
    let mut swapper = proc(0);
    swapper.stat = ProcessState::SSLEEP;
    swapper.wchan = RUNOUT_CHAN;
    swapper.pri = -100;
    pm.add(swapper);
    pm.wakeup_runout();
    assert_eq!(pm.process(0).stat, ProcessState::SRUN);
    assert_eq!(pm.sched.runrun, 1);
    let mut w = proc(4);
    w.stat = ProcessState::SWAIT;
    w.wchan = 2;
    pm.add(w);
    pm.wakeup_runin();
    assert_eq!(pm.process(1).stat, ProcessState::SRUN);
}

#[test]
fn a_word_names_its_own_channel() {
    assert_eq!(0x1234usize.channel_addr(), 0x1234);
}
