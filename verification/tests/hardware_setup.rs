use v6pp_kernel::constants::Signal;
use v6pp_kernel::interrupt::plic::{
    claim_interrupt, complete_interrupt, enable_address, enable_interrupt, init, priority_address, set_priority,
    set_threshold, PlicWrite,
};
use v6pp_kernel::interrupt::time::{init_timer, set_next_timer, sleep_user_until, Clock, SleepUntilStep, TICKS_PER_INTERRUPT};
use v6pp_kernel::kernel::utility::NativeWord;
use v6pp_kernel::machine::page_table::{
    init_page_directory, init_user_page_table, switch_user_struct, PageDirectory, PageTable, KERNEL_UAREA_PTE_INDEX,
};
use v6pp_kernel::proc::process::{Process, ProcessState, Scheduler};

#[test]
fn plic_registers_are_where_the_controller_has_them() {
    assert_eq!(priority_address(10), 0xcc00_0028);
    assert_eq!(enable_address(10), 0xcc00_2080);
    assert_eq!(enable_address(33), 0xcc00_2084);
    assert_eq!(set_threshold(0), PlicWrite { addr: 0xcc20_1000, value: 0 });
    assert_eq!(set_priority(10, 1), PlicWrite { addr: 0xcc00_0028, value: 1 });
    assert_eq!(enable_interrupt(10, 0x1), PlicWrite { addr: 0xcc00_2080, value: 0x401 });
    assert_eq!(enable_interrupt(33, 0x0), PlicWrite { addr: 0xcc00_2084, value: 0x2 });
    assert_eq!(complete_interrupt(10), PlicWrite { addr: 0xcc20_1004, value: 10 });
    assert_eq!(claim_interrupt(0), None);
    assert_eq!(claim_interrupt(10), Some(10));
}

#[test]
fn plic_init_enables_the_uart() {
    assert_eq!(
        init(0x8),
        vec![
            PlicWrite { addr: 0xcc20_1000, value: 0 },
            PlicWrite { addr: 0xcc00_0028, value: 1 },
            PlicWrite { addr: 0xcc00_2080, value: 0x408 },
        ]
    );
}

#[test]
fn timer_deadline_is_one_interrupt_later() {
    assert_eq!(init_timer(1000), 1000 + TICKS_PER_INTERRUPT as u64);
    assert_eq!(set_next_timer(u64::MAX), TICKS_PER_INTERRUPT as u64 - 1);
}

fn sched() -> Scheduler {
    Scheduler { cur_pri: 100, runrun: 0, run_in: 0, run_out: 0, switch_cnt: 0 }
}

#[test]
fn sleeping_until_a_time() {
    let mut clock = Clock { ticks: 0, time: 10, timeout: 0 };
    let mut p = Process::proc_zero(3, 0);
    let mut s = sched();
    assert_eq!(sleep_user_until(&mut clock, &mut p, &mut s, 0x77, 10, 90, 0), SleepUntilStep::Done);
    assert_eq!(p.stat, ProcessState::SRUN);

    s.run_in = 1;
    assert_eq!(sleep_user_until(&mut clock, &mut p, &mut s, 0x77, 12, 90, 0), SleepUntilStep::Sleeping { wake_runin: true });
    assert_eq!(clock.timeout, 12);
    assert_eq!(p.stat, ProcessState::SWAIT);
    assert_eq!(p.wchan, 0x77);
    assert_eq!(p.pri, 90);
    assert_eq!(s.run_in, 0);

    // An earlier pending timeout is kept.
    let mut q = Process::proc_zero(4, 0);
    assert_eq!(sleep_user_until(&mut clock, &mut q, &mut s, 0x77, 20, 90, 0), SleepUntilStep::Sleeping { wake_runin: false });
    assert_eq!(clock.timeout, 12);

    let mut r = Process::proc_zero(5, 0);
    r.pending_signal = Some(Signal::SIGINT);
    assert_eq!(sleep_user_until(&mut clock, &mut r, &mut s, 0x77, 20, 90, 0), SleepUntilStep::Interrupted);
    assert_eq!(r.stat, ProcessState::SRUN);
}

#[test]
fn native_words() {
    assert_eq!(7u32.into_word(), 7);
    assert_eq!(0x1234usize.into_word(), 0x1234);
    assert_eq!(().into_word(), 0);
}

#[test]
fn kernel_address_space_is_built() {
    let mut root = PageDirectory::new();
    let mut low = PageDirectory::new();
    let mut kernel = PageDirectory::new();
    let mut leaf = PageTable::new();
    root.entries[7].0 = 0xdead;
    low.entries[5].0 = 0xbeef;
    init_page_directory(&mut root, &mut low, &mut kernel, &mut leaf, 0x8010_0000, 0x8010_1000, 0x8010_2000);
    assert_eq!(root.entries[0].0, (0x80100u64 << 10) | 1);
    assert_eq!(root.entries[2].0, (0x80101u64 << 10) | 1);
    assert_eq!(root.entries[3].0, (0x80101u64 << 10) | 1);
    assert_eq!(root.entries[7].0, 0);
    assert_eq!(low.entries[5].0, 0);
    assert_eq!(low.entries[96].0, (0xc000u64 << 10) | 0xe7);
    assert_eq!(low.entries[128].0, (0x10000u64 << 10) | 0xe7);
    assert_eq!(kernel.entries[1].0, (0x80102u64 << 10) | 1);
    assert_eq!(kernel.entries[0].0, (0x80000u64 << 10) | 0xef);
    assert_eq!(kernel.entries[31].0, ((0x8000_0000u64 + 31 * 0x20_0000) >> 12 << 10) | 0xef);
    assert_eq!(kernel.entries[32].0, 0);
    assert_eq!(leaf.entries[0].0, ((0x8020_0000u64 >> 12) << 10) | 0xcf);
}

#[test]
fn user_page_tables_are_hooked_under_the_low_directory() {
    let mut low = PageDirectory::new();
    low.entries[96].0 = 0x55;
    let mut tables = [PageTable::new(), PageTable::new(), PageTable::new(), PageTable::new()];
    tables[2].entries[3].0 = 0x99;
    init_user_page_table(&mut low, &mut tables, [0x8030_0000, 0x8030_1000, 0x8030_2000, 0x8030_3000]);
    assert_eq!(tables[2].entries[3].0, 0);
    assert_eq!(low.entries[0].0, (0x80300u64 << 10) | 1);
    assert_eq!(low.entries[3].0, (0x80303u64 << 10) | 1);
    assert_eq!(low.entries[96].0, 0x55);
}

#[test]
fn the_user_structure_is_mapped_at_the_last_kernel_page() {
    let mut leaf = PageTable::new();
    switch_user_struct(&mut leaf, 0x0040_3000);
    assert_eq!(leaf.entries[KERNEL_UAREA_PTE_INDEX].0, (0x80403u64 << 10) | 0xc7);
    assert_eq!(leaf.entries[0].0, 0);
}
