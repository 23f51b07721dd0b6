use v6pp_kernel::mm::allocator::order_for_size;
use v6pp_kernel::proc::exec::{exec_stack, WORD};
use v6pp_kernel::proc::process::{ExpandStep, Process, ProcessState, SbrkStep, SstackStep, SLOAD};

fn proc_of_size(size: u32) -> Process {
    Process {
        uid: 1, pid: 2, ppid: 1, addr: 0x9000, size, stat: ProcessState::SRUN, flag: SLOAD, pri: 100,
        cpu: 0, nice: 0, time: 0, wchan: 0, pending_signal: None, tty: 1,
    }
}

#[test]
fn exec_stack_lays_out_two_arguments() {
    let args = vec![b"ls\0".to_vec(), b"-l\0".to_vec()];
    let st = exec_stack(0x10000, &args);
    assert_eq!(st.argc, 2);
    assert_eq!(st.arg_addrs, vec![0xFFE0, 0xFFF0]);
    assert_eq!(st.argv, 0xFFC0);
    assert_eq!(st.sp, 0xFFA0);
    assert_eq!(st.words, vec![2, 0xFFC0, 0, 0, 0xFFE0, 0xFFF0, 0, 0]);
    assert_eq!(st.sp + WORD * st.words.len(), 0xFFE0);
}

#[test]
fn exec_stack_without_arguments_holds_only_the_null_argv() {
    let args: Vec<Vec<u8>> = Vec::new();
    let st = exec_stack(0x10000, &args);
    assert_eq!(st.argc, 0);
    assert!(st.arg_addrs.is_empty());
    assert_eq!(st.argv, 0xFFE0);
    assert_eq!(st.sp, 0xFFC0);
    assert_eq!(st.words, vec![0, 0xFFE0, 0, 0, 0, 0, 0, 0]);
}

#[test]
fn exec_stack_aligns_each_string_to_16_bytes() {
    let args = vec![b"0123456789abcdefg\0".to_vec()];
    let st = exec_stack(0x2008, &args);
    // 0x2008 - 18 = 0x1FF6, rounded down to 0x1FF0.
    assert_eq!(st.arg_addrs, vec![0x1FF0]);
    // One argument and the null: two padding words make four.
    assert_eq!(st.argv, 0x1FF0 - 4 * WORD);
    assert_eq!(st.words, vec![1, 0x1FD0, 0, 0, 0x1FF0, 0, 0, 0]);
}

#[test]
fn sbrk_zero_returns_the_current_break() {
    assert_eq!(Process::sbrk(0x1000, 0x2000, 0x1000, 0), SbrkStep::Current(0x3000));
}

#[test]
fn sbrk_to_the_same_length_changes_nothing() {
    assert_eq!(Process::sbrk(0x1000, 0x2000, 0x1000, 0x3000), SbrkStep::Unchanged(0x3000));
}

#[test]
fn sbrk_growing_moves_the_stack_up_after_the_image_grew() {
    assert_eq!(
        Process::sbrk(0x1000, 0x2000, 0x1000, 0x5000),
        SbrkStep::Resize { data_len: 0x4000, len: 0x6000, grow: true, move_from: 0x3000, move_to: 0x5000 }
    );
}

#[test]
fn sbrk_shrinking_moves_the_stack_down_first() {
    assert_eq!(
        Process::sbrk(0x1000, 0x2000, 0x1000, 0x2000),
        SbrkStep::Resize { data_len: 0x1000, len: 0x3000, grow: false, move_from: 0x3000, move_to: 0x2000 }
    );
}

#[test]
fn sstack_grows_the_stack_by_a_page() {
    assert_eq!(
        Process::sstack(0x2000, 0x1000),
        SstackStep { stack_len: 0x2000, len: 0x5000, move_from: 0x3000, move_to: 0x4000, move_len: 0x1000 }
    );
}

#[test]
fn expand_records_the_size_and_asks_for_a_power_of_two() {
    let mut p = proc_of_size(0x3000);
    assert_eq!(p.expand(0x5000), ExpandStep { order: 3, old_len: 0x3000, copy_len: 0x3000 });
    assert_eq!(p.size, 0x5000);
    assert_eq!(p.expand(0x1000), ExpandStep { order: 0, old_len: 0x5000, copy_len: 0x1000 });
    assert_eq!(p.size, 0x1000);
    assert_eq!(p.addr, 0x9000);
}

#[test]
fn order_for_size_covers_large_sizes() {
    assert_eq!(order_for_size(1usize << 40), 28);
    assert_eq!(order_for_size((1usize << 40) + 1), 29);
}

#[test]
fn sbrk_back_to_the_old_break_undoes_the_move() {
    let grow = Process::sbrk(0x1000, 0x2000, 0x1000, 0x5000);
    assert_eq!(grow, SbrkStep::Resize { data_len: 0x4000, len: 0x6000, grow: true, move_from: 0x3000, move_to: 0x5000 });
    let back = Process::sbrk(0x1000, 0x4000, 0x1000, 0x3000);
    assert_eq!(back, SbrkStep::Resize { data_len: 0x2000, len: 0x4000, grow: false, move_from: 0x5000, move_to: 0x3000 });
}
