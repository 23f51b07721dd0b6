use v6pp_kernel::interrupt::context::{handle_trap, TrapContext, SCAUSE_INTERRUPT, SSTATUS_SPP};
use v6pp_kernel::interrupt::handler::TrapAction;

fn context(scause: u64, sepc: u64) -> TrapContext {
    let mut regs = [0u64; 32];
    regs[2] = 0x7000;
    regs[10] = 42;
    TrapContext { regs, sstatus: 0, sepc, scause, stval: 0x55, kernel_sp: 0x9000 }
}

#[test]
fn breakpoint_steps_over_the_instruction() {
    let mut ctx = context(3, 0x1000);
    assert_eq!(handle_trap(&mut ctx), TrapAction::Breakpoint);
    assert_eq!(ctx.sepc, 0x1002);
    assert_eq!(ctx.regs[2], 0x7000);
    assert_eq!(ctx.regs[10], 42);
    assert_eq!((ctx.stval, ctx.kernel_sp, ctx.scause), (0x55, 0x9000, 3));
}

#[test]
fn other_traps_leave_the_context() {
    let mut ctx = context(8, 0x1000);
    assert_eq!(handle_trap(&mut ctx), TrapAction::Syscall);
    assert_eq!(ctx.sepc, 0x1000);
    let mut ctx = context(SCAUSE_INTERRUPT | 5, 0x2000);
    assert_eq!(handle_trap(&mut ctx), TrapAction::Timer);
    assert_eq!(ctx.sepc, 0x2000);
}

#[test]
fn trap_context_reports_its_cause_and_mode() {
    let ctx = context(SCAUSE_INTERRUPT | 9, 0);
    assert_eq!(ctx.cause(), (true, 9));
    assert!(ctx.is_user());
    let mut k = context(13, 0);
    k.sstatus = SSTATUS_SPP;
    assert_eq!(k.cause(), (false, 13));
    assert!(!k.is_user());
    k.advance_sepc(4);
    assert_eq!(k.sepc, 4);
}
