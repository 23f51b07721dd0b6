use vstd::prelude::*;

use crate::interrupt::handler::{trap_action_of, trap_handler, valid_exception, valid_interrupt, TrapAction};

verus! {

/// The `sstatus` bit recording that the trap came from supervisor mode.
pub const SSTATUS_SPP: u64 = 0x100;
/// The `scause` bit marking an interrupt.
pub const SCAUSE_INTERRUPT: u64 = 0x8000_0000_0000_0000;

/// What the trap entry saved of the interrupted program.
#[derive(Debug, Clone, Copy)]
pub struct TrapContext {
    /// The general registers, by number (`x0` to `x31`).
    pub regs: [u64; 32],
    pub sstatus: u64,
    /// The interrupted program counter.
    pub sepc: u64,
    pub scause: u64,
    pub stval: u64,
    /// The kernel stack to run the trap on.
    pub kernel_sp: u64,
}

/// The trap was an interrupt.
pub open spec fn cause_is_interrupt(scause: u64) -> bool {
    scause & SCAUSE_INTERRUPT != 0
}

/// The interrupt or exception code of a trap.
pub open spec fn cause_code(scause: u64) -> u64 {
    scause & !SCAUSE_INTERRUPT
}

impl TrapContext {
    /// The trap came from user mode.
    pub fn is_user(&self) -> (r: bool)
        ensures
            r == (self.sstatus & SSTATUS_SPP == 0),
    {
        self.sstatus & SSTATUS_SPP == 0
    }

    /// Whether the trap was an interrupt, and its code.
    pub fn cause(&self) -> (r: (bool, u64))
        ensures
            r == (cause_is_interrupt(self.scause), cause_code(self.scause)),
    {
        (self.scause & SCAUSE_INTERRUPT != 0, self.scause & !SCAUSE_INTERRUPT)
    }

    /// Moves the saved program counter `n` bytes on, past the trapping instruction;
    /// nothing else changes.
    pub fn advance_sepc(&mut self, n: u64)
        requires
            old(self).sepc + n <= u64::MAX,
        ensures
            *final(self) == (TrapContext { sepc: (old(self).sepc + n) as u64, ..*old(self) }),
    {
        self.sepc = self.sepc + n;
    }
}

/// Takes the trap saved in `ctx`: decides it from its cause (see `trap_action_of`) and,
/// for a breakpoint, steps the saved program counter over the 2-byte instruction so
/// that the program resumes after it; the rest of the context is kept. The caller then
/// does what the returned action says.
pub fn handle_trap(ctx: &mut TrapContext) -> (r: TrapAction)
    requires
        cause_code(old(ctx).scause) <= usize::MAX,
        cause_is_interrupt(old(ctx).scause) ==> valid_interrupt(cause_code(old(ctx).scause) as usize),
        !cause_is_interrupt(old(ctx).scause) ==> valid_exception(cause_code(old(ctx).scause) as usize),
        trap_action_of(cause_is_interrupt(old(ctx).scause), cause_code(old(ctx).scause) as usize) == TrapAction::Breakpoint
            ==> old(ctx).sepc + 2 <= u64::MAX,
    ensures
        r == trap_action_of(cause_is_interrupt(old(ctx).scause), cause_code(old(ctx).scause) as usize),
        r == TrapAction::Breakpoint ==> *final(ctx) == (TrapContext { sepc: (old(ctx).sepc + 2) as u64, ..*old(ctx) }),
        r != TrapAction::Breakpoint ==> *final(ctx) == *old(ctx),
{
    let (interrupt, code) = ctx.cause();
    let action = trap_handler(interrupt, code as usize);
    if action == TrapAction::Breakpoint {
        ctx.advance_sepc(2);
    }
    action
}

} // verus!
