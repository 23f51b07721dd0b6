use vstd::prelude::*;

verus! {

/// The registers a task switch saves: the callee-saved registers, the stack pointer,
/// the return address and the supervisor status.
#[derive(Debug, Clone, Copy)]
pub struct TaskContext {
    pub s: [usize; 12],
    pub sp: usize,
    pub ra: usize,
    pub sstatus: usize,
}

/// The supervisor-interrupt-enable bit of `sstatus`.
pub const SSTATUS_SIE: usize = 0x2;

impl TaskContext {
    /// The bit of `sstatus` that lets the kernel reach user memory.
    pub const SSTATUS_SUM: usize = 0x40000;

    /// A fresh context: all registers 0, user memory reachable, interrupts off.
    pub fn new() -> (r: Self)
        ensures
            r.s@ == Seq::new(12, |i: int| 0usize),
            r.sp == 0 && r.ra == 0 && r.sstatus == Self::SSTATUS_SUM,
    {
        let r = TaskContext { s: [0usize; 12], sp: 0, ra: 0, sstatus: Self::SSTATUS_SUM };
        assert(r.s@ =~= Seq::new(12, |i: int| 0usize));
        r
    }

    /// The task resumes at `pc`.
    pub fn set_program_counter(&mut self, pc: usize)
        ensures
            *final(self) == (TaskContext { ra: pc, ..*old(self) }),
    {
        self.ra = pc;
    }

    /// The task resumes with stack pointer `sp`.
    pub fn set_stack_pointer(&mut self, sp: usize)
        ensures
            *final(self) == (TaskContext { sp, ..*old(self) }),
    {
        self.sp = sp;
    }

    /// Interrupts are enabled when the task resumes.
    pub fn is_interrupt_enabled(&self) -> (r: bool)
        ensures
            r == (self.sstatus & SSTATUS_SIE != 0),
    {
        self.sstatus & SSTATUS_SIE != 0
    }

    /// Enables or disables interrupts for when the task resumes; the other status bits
    /// are kept.
    pub fn set_interrupt_enabled(&mut self, enabled: bool)
        ensures
            final(self).sstatus == (if enabled { old(self).sstatus | SSTATUS_SIE } else { old(self).sstatus & !SSTATUS_SIE }),
            final(self).s == old(self).s && final(self).sp == old(self).sp && final(self).ra == old(self).ra,
    {
        if enabled {
            self.sstatus = self.sstatus | SSTATUS_SIE;
        } else {
            self.sstatus = self.sstatus & !SSTATUS_SIE;
        }
    }
}

/// Setting the interrupt bit and reading it back agree, and the other bits stay.
pub proof fn law_interrupt_enable_roundtrip(sstatus: usize, enabled: bool)
    ensures
        ((if enabled { sstatus | SSTATUS_SIE } else { sstatus & !SSTATUS_SIE }) & SSTATUS_SIE != 0) == enabled,
        (if enabled { sstatus | SSTATUS_SIE } else { sstatus & !SSTATUS_SIE }) & !SSTATUS_SIE == sstatus & !SSTATUS_SIE,
{
    assert(((sstatus | 2usize) & 2usize != 0) && ((sstatus & !2usize) & 2usize == 0)
        && (sstatus | 2usize) & !2usize == sstatus & !2usize
        && (sstatus & !2usize) & !2usize == sstatus & !2usize) by (bit_vector);
}

} // verus!
