use vstd::prelude::*;

use crate::constants::platform::UART0_IRQ;

verus! {

/// Supervisor interrupt causes.
pub struct InterruptCause;

impl InterruptCause {
    pub const SUPERVISOR_SOFT: usize = 1;
    pub const SUPERVISOR_TIMER: usize = 5;
    pub const SUPERVISOR_EXTERNAL: usize = 9;
}

/// Exception causes.
pub struct ExceptionCause;

impl ExceptionCause {
    pub const INSTRUCTION_MISALIGNED: usize = 0;
    pub const INSTRUCTION_FAULT: usize = 1;
    pub const ILLEGAL_INSTRUCTION: usize = 2;
    pub const BREAKPOINT: usize = 3;
    pub const LOAD_MISALIGNED: usize = 4;
    pub const LOAD_FAULT: usize = 5;
    pub const STORE_MISALIGNED: usize = 6;
    pub const STORE_FAULT: usize = 7;
    pub const USER_ENV_CALL: usize = 8;
    pub const SUPERVISOR_ENV_CALL: usize = 9;
    pub const INSTRUCTION_PAGE_FAULT: usize = 12;
    pub const LOAD_PAGE_FAULT: usize = 13;
    pub const STORE_PAGE_FAULT: usize = 15;
}

/// The interrupt codes a supervisor trap can report.
pub open spec fn valid_interrupt(code: usize) -> bool {
    code == 1 || code == 5 || code == 9
}

/// The exception codes a supervisor trap can report.
pub open spec fn valid_exception(code: usize) -> bool {
    code <= 9 || code == 12 || code == 13 || code == 15
}

/// The access that caused a page fault.
#[derive(Debug, Clone, Copy, PartialEq, Eq, Structural)]
pub enum PageFaultAccess {
    Execute,
    Read,
    Write,
}

impl PageFaultAccess {
    /// The kind of access, as the fault report names it.
    pub fn describe(self) -> (r: &'static str)
        ensures
            self == PageFaultAccess::Execute ==> r@ == "instruction"@,
            self == PageFaultAccess::Read ==> r@ == "load"@,
            self == PageFaultAccess::Write ==> r@ == "store"@,
    {
        match self {
            PageFaultAccess::Execute => "instruction",
            PageFaultAccess::Read => "load",
            PageFaultAccess::Write => "store",
        }
    }
}

/// What a trap asks of the kernel.
#[derive(Debug, Clone, Copy, PartialEq, Eq, Structural)]
pub enum TrapAction {
    /// Clock interrupt: run the clock, then reschedule on return to user mode.
    Timer,
    /// External interrupt: claim it from the interrupt controller.
    External,
    /// Another interrupt: ignored.
    IgnoredInterrupt,
    /// Breakpoint: report it and step over the 2-byte instruction.
    Breakpoint,
    /// System call from user mode: run it, then reschedule on return to user mode.
    Syscall,
    /// Page fault: report it and halt.
    PageFault(PageFaultAccess),
    /// Misaligned or faulting access: report it and halt.
    BadAccess,
    /// Illegal instruction, or any other exception: report it and halt.
    Fatal,
}

/// The page fault access of an exception code, if it is a page fault.
pub fn page_fault_access(code: usize) -> (r: Option<PageFaultAccess>)
    ensures
        r == (if code == 12 { Some(PageFaultAccess::Execute) } else if code == 13 { Some(PageFaultAccess::Read) } else if code == 15 { Some(PageFaultAccess::Write) } else { None::<PageFaultAccess> }),
{
    if code == ExceptionCause::INSTRUCTION_PAGE_FAULT {
        Some(PageFaultAccess::Execute)
    } else if code == ExceptionCause::LOAD_PAGE_FAULT {
        Some(PageFaultAccess::Read)
    } else if code == ExceptionCause::STORE_PAGE_FAULT {
        Some(PageFaultAccess::Write)
    } else {
        None
    }
}

/// What a trap of cause `code` (an interrupt when `interrupt`) asks of the kernel:
/// the clock and external interrupts are handled and other interrupts ignored; a
/// breakpoint is stepped over, a system call run, a page fault or a misaligned or
/// faulting access reported, and any other exception is fatal.
pub open spec fn trap_action_of(interrupt: bool, code: usize) -> TrapAction {
    if interrupt {
        if code == 5 { TrapAction::Timer } else if code == 9 { TrapAction::External } else { TrapAction::IgnoredInterrupt }
    } else if code == 3 { TrapAction::Breakpoint }
    else if code == 2 { TrapAction::Fatal }
    else if code == 8 { TrapAction::Syscall }
    else if code == 12 { TrapAction::PageFault(PageFaultAccess::Execute) }
    else if code == 13 { TrapAction::PageFault(PageFaultAccess::Read) }
    else if code == 15 { TrapAction::PageFault(PageFaultAccess::Write) }
    else if code == 0 || code == 4 || code == 6 || code == 1 || code == 5 || code == 7 { TrapAction::BadAccess }
    else { TrapAction::Fatal }
}

/// Decides what to do with a trap of cause `code` (an interrupt when `interrupt`).
pub fn trap_handler(interrupt: bool, code: usize) -> (r: TrapAction)
    requires
        interrupt ==> valid_interrupt(code),
        !interrupt ==> valid_exception(code),
    ensures
        r == trap_action_of(interrupt, code),
{
    if interrupt {
        if code == InterruptCause::SUPERVISOR_TIMER {
            TrapAction::Timer
        } else if code == InterruptCause::SUPERVISOR_EXTERNAL {
            TrapAction::External
        } else {
            TrapAction::IgnoredInterrupt
        }
    } else if code == ExceptionCause::BREAKPOINT {
        TrapAction::Breakpoint
    } else if code == ExceptionCause::ILLEGAL_INSTRUCTION {
        TrapAction::Fatal
    } else if code == ExceptionCause::USER_ENV_CALL {
        TrapAction::Syscall
    } else {
        match page_fault_access(code) {
            Some(a) => TrapAction::PageFault(a),
            None => if code == 0 || code == 4 || code == 6 || code == 1 || code == 5 || code == 7 {
                TrapAction::BadAccess
            } else {
                TrapAction::Fatal
            },
        }
    }
}

/// What an external interrupt claimed from the controller asks: `Some(true)` for the
/// serial line (drain its input into the terminal, then complete it), `Some(false)`
/// for another source (complete it), `None` for an empty claim.
pub fn external_irq(claim: Option<usize>) -> (r: Option<bool>)
    ensures
        r == (match claim { Some(irq) => Some(irq == UART0_IRQ), None => None::<bool> }),
{
    match claim {
        Some(irq) => Some(irq == UART0_IRQ),
        None => None,
    }
}


/// On return to user mode the process gives up the processor while a reschedule is
/// requested; kernel contexts are never preempted.
pub fn schedule_on_user_return(is_user: bool, runrun: u32) -> (r: bool)
    ensures
        r == (is_user && runrun > 0),
{
    is_user && runrun > 0
}

/// What a page fault of a user program at `fault_addr` does.
#[derive(Debug, Clone, Copy, PartialEq, Eq, Structural)]
pub enum PageFaultOutcome {
    /// The fault is below the user space end, in the stack's reach, and the stack has
    /// not overflowed: the stack grows.
    GrowStack,
    /// Anything else: the program gets `SIGSEGV`.
    Segfault,
}

/// Bytes of the user address space.
pub const USER_SPACE_SIZE: usize = 0x800000;
/// Lowest address the user stack may grow to.
pub const STACK_LIMIT: usize = 0x600000;

/// Decides a user page fault at `fault_addr` (`overflow`: the data and stack already
/// meet).
pub fn page_fault_outcome(fault_addr: usize, overflow: bool) -> (r: PageFaultOutcome)
    ensures
        r == (if fault_addr < USER_SPACE_SIZE && fault_addr >= STACK_LIMIT && !overflow { PageFaultOutcome::GrowStack } else { PageFaultOutcome::Segfault }),
{
    if fault_addr < USER_SPACE_SIZE && fault_addr >= STACK_LIMIT && !overflow {
        PageFaultOutcome::GrowStack
    } else {
        PageFaultOutcome::Segfault
    }
}

} // verus!
