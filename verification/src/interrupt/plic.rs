use vstd::prelude::*;

use crate::constants::platform::{PLIC_BASE, UART0_IRQ};

verus! {

/// Offset of the enable bits of the first context.
pub const ENABLE_OFFSET: usize = 0x2000;
/// Offset of the priority threshold of the first context.
pub const THRESHOLD_OFFSET: usize = 0x200000;
/// Offset of the claim/complete register of the first context.
pub const CLAIM_COMPLETE_OFFSET: usize = 0x200004;
/// Bytes between the enable bits of two contexts.
pub const ENABLE_STRIDE: usize = 0x80;
/// Bytes between the threshold registers of two contexts.
pub const CONTEXT_STRIDE: usize = 0x1000;
/// The supervisor context of the boot hart.
pub const SUPERVISOR_CONTEXT: usize = 1;

/// A 32-bit store to the interrupt controller: the register's address and the value.
#[derive(Debug, Clone, Copy, PartialEq, Eq, Structural)]
pub struct PlicWrite {
    pub addr: usize,
    pub value: u32,
}

/// Address of the priority register of `interrupt`.
pub open spec fn priority_addr(interrupt: int) -> int {
    PLIC_BASE + interrupt * 4
}

/// Address of the enable word that holds the bit of `interrupt`.
pub open spec fn enable_addr(interrupt: int) -> int {
    PLIC_BASE + ENABLE_OFFSET + SUPERVISOR_CONTEXT * ENABLE_STRIDE + (interrupt / 32) * 4
}

/// Address of the supervisor context's priority threshold.
pub open spec fn threshold_addr() -> int {
    PLIC_BASE + THRESHOLD_OFFSET + SUPERVISOR_CONTEXT * CONTEXT_STRIDE
}

/// Address of the supervisor context's claim/complete register.
pub open spec fn claim_complete_addr() -> int {
    PLIC_BASE + CLAIM_COMPLETE_OFFSET + SUPERVISOR_CONTEXT * CONTEXT_STRIDE
}

/// Address of the priority register of `interrupt`.
pub fn priority_address(interrupt: usize) -> (r: usize)
    requires
        priority_addr(interrupt as int) <= usize::MAX,
    ensures
        r == priority_addr(interrupt as int),
{
    PLIC_BASE + interrupt * 4
}

/// Address of the enable word that holds the bit of `interrupt`.
pub fn enable_address(interrupt: usize) -> (r: usize)
    requires
        enable_addr(interrupt as int) <= usize::MAX,
    ensures
        r == enable_addr(interrupt as int),
{
    PLIC_BASE + ENABLE_OFFSET + SUPERVISOR_CONTEXT * ENABLE_STRIDE + (interrupt / 32) * 4
}

/// Address of the supervisor context's priority threshold.
pub fn threshold_address() -> (r: usize)
    ensures
        r == threshold_addr(),
{
    PLIC_BASE + THRESHOLD_OFFSET + SUPERVISOR_CONTEXT * CONTEXT_STRIDE
}

/// Address of the supervisor context's claim/complete register.
pub fn claim_complete_address() -> (r: usize)
    ensures
        r == claim_complete_addr(),
{
    PLIC_BASE + CLAIM_COMPLETE_OFFSET + SUPERVISOR_CONTEXT * CONTEXT_STRIDE
}

/// The store that sets the priority threshold to `threshold`.
pub fn set_threshold(threshold: u32) -> (r: PlicWrite)
    ensures
        r == (PlicWrite { addr: threshold_addr() as usize, value: threshold }),
{
    PlicWrite { addr: threshold_address(), value: threshold }
}

/// The store that gives `interrupt` the priority `priority`.
pub fn set_priority(interrupt: usize, priority: u32) -> (r: PlicWrite)
    requires
        priority_addr(interrupt as int) <= usize::MAX,
    ensures
        r == (PlicWrite { addr: priority_addr(interrupt as int) as usize, value: priority }),
{
    PlicWrite { addr: priority_address(interrupt), value: priority }
}

/// The store that enables `interrupt`, given the enable word `current` read from
/// `enable_address(interrupt)`: the word with the interrupt's bit set.
pub fn enable_interrupt(interrupt: usize, current: u32) -> (r: PlicWrite)
    requires
        enable_addr(interrupt as int) <= usize::MAX,
    ensures
        r.addr == enable_addr(interrupt as int),
        r.value == current | (1u32 << ((interrupt % 32) as u32)),
{
    let bit: u32 = 1u32 << ((interrupt % 32) as u32);
    PlicWrite { addr: enable_address(interrupt), value: current | bit }
}

/// The interrupt claimed by the value `raw` read from the claim register: none when 0.
pub fn claim_interrupt(raw: u32) -> (r: Option<usize>)
    ensures
        raw == 0 ==> r is None,
        raw != 0 ==> r == Some(raw as usize),
{
    if raw != 0 {
        Some(raw as usize)
    } else {
        None
    }
}

/// The store that completes `interrupt`.
pub fn complete_interrupt(interrupt: usize) -> (r: PlicWrite)
    ensures
        r == (PlicWrite { addr: claim_complete_addr() as usize, value: interrupt as u32 }),
{
    PlicWrite { addr: claim_complete_address(), value: interrupt as u32 }
}

/// The stores that set up the interrupt controller, in order: threshold 0, priority 1
/// for the UART, then the UART's enable bit set in `uart_enable_word`, the word read
/// from `enable_address(UART0_IRQ)`.
pub fn init(uart_enable_word: u32) -> (r: Vec<PlicWrite>)
    ensures
        r@ == seq![
            PlicWrite { addr: threshold_addr() as usize, value: 0u32 },
            PlicWrite { addr: priority_addr(UART0_IRQ as int) as usize, value: 1u32 },
            PlicWrite { addr: enable_addr(UART0_IRQ as int) as usize, value: uart_enable_word | (1u32 << ((UART0_IRQ % 32) as u32)) },
        ],
{
    let mut r: Vec<PlicWrite> = Vec::new();
    r.push(set_threshold(0));
    r.push(set_priority(UART0_IRQ, 1));
    r.push(enable_interrupt(UART0_IRQ, uart_enable_word));
    r
}

} // verus!
