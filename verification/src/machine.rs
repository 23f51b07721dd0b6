pub mod page_table;

use vstd::prelude::*;

verus! {

/// A date and time read from the real-time clock (years counted from 2000).
#[derive(Debug, Clone, Copy)]
pub struct SystemTime {
    pub second: i32,
    pub minute: i32,
    pub hour: i32,
    pub day_of_month: i32,
    pub month: i32,
    pub year: i32,
    pub day_of_week: i32,
}

/// Frequency of the interval timer's input clock.
pub const PIT_INPUT_FREQ: i32 = 1193180;

/// The value of a binary-coded decimal byte.
pub fn bcd_to_binary(value: i32) -> (r: i32)
    requires
        0 <= value < 256,
    ensures
        r == value % 16 + (value / 16) * 10,
{
    assert((value & 0x0f) == value % 16 && (value >> 4) == value / 16) by (bit_vector)
        requires 0 <= value < 256;
    (value & 0x0f) + ((value >> 4) * 10)
}

/// The divisor programmed into the interval timer for `ticks` interrupts per second
/// (60 when `ticks` is not positive).
pub fn timer_counter(ticks: i32) -> (r: i32)
    ensures
        r == PIT_INPUT_FREQ / (if ticks <= 0 { 60i32 } else { ticks }),
{
    let t = if ticks <= 0 { 60 } else { ticks };
    PIT_INPUT_FREQ / t
}

/// The interrupt mask after enabling (`enable`) or disabling interrupt line `irq` of
/// an interrupt controller whose mask was `mask` (lines 0-7 on the master, 8-15 on the
/// slave; each clears or sets its own bit of its controller's mask).
pub fn irq_mask(mask: u8, irq: u32, enable: bool) -> (r: u8)
    requires
        irq < 16,
    ensures
        ({
            let bit: u8 = (if irq <= 7 { 1u8 << (irq as u8) } else { 1u8 << ((irq - 8) as u8) });
            r == (if enable { mask & !bit } else { mask | bit })
        }),
{
    let bit: u8 = if irq <= 7 { 1u8 << (irq as u8) } else { 1u8 << ((irq - 8) as u8) };
    if enable {
        mask & !bit
    } else {
        mask | bit
    }
}

} // verus!
