use vstd::prelude::*;

use crate::constants::platform::{KERNEL_VIRT_BASE, RAM_BASE};

verus! {

/// Distance from a physical address to its kernel virtual address.
pub const VIRT_OFFSET: usize = 0x4000_0000;

/// Bytes of a page.
pub const PAGE_SIZE: usize = 0x1000;

/// The kernel virtual address of physical address `paddr`.
pub fn phys_to_virt(paddr: usize) -> (r: usize)
    requires
        paddr + VIRT_OFFSET <= usize::MAX,
    ensures
        r == paddr + VIRT_OFFSET,
{
    paddr + VIRT_OFFSET
}

/// The physical address of kernel virtual address `vaddr`.
pub fn virt_to_phys(vaddr: usize) -> (r: usize)
    requires
        vaddr >= VIRT_OFFSET,
    ensures
        r == vaddr - VIRT_OFFSET,
{
    vaddr - VIRT_OFFSET
}

/// The address a device is given for the kernel buffer at `addr`: its physical address
/// for an address of the kernel's virtual window, its offset from the start of RAM
/// for an identity-mapped one.
pub fn kernel_ptr_to_pseudo_phys(addr: usize) -> (r: usize)
    requires
        addr >= RAM_BASE,
    ensures
        addr >= KERNEL_VIRT_BASE ==> r == addr - VIRT_OFFSET,
        addr < KERNEL_VIRT_BASE ==> r == addr - RAM_BASE,
{
    if addr >= KERNEL_VIRT_BASE {
        virt_to_phys(addr)
    } else {
        addr - RAM_BASE
    }
}

/// The offset is the kernel's virtual base minus the start of RAM.
pub proof fn lemma_virt_offset()
    ensures
        VIRT_OFFSET == KERNEL_VIRT_BASE - RAM_BASE,
{
}

/// Translating to a virtual address and back gives the physical address again.
pub proof fn law_virt_phys_roundtrip(paddr: usize)
    requires
        paddr + VIRT_OFFSET <= usize::MAX,
    ensures
        (paddr + VIRT_OFFSET) - VIRT_OFFSET == paddr,
{
}

/// 2 to the power `k`.
pub open spec fn pow2(k: nat) -> nat
    decreases k,
{
    if k == 0 { 1 } else { 2 * pow2((k - 1) as nat) }
}

/// Powers of two grow with the exponent.
proof fn lemma_pow2_mono(a: nat, b: nat)
    requires
        a <= b,
    ensures
        pow2(a) <= pow2(b),
    decreases b - a,
{
    if a < b {
        lemma_pow2_mono(a, (b - 1) as nat);
    }
}

/// Exponents add when powers of two multiply.
proof fn lemma_pow2_add(a: nat, b: nat)
    ensures
        pow2(a + b) == pow2(a) * pow2(b),
    decreases b,
{
    if b == 0 {
        assert(a + b == a);
        assert(pow2(b) == 1);
    } else {
        lemma_pow2_add(a, (b - 1) as nat);
        assert(a + (b - 1) as nat == (a + b - 1) as nat);
        assert(pow2(a + b) == 2 * pow2((a + b - 1) as nat));
        assert(pow2(b) == 2 * pow2((b - 1) as nat));
        let x = pow2(a);
        let y = pow2((b - 1) as nat);
        assert(x * (2 * y) == 2 * (x * y)) by (nonlinear_arith);
    }
}

/// A power of two that fits in a machine word has an exponent below 64.
proof fn lemma_pow2_word(k: nat)
    requires
        pow2(k) <= usize::MAX,
    ensures
        k < 64,
{
    let p16 = pow2(16);
    assert(p16 == 0x1_0000) by { reveal_with_fuel(pow2, 17); }
    lemma_pow2_add(16, 16);
    let p32 = pow2(32);
    assert(p32 == 0x1_0000_0000) by {
        assert(p16 * p16 == 0x1_0000_0000) by (nonlinear_arith)
            requires p16 == 0x1_0000;
    }
    lemma_pow2_add(32, 32);
    assert(pow2(64) == 0x1_0000_0000_0000_0000) by {
        assert(p32 * p32 == 0x1_0000_0000_0000_0000) by (nonlinear_arith)
            requires p32 == 0x1_0000_0000;
    }
    if k >= 64 {
        lemma_pow2_mono(64, k);
    }
}

/// The buddy order of an allocation of `size` bytes: the smallest `order` whose block
/// of `PAGE_SIZE << order` bytes holds `size` (sizes round up to a power of two).
pub fn order_for_size(size: usize) -> (r: u32)
    requires
        0 < size <= usize::MAX / 2 + 1,
    ensures
        pow2((r + 12) as nat) >= size,
        r == 0 || pow2((r + 11) as nat) < size,
{
    let mut order: u32 = 0;
    let mut block: usize = PAGE_SIZE;
    assert(pow2(12) == 4096) by { reveal_with_fuel(pow2, 13); }
    while block < size
        invariant
            0 < size <= usize::MAX / 2 + 1,
            block == pow2((order + 12) as nat),
            block >= PAGE_SIZE,
            order == 0 || pow2((order + 11) as nat) < size,
        decreases usize::MAX - block,
    {
        assert(pow2((order + 13) as nat) == 2 * pow2((order + 12) as nat));
        proof {
            lemma_pow2_word((order + 12) as nat);
        }
        order = order + 1;
        block = block * 2;
    }
    order
}

} // verus!
