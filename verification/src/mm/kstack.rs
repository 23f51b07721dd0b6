use vstd::prelude::*;

verus! {

/// Pages of a kernel stack, as a power of two.
pub const KSTACK_ORDER: u32 = 3;
/// Bytes of a kernel stack: 8 pages.
pub const KSTACK_SIZE: usize = 0x8000;

/// A process's kernel stack: `KSTACK_SIZE` bytes at kernel virtual address `base`.
#[derive(Debug, Clone, Copy)]
pub struct KernelStack {
    pub base: usize,
}

impl KernelStack {
    /// The stack at `base`.
    pub fn new(base: usize) -> (r: Self)
        ensures
            r.base == base,
    {
        KernelStack { base }
    }

    /// One past the highest byte of the stack (stacks grow down).
    pub fn top(&self) -> (r: usize)
        requires
            self.base + KSTACK_SIZE <= usize::MAX,
        ensures
            r == self.base + KSTACK_SIZE,
    {
        self.base + KSTACK_SIZE
    }

    /// Where the trap frame of `ctx_size` bytes lives: at the top of the stack.
    pub fn trap_context(&self, ctx_size: usize) -> (r: usize)
        requires
            self.base + KSTACK_SIZE <= usize::MAX,
            ctx_size <= KSTACK_SIZE,
        ensures
            r == self.base + KSTACK_SIZE - ctx_size,
    {
        self.top() - ctx_size
    }

    /// Where kernel execution starts using the stack: below the trap frame of
    /// `ctx_size` bytes, aligned down to 16 bytes.
    pub fn task_top(&self, ctx_size: usize) -> (r: usize)
        requires
            self.base + KSTACK_SIZE <= usize::MAX,
            ctx_size <= KSTACK_SIZE,
        ensures
            r == (self.base + KSTACK_SIZE - ctx_size) as usize & !0xfusize,
            r <= self.base + KSTACK_SIZE - ctx_size,
            r % 16 == 0,
    {
        let t = self.top() - ctx_size;
        assert((t & !0xfusize) <= t && (t & !0xfusize) % 16 == 0) by (bit_vector);
        t & !0xf
    }
}

} // verus!
