use vstd::prelude::*;

use crate::constants::platform::{RAM_BASE, VIRTIO_MMIO_BASE, VIRTIO_MMIO_COUNT, VIRTIO_MMIO_STRIDE};
use crate::dev::buffer::BufFlag;
use crate::dev::buffer_manager::Buf;
use crate::mm::allocator::pow2;

verus! {

/// Bytes of a sector of a virtio block device.
pub const SECTOR_SIZE: usize = 512;

/// A transfer to ask of the virtio block device: `len` bytes from block `block_id`,
/// read into the buffer or written from it.
#[derive(Debug, Clone, Copy, PartialEq, Eq, Structural)]
pub struct BlockRequest {
    pub block_id: usize,
    pub len: usize,
    pub read: bool,
}

/// The transfer buffer `bp` asks for: its block and its byte count, a read when the
/// buffer is marked `B_READ` and a write otherwise; `None` when the byte count is not a
/// whole, nonzero number of sectors.
pub fn transfer_request(bp: &Buf) -> (r: Option<BlockRequest>)
    ensures
        r == (if bp.b_wcount as usize == 0 || (bp.b_wcount as usize) % SECTOR_SIZE != 0 {
            None
        } else {
            Some(BlockRequest { block_id: bp.b_blkno.0 as usize, len: bp.b_wcount as usize, read: bp.b_flags & BufFlag::B_READ != 0 })
        }),
{
    let block_id = bp.b_blkno.0 as usize;
    let len = bp.b_wcount as usize;
    if len == 0 || len % SECTOR_SIZE != 0 {
        return None;
    }
    Some(BlockRequest { block_id, len, read: bp.b_flags & BufFlag::B_READ != 0 })
}

/// Address of the `index`-th virtio MMIO slot, where a block device is looked for.
pub fn mmio_slot(index: usize) -> (r: usize)
    requires
        index < VIRTIO_MMIO_COUNT,
    ensures
        r == VIRTIO_MMIO_BASE + index * VIRTIO_MMIO_STRIDE,
{
    VIRTIO_MMIO_BASE + index * VIRTIO_MMIO_STRIDE
}

/// Pages given to a DMA allocation of `pages` pages: at least one, rounded up to a power
/// of two.
pub fn dma_alloc_pages(pages: usize) -> (r: usize)
    requires
        pages <= usize::MAX / 2 + 1,
    ensures
        exists|k: nat| pow2(k) == r,
        r >= 1 && r >= pages,
        r == 1 || r / 2 < pages,
{
    let mut p: usize = 1;
    let ghost mut k: nat = 0;
    assert(pow2(0) == 1);
    while p < pages
        invariant
            pow2(k) == p,
            p >= 1,
            pages <= usize::MAX / 2 + 1,
            p == 1 || p / 2 < pages,
        decreases usize::MAX - p,
    {
        assert(pow2(k + 1) == 2 * pow2(k));
        p = p * 2;
        proof {
            k = k + 1;
        }
    }
    p
}

/// The bus address of a kernel physical address counted from the start of RAM.
pub fn pseudo_phys_to_bus(paddr: usize) -> (r: usize)
    requires
        RAM_BASE + paddr <= usize::MAX,
    ensures
        r == RAM_BASE + paddr,
{
    RAM_BASE + paddr
}

/// The kernel physical address (counted from the start of RAM) of a bus address in RAM.
pub fn bus_to_pseudo_phys(paddr: usize) -> (r: usize)
    requires
        paddr >= RAM_BASE,
    ensures
        r == paddr - RAM_BASE,
{
    paddr - RAM_BASE
}

} // verus!
