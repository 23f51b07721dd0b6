use vstd::prelude::*;

pub use crate::dev::buffer::PhysicalBlock;
use crate::mm::swapper_manager::{covers, fits_somewhere, free_needs_slot, is_first_fit, take_from, AreaList};

verus! {

/// Bytes of a swap sector.
pub const SECTOR_SIZE: usize = 512;

/// Sectors that hold `bytes` bytes.
pub open spec fn sectors_for(bytes: usize) -> int {
    (bytes + SECTOR_SIZE - 1) / (SECTOR_SIZE as int)
}

/// Number of sectors holding `bytes` bytes, rounded up.
pub fn sectors(bytes: usize) -> (r: usize)
    requires
        bytes + SECTOR_SIZE - 1 <= usize::MAX,
    ensures
        r == sectors_for(bytes),
        bytes > 0 ==> r > 0,
        r * SECTOR_SIZE >= bytes,
        r * SECTOR_SIZE < bytes + SECTOR_SIZE,
{
    let r = (bytes + (SECTOR_SIZE - 1)) / SECTOR_SIZE;
    assert(r * 512 >= bytes && r * 512 < bytes + 512) by (nonlinear_arith)
        requires r == (bytes + 511) / 512;
    r
}

/// Allocates swap space for `bytes` bytes: the first free run of the swap map large
/// enough for the sectors needed gives its first sectors (see `AreaList::allocate`);
/// `None` when no run is large enough.
pub fn compat_swap_alloc(areas: &mut AreaList, bytes: usize) -> (r: Option<PhysicalBlock>)
    requires
        old(areas).wf(),
        0 < bytes,
        bytes + SECTOR_SIZE - 1 <= usize::MAX,
    ensures
        final(areas).wf(),
        match r {
            None => !fits_somewhere(old(areas)@, sectors_for(bytes)) && final(areas)@ == old(areas)@,
            Some(b) => exists|i: int| #![trigger old(areas)@[i]]
                is_first_fit(old(areas)@, sectors_for(bytes), i) && b.0 == old(areas)@[i].addr as u32
                    && final(areas)@ == take_from(old(areas)@, i, sectors_for(bytes)),
        },
{
    let n = sectors(bytes);
    match areas.allocate(n) {
        Some(a) => Some(PhysicalBlock(a as u32)),
        None => None,
    }
}

/// Returns the swap space of `bytes` bytes at block `blkno` to the swap map: the map
/// then covers those sectors besides what it covered (see `AreaList::free`).
pub fn compat_swap_free(areas: &mut AreaList, blkno: PhysicalBlock, bytes: usize)
    requires
        old(areas).wf(),
        blkno.0 != 0,
        0 < bytes,
        bytes + SECTOR_SIZE - 1 <= usize::MAX,
        blkno.0 + sectors_for(bytes) <= usize::MAX,
        forall|x: int| blkno.0 <= x < blkno.0 + sectors_for(bytes) ==> !covers(old(areas)@, x),
        free_needs_slot(old(areas)@, blkno.0 as int) ==> old(areas)@.len() < AreaList::MAX,
    ensures
        final(areas).wf(),
        forall|x: int| covers(final(areas)@, x) <==> (covers(old(areas)@, x) || blkno.0 <= x < blkno.0 + sectors_for(bytes)),
{
    let n = sectors(bytes);
    areas.free(blkno.0 as usize, n);
}

} // verus!
