use vstd::prelude::*;

verus! {

/// Bytes of physical memory.
pub const MEM_SIZE: usize = 0x400_0000;
/// Pages of physical memory.
pub const PAGE_COUNT: usize = 0x4000;

/// The physical memory zone: the page descriptors of all `PAGE_COUNT` frames.
pub struct MemoryZone;

impl MemoryZone {
    /// A range of physical addresses ending at `end` lies in the zone.
    pub fn contains_prange(&self, end: usize) -> (r: bool)
        ensures
            r == (end <= MEM_SIZE),
    {
        end <= MEM_SIZE
    }

    /// The index of the descriptor of frame `pfn`, if the frame is in the zone.
    pub fn get_page(&self, pfn: usize) -> (r: Option<usize>)
        ensures
            r == (if pfn < PAGE_COUNT { Some(pfn) } else { None::<usize> }),
    {
        if pfn >= PAGE_COUNT {
            return None;
        }
        Some(pfn)
    }

    /// The frame of the descriptor at index `offset` of the descriptor array.
    pub fn get_pfn(&self, offset: isize) -> (r: usize)
        requires
            0 <= offset < PAGE_COUNT,
        ensures
            r == offset,
    {
        offset as usize
    }
}

/// The zone's size is a whole number of pages.
pub proof fn lemma_page_count()
    ensures
        PAGE_COUNT * 0x1000 == MEM_SIZE,
{
}

} // verus!
