use vstd::prelude::*;

use crate::constants::PosixError;
use crate::dev::buffer::{BufFlag, DevId, PhysicalBlock};
use crate::dev::device_manager::{major, set_minor, ROOTDEV};

verus! {

/// Sleep priority of a process waiting for a block buffer.
pub const PRIBIO: i32 = -50;
/// Sleep priority of a process waiting on a pipe.
pub const PPIPE: u32 = 1;
/// Sleep priority of a process waiting for swap I/O.
pub const PSWP: i32 = -100;

/// Failures of the block buffer cache.
#[derive(Debug, Clone, Copy, PartialEq, Eq, Structural)]
pub enum BufferError {
    InvalidDevice,
    BufferUnavailable,
    IoError,
    InvalidBuffer,
}

impl BufferError {
    /// The error number reported to user programs.
    pub open spec fn spec_to_posix(self) -> PosixError {
        match self {
            BufferError::InvalidDevice => PosixError::ENXIO,
            BufferError::BufferUnavailable => PosixError::EIO,
            BufferError::IoError => PosixError::EIO,
            BufferError::InvalidBuffer => PosixError::EINVAL,
        }
    }
}

impl From<BufferError> for PosixError {
    fn from(value: BufferError) -> (r: PosixError) {
        match value {
            BufferError::InvalidDevice => PosixError::ENXIO,
            BufferError::BufferUnavailable => PosixError::EIO,
            BufferError::IoError => PosixError::EIO,
            BufferError::InvalidBuffer => PosixError::EINVAL,
        }
    }
}

impl vstd::std_specs::convert::FromSpecImpl<BufferError> for PosixError {
    open spec fn obeys_from_spec() -> bool {
        true
    }

    open spec fn from_spec(v: BufferError) -> PosixError {
        v.spec_to_posix()
    }
}


/// The header of a block buffer; whether it is linked on the free list and on a device
/// list is kept beside the lists themselves.
#[derive(Debug, Clone, Copy)]
pub struct Buf {
    pub b_flags: u32,
    /// Device of the block held (-1 for none).
    pub b_dev: i16,
    /// Device of the list the buffer is on (-1 for the unassigned list).
    pub b_queue_dev: i16,
    /// Bytes to transfer.
    pub b_wcount: i32,
    pub b_blkno: PhysicalBlock,
    pub b_error: i32,
    pub b_resid: i32,
    /// On the free list.
    pub free_linked: bool,
    /// On a device list.
    pub device_linked: bool,
}

impl Buf {
    /// A fresh buffer header: no flags, no device, on no list.
    pub fn new() -> (r: Self)
        ensures
            r == (Buf { b_flags: 0, b_dev: -1i16, b_queue_dev: -1i16, b_wcount: 0, b_blkno: PhysicalBlock(0), b_error: 0, b_resid: 0, free_linked: false, device_linked: false }),
    {
        Buf { b_flags: 0, b_dev: -1, b_queue_dev: -1, b_wcount: 0, b_blkno: PhysicalBlock(0), b_error: 0, b_resid: 0, free_linked: false, device_linked: false }
    }

    pub fn is_busy(&self) -> (r: bool)
        ensures r == (self.b_flags & BufFlag::B_BUSY != 0),
    {
        self.b_flags & BufFlag::B_BUSY != 0
    }

    pub fn is_done(&self) -> (r: bool)
        ensures r == (self.b_flags & BufFlag::B_DONE != 0),
    {
        self.b_flags & BufFlag::B_DONE != 0
    }

    pub fn has_error(&self) -> (r: bool)
        ensures r == (self.b_flags & BufFlag::B_ERROR != 0),
    {
        self.b_flags & BufFlag::B_ERROR != 0
    }

    pub fn is_async(&self) -> (r: bool)
        ensures r == (self.b_flags & BufFlag::B_ASYNC != 0),
    {
        self.b_flags & BufFlag::B_ASYNC != 0
    }

    pub fn is_delwri(&self) -> (r: bool)
        ensures r == (self.b_flags & BufFlag::B_DELWRI != 0),
    {
        self.b_flags & BufFlag::B_DELWRI != 0
    }
}

/// A block device exists for `dev` (only major 0, the disk) or `dev` names none.
pub open spec fn device_valid(dev: i16) -> bool {
    dev < 256
}

/// `s` holds no index twice and only indices below `n`.
pub open spec fn index_list(s: Seq<usize>, n: nat) -> bool {
    &&& forall|k: int| 0 <= k < s.len() ==> #[trigger] s[k] < n
    &&& forall|k: int, l: int| 0 <= k < l < s.len() ==> #[trigger] s[k] != #[trigger] s[l]
}

/// Buffer `b` holds block `blkno` of `dev`.
pub open spec fn holds_block(b: Buf, dev: i16, blkno: PhysicalBlock) -> bool {
    b.b_dev == dev && b.b_blkno == blkno
}

/// Buffers `a` and `b` name the same block of the same device.
pub open spec fn same_block(a: Buf, b: Buf) -> bool {
    a.b_dev == b.b_dev && a.b_blkno == b.b_blkno
}

/// No block is held by two buffers of the device lists, but for blocks of minor
/// device 255 (no device: unassigned buffers, and buffers detached after an error).
pub open spec fn blocks_unique(bufs: Seq<Buf>) -> bool {
    forall|i: int, j: int|
        0 <= i < bufs.len() && 0 <= j < bufs.len() && i != j && bufs[i].device_linked && bufs[j].device_linked
            && #[trigger] same_block(bufs[i], bufs[j]) ==> bufs[i].b_dev & 0x00ff == 0x00ff
}

/// Changing buffer `i` alone keeps the blocks unique when the buffer is off the device
/// lists, keeps its block and list, names no device, or names a block no other listed
/// buffer holds.
pub open spec fn unique_change_ok(before: Seq<Buf>, after: Seq<Buf>, i: int) -> bool {
    ||| !after[i].device_linked
    ||| before[i].device_linked && same_block(after[i], before[i])
    ||| after[i].b_dev & 0x00ff == 0x00ff
    ||| forall|j: int| 0 <= j < before.len() && j != i && (#[trigger] before[j]).device_linked ==> !same_block(after[i], before[j])
}

/// The cache never holds two copies of a block: two buffers of the device lists that
/// hold the same block of a device (minor number other than 255) are the same buffer.
pub proof fn law_block_cached_once(bm: BufferManager, i: usize, j: usize)
    requires
        bm.wf(),
        i < BufferManager::NBUF,
        j < BufferManager::NBUF,
        bm.bufs@[i as int].device_linked,
        bm.bufs@[j as int].device_linked,
        same_block(bm.bufs@[i as int], bm.bufs@[j as int]),
        bm.bufs@[i as int].b_dev & 0x00ff != 0x00ff,
    ensures
        i == j,
{
}

proof fn lemma_unique_after_change(before: Seq<Buf>, after: Seq<Buf>, i: int)
    requires
        before.len() == after.len(),
        0 <= i < before.len(),
        blocks_unique(before),
        forall|j: int| 0 <= j < before.len() && j != i ==> #[trigger] after[j] == before[j],
        unique_change_ok(before, after, i),
    ensures
        blocks_unique(after),
{
    assert forall|a: int, b: int|
        0 <= a < after.len() && 0 <= b < after.len() && a != b && after[a].device_linked && after[b].device_linked
            && #[trigger] same_block(after[a], after[b]) implies after[a].b_dev & 0x00ff == 0x00ff by {
        if a != i && b != i {
            assert(same_block(before[a], before[b]));
        } else if a == i {
            assert(after[b] == before[b]);
            if before[i].device_linked && same_block(after[i], before[i]) {
                assert(same_block(before[i], before[b]));
            }
        } else {
            assert(after[a] == before[a]);
            if before[i].device_linked && same_block(after[i], before[i]) {
                assert(same_block(before[a], before[i]));
            }
        }
    }
}

/// Buffer `i` is the first of the device lists that holds block `blkno` of `dev`.
pub open spec fn cached_at(bufs: Seq<Buf>, dl: Seq<usize>, dev: i16, blkno: PhysicalBlock, i: usize) -> bool {
    &&& i < BufferManager::NBUF
    &&& exists|k: int| 0 <= k < dl.len() && dl[k] == i && holds_block(bufs[i as int], dev, blkno)
        && forall|l: int| 0 <= l < k ==> !holds_block(#[trigger] bufs[dl[l] as int], dev, blkno)
}

/// No buffer of the device lists holds block `blkno` of `dev`.
pub open spec fn not_cached(bufs: Seq<Buf>, dl: Seq<usize>, dev: i16, blkno: PhysicalBlock) -> bool {
    forall|k: int| 0 <= k < dl.len() ==> !holds_block(#[trigger] bufs[dl[k] as int], dev, blkno)
}

/// What one attempt to get the buffer of a block found.
#[derive(Debug, Clone, Copy, PartialEq, Eq, Structural)]
pub enum GetBlk {
    /// The block is cached in buffer `i`, now taken (busy, off the free list).
    Found(usize),
    /// Buffer `i` was free and now holds the block (busy, no data yet).
    Assigned(usize),
    /// The block's buffer `i` is busy: it is marked wanted; sleep on it and try again.
    WaitBuffer(usize),
    /// No buffer is free: the free list is marked wanted; sleep on it and try again.
    WaitFree,
    /// The first free buffer `i` holds a delayed write: it was taken and marked
    /// asynchronous; write it out (see `BufferManager::bwrite_ref`) and try again.
    Flush(usize),
}

/// The block buffer cache.
pub struct BufferManager {
    pub bufs: Vec<Buf>,
    /// The free buffers, in the order they are reused.
    pub free_list: Vec<usize>,
    /// The buffers on device lists, most recently assigned first.
    pub dev_list: Vec<usize>,
    /// A process waits for a free buffer.
    pub free_wanted: bool,
    /// The buffer for swap transfers.
    pub swap_buf: Buf,
}

impl BufferManager {
    /// Clears a buffer's data: every byte becomes 0.
    pub fn clr_buf(data: &mut Vec<u8>)
        ensures
            final(data)@.len() == old(data)@.len(),
            forall|i: int| 0 <= i < final(data)@.len() ==> #[trigger] final(data)@[i] == 0,
    {
        let mut i: usize = 0;
        while i < data.len()
            invariant
                i <= data@.len(),
                data@.len() == old(data)@.len(),
                forall|j: int| 0 <= j < i ==> #[trigger] data@[j] == 0,
            decreases data@.len() - i,
        {
            data.set(i, 0);
            i = i + 1;
        }
    }

    /// Number of buffers.
    pub const NBUF: usize = 15;
    /// Bytes of a buffer.
    pub const BUFFER_SIZE: usize = 512;

    /// The lists are consistent with the buffers' link marks.
    pub open spec fn wf(&self) -> bool {
        &&& self.bufs@.len() == Self::NBUF
        &&& index_list(self.free_list@, Self::NBUF as nat)
        &&& index_list(self.dev_list@, Self::NBUF as nat)
        &&& forall|i: int| 0 <= i < Self::NBUF ==> (#[trigger] self.bufs@[i]).free_linked == self.free_list@.contains(i as usize)
        &&& forall|i: int| 0 <= i < Self::NBUF ==> (#[trigger] self.bufs@[i]).device_linked == self.dev_list@.contains(i as usize)
        &&& forall|i: int| 0 <= i < Self::NBUF && (#[trigger] self.bufs@[i]).device_linked ==> device_valid(self.bufs@[i].b_queue_dev)
        &&& blocks_unique(self.bufs@)
    }

    /// All buffers free, unassigned, holding no block (the unassigned list in reverse
    /// order of the buffers, as each is pushed at its front).
    pub fn new() -> (r: Self)
        ensures
            r.wf(),
            r.free_list@ == Seq::new(Self::NBUF as nat, |i: int| i as usize),
            r.dev_list@ == Seq::new(Self::NBUF as nat, |i: int| (Self::NBUF - 1 - i) as usize),
            forall|i: int| 0 <= i < Self::NBUF ==> (#[trigger] r.bufs@[i]).b_dev == -1 && r.bufs@[i].b_flags == 0 && r.bufs@[i].b_queue_dev == -1,
            !r.free_wanted,
            r.swap_buf == Buf::new_spec(),
    {
        let mut bufs: Vec<Buf> = Vec::new();
        let mut free_list: Vec<usize> = Vec::new();
        let mut dev_list: Vec<usize> = Vec::new();
        let mut i: usize = 0;
        while i < Self::NBUF
            invariant
                i <= Self::NBUF,
                bufs@.len() == i,
                free_list@ == Seq::new(i as nat, |k: int| k as usize),
                dev_list@ == Seq::new(i as nat, |k: int| (i - 1 - k) as usize),
                forall|k: int| 0 <= k < i ==> #[trigger] bufs@[k] == (Buf { free_linked: true, device_linked: true, ..Buf::new_spec() }),
            decreases Self::NBUF - i,
        {
            bufs.push(Buf { free_linked: true, device_linked: true, ..Buf::new() });
            free_list.push(i);
            dev_list.insert(0, i);
            i = i + 1;
            assert(free_list@ =~= Seq::new(i as nat, |k: int| k as usize));
            assert(dev_list@ =~= Seq::new(i as nat, |k: int| (i - 1 - k) as usize));
        }
        let r = BufferManager { bufs, free_list, dev_list, free_wanted: false, swap_buf: Buf::new() };
        assert forall|i: int| 0 <= i < Self::NBUF implies (#[trigger] r.bufs@[i]).free_linked == r.free_list@.contains(i as usize) by {
            assert(r.free_list@[i] == i as usize);
        }
        assert forall|i: int| 0 <= i < Self::NBUF implies (#[trigger] r.bufs@[i]).device_linked == r.dev_list@.contains(i as usize) by {
            assert(r.dev_list@[Self::NBUF - 1 - i] == i as usize);
        }
        assert((-1i16) & 0x00ffi16 == 0x00ffi16) by (bit_vector);
        r
    }

    /// Reinitializes the cache (see `new`).
    pub fn initialize(&mut self)
        ensures
            final(self).wf(),
            final(self).free_list@ == Seq::new(Self::NBUF as nat, |i: int| i as usize),
            final(self).dev_list@ == Seq::new(Self::NBUF as nat, |i: int| (Self::NBUF - 1 - i) as usize),
            forall|i: int| 0 <= i < Self::NBUF ==> (#[trigger] final(self).bufs@[i]).b_dev == -1 && final(self).bufs@[i].b_flags == 0 && final(self).bufs@[i].b_queue_dev == -1,
            !final(self).free_wanted,
            final(self).swap_buf == Buf::new_spec(),
    {
        *self = Self::new();
    }

    /// A block of `dev` can be cached: a block device exists for it, or it names none.
    pub fn validate_device(dev: DevId) -> (r: Result<(), BufferError>)
        ensures
            r == (if device_valid(dev.0) { Ok::<(), BufferError>(()) } else { Err(BufferError::InvalidDevice) }),
    {
        if dev.0 < 0 || major(dev.0) == 0 {
            Ok(())
        } else {
            Err(BufferError::InvalidDevice)
        }
    }

    /// The buffer caching block `blkno` of `dev` (see `in_core_spec`).
    pub fn in_core(&self, dev: DevId, blkno: PhysicalBlock) -> (r: Option<usize>)
        requires
            self.wf(),
        ensures
            match r {
                Some(i) => cached_at(self.bufs@, self.dev_list@, dev.0, blkno, i),
                None => not_cached(self.bufs@, self.dev_list@, dev.0, blkno),
            },
    {
        let mut k: usize = 0;
        while k < self.dev_list.len()
            invariant
                self.wf(),
                k <= self.dev_list@.len(),
                forall|l: int| 0 <= l < k ==> !holds_block(#[trigger] self.bufs@[self.dev_list@[l] as int], dev.0, blkno),
            decreases self.dev_list@.len() - k,
        {
            let i = self.dev_list[k];
            let b = self.bufs[i];
            if b.b_dev == dev.0 && b.b_blkno == blkno {
                assert(self.dev_list@[k as int] == i);
                return Some(i);
            }
            k = k + 1;
        }
        None
    }

    /// Takes buffer `i` off the free list (if it is on it) and marks it busy.
    pub fn not_avail(&mut self, i: usize)
        requires
            old(self).wf(),
            i < Self::NBUF,
        ensures
            final(self).wf(),
            removed(old(self).free_list@, i, final(self).free_list@),
            final(self).bufs@ == old(self).bufs@.update(i as int, Buf { b_flags: old(self).bufs@[i as int].b_flags | BufFlag::B_BUSY, free_linked: false, ..old(self).bufs@[i as int] }),
            final(self).dev_list@ == old(self).dev_list@,
            final(self).free_wanted == old(self).free_wanted && final(self).swap_buf == old(self).swap_buf,
    {
        let b = self.bufs[i];
        if b.free_linked {
            self.remove_from_free_list(i);
        }
        let b = self.bufs[i];
        self.bufs.set(i, Buf { b_flags: b.b_flags | BufFlag::B_BUSY, free_linked: false, ..b });
        proof {
            assert(!self.free_list@.contains(i)) by {
                if old(self).bufs@[i as int].free_linked {
                } else {
                    assert(!old(self).free_list@.contains(i));
                }
            }
            assert forall|j: int| 0 <= j < Self::NBUF && j != i implies (#[trigger] old(self).bufs@[j]).free_linked == self.free_list@.contains(j as usize) by {
                if old(self).bufs@[i as int].free_linked {
                    let k = choose|k: int| 0 <= k < old(self).free_list@.len() && old(self).free_list@[k] == i && self.free_list@ == old(self).free_list@.remove(k);
                    lemma_remove_index_list(old(self).free_list@, k, Self::NBUF as nat);
                }
            }
            self.lemma_wf_after_flag_change(old(self), i);
        }
    }

    /// Removes buffer `i` from the free list.
    fn remove_from_free_list(&mut self, i: usize)
        requires
            old(self).wf(),
            i < Self::NBUF,
            old(self).bufs@[i as int].free_linked,
        ensures
            final(self).wf(),
            removed(old(self).free_list@, i, final(self).free_list@),
            final(self).bufs@ == old(self).bufs@.update(i as int, Buf { free_linked: false, ..old(self).bufs@[i as int] }),
            final(self).dev_list@ == old(self).dev_list@,
            final(self).free_wanted == old(self).free_wanted && final(self).swap_buf == old(self).swap_buf,
    {
        let ghost fl = self.free_list@;
        let mut k: usize = 0;
        while k < self.free_list.len() && self.free_list[k] != i
            invariant
                self.free_list@ == fl,
                k <= fl.len(),
                forall|l: int| 0 <= l < k ==> fl[l] != i,
            decreases fl.len() - k,
        {
            k = k + 1;
        }
        assert(fl.contains(i));
        assert(k < fl.len());
        self.free_list.remove(k);
        proof { lemma_remove_index_list(fl, k as int, Self::NBUF as nat); }
        let b = self.bufs[i];
        self.bufs.set(i, Buf { free_linked: false, ..b });
        assert forall|j: int| 0 <= j < Self::NBUF implies (#[trigger] self.bufs@[j]).free_linked == self.free_list@.contains(j as usize) by {
            if j != i {
                assert(self.bufs@[j] == old(self).bufs@[j]);
            }
        }
        assert forall|j: int| 0 <= j < Self::NBUF implies (#[trigger] self.bufs@[j]).device_linked == self.dev_list@.contains(j as usize) by {
            assert(self.bufs@[j].device_linked == old(self).bufs@[j].device_linked);
        }
        proof { lemma_unique_after_change(old(self).bufs@, self.bufs@, i as int); }
    }

    /// Appends buffer `i` to the free list unless it is on it.
    fn push_free_back(&mut self, i: usize)
        requires
            old(self).wf(),
            i < Self::NBUF,
        ensures
            final(self).wf(),
            final(self).free_list@ == (if old(self).bufs@[i as int].free_linked { old(self).free_list@ } else { old(self).free_list@.push(i) }),
            final(self).bufs@ == old(self).bufs@.update(i as int, Buf { free_linked: true, ..old(self).bufs@[i as int] }),
            final(self).dev_list@ == old(self).dev_list@,
            final(self).free_wanted == old(self).free_wanted && final(self).swap_buf == old(self).swap_buf,
    {
        let b = self.bufs[i];
        if b.free_linked {
            assert(self.bufs@ =~= old(self).bufs@.update(i as int, Buf { free_linked: true, ..old(self).bufs@[i as int] }));
            return;
        }
        let ghost fl = self.free_list@;
        self.free_list.push(i);
        self.bufs.set(i, Buf { free_linked: true, ..b });
        assert forall|k: int, l: int| 0 <= k < l < self.free_list@.len() implies #[trigger] self.free_list@[k] != #[trigger] self.free_list@[l] by {
            if l == fl.len() {
                assert(!fl.contains(i));
                assert(fl[k] == self.free_list@[k]);
            }
        }
        assert forall|j: int| 0 <= j < Self::NBUF implies (#[trigger] self.bufs@[j]).free_linked == self.free_list@.contains(j as usize) by {
            if j as usize == i {
                assert(self.free_list@[fl.len() as int] == i);
            } else {
                if self.free_list@.contains(j as usize) {
                    let k = choose|k: int| 0 <= k < self.free_list@.len() && self.free_list@[k] == j as usize;
                    assert(fl[k] == j as usize);
                }
                if fl.contains(j as usize) {
                    let k = choose|k: int| 0 <= k < fl.len() && fl[k] == j as usize;
                    assert(self.free_list@[k] == j as usize);
                }
            }
        }
        assert forall|j: int| 0 <= j < Self::NBUF implies (#[trigger] self.bufs@[j]).device_linked == self.dev_list@.contains(j as usize) by {
            assert(self.bufs@[j].device_linked == old(self).bufs@[j].device_linked);
        }
        proof { lemma_unique_after_change(old(self).bufs@, self.bufs@, i as int); }
    }

    /// Puts buffer `i` at the front of the device lists, on the list of `queue_dev`,
    /// unless it is on one.
    fn insert_device_front(&mut self, i: usize, queue_dev: i16)
        requires
            old(self).wf(),
            i < Self::NBUF,
            device_valid(queue_dev),
            !old(self).bufs@[i as int].device_linked ==> old(self).bufs@[i as int].b_dev & 0x00ff == 0x00ff
                || forall|j: int| 0 <= j < Self::NBUF && j != i && (#[trigger] old(self).bufs@[j]).device_linked
                    ==> !same_block(old(self).bufs@[i as int], old(self).bufs@[j]),
        ensures
            final(self).wf(),
            old(self).bufs@[i as int].device_linked ==> *final(self) == *old(self),
            !old(self).bufs@[i as int].device_linked ==> final(self).dev_list@ == seq![i].add(old(self).dev_list@)
                && final(self).bufs@ == old(self).bufs@.update(i as int, Buf { b_queue_dev: queue_dev, device_linked: true, ..old(self).bufs@[i as int] }),
            final(self).free_list@ == old(self).free_list@,
            final(self).free_wanted == old(self).free_wanted && final(self).swap_buf == old(self).swap_buf,
    {
        let b = self.bufs[i];
        if b.device_linked {
            return;
        }
        let ghost dl = self.dev_list@;
        self.dev_list.insert(0, i);
        assert(self.dev_list@ =~= seq![i].add(dl));
        self.bufs.set(i, Buf { b_queue_dev: queue_dev, device_linked: true, ..b });
        assert forall|k: int, l: int| 0 <= k < l < self.dev_list@.len() implies #[trigger] self.dev_list@[k] != #[trigger] self.dev_list@[l] by {
            if k == 0 {
                assert(!dl.contains(i));
                assert(self.dev_list@[l] == dl[l - 1]);
            } else {
                assert(self.dev_list@[k] == dl[k - 1] && self.dev_list@[l] == dl[l - 1]);
            }
        }
        assert forall|j: int| 0 <= j < Self::NBUF implies (#[trigger] self.bufs@[j]).device_linked == self.dev_list@.contains(j as usize) by {
            if j as usize == i {
                assert(self.dev_list@[0] == i);
            } else {
                assert(self.bufs@[j] == old(self).bufs@[j]);
                if self.dev_list@.contains(j as usize) {
                    let k = choose|k: int| 0 <= k < self.dev_list@.len() && self.dev_list@[k] == j as usize;
                    assert(dl[k - 1] == j as usize);
                }
                if dl.contains(j as usize) {
                    let k = choose|k: int| 0 <= k < dl.len() && dl[k] == j as usize;
                    assert(self.dev_list@[k + 1] == j as usize);
                }
            }
        }
        assert forall|j: int| 0 <= j < Self::NBUF implies (#[trigger] self.bufs@[j]).free_linked == self.free_list@.contains(j as usize) by {
            assert(self.bufs@[j].free_linked == old(self).bufs@[j].free_linked);
        }
        proof { lemma_unique_after_change(old(self).bufs@, self.bufs@, i as int); }
    }

    /// Takes buffer `i` off its device list, when it is on one of an existing device (or
    /// on the unassigned list).
    fn remove_from_current_device_queue(&mut self, i: usize)
        requires
            old(self).wf(),
            i < Self::NBUF,
        ensures
            final(self).wf(),
            !(old(self).bufs@[i as int].device_linked && device_valid(old(self).bufs@[i as int].b_queue_dev)) ==> *final(self) == *old(self),
            (old(self).bufs@[i as int].device_linked && device_valid(old(self).bufs@[i as int].b_queue_dev)) ==>
                removed(old(self).dev_list@, i, final(self).dev_list@)
                && final(self).bufs@ == old(self).bufs@.update(i as int, Buf { b_queue_dev: -1i16, device_linked: false, ..old(self).bufs@[i as int] }),
            final(self).free_list@ == old(self).free_list@,
            final(self).free_wanted == old(self).free_wanted && final(self).swap_buf == old(self).swap_buf,
    {
        let b = self.bufs[i];
        if !b.device_linked {
            return;
        }
        if !(b.b_queue_dev < 0 || major(b.b_queue_dev) == 0) {
            return;
        }
        let ghost dl = self.dev_list@;
        let mut k: usize = 0;
        while k < self.dev_list.len() && self.dev_list[k] != i
            invariant
                self.dev_list@ == dl,
                k <= dl.len(),
                forall|l: int| 0 <= l < k ==> dl[l] != i,
            decreases dl.len() - k,
        {
            k = k + 1;
        }
        assert(dl.contains(i));
        assert(k < dl.len());
        self.dev_list.remove(k);
        proof { lemma_remove_index_list(dl, k as int, Self::NBUF as nat); }
        self.bufs.set(i, Buf { b_queue_dev: -1, device_linked: false, ..b });
        assert forall|j: int| 0 <= j < Self::NBUF implies (#[trigger] self.bufs@[j]).device_linked == self.dev_list@.contains(j as usize) by {
            if j != i {
                assert(self.bufs@[j] == old(self).bufs@[j]);
            }
        }
        assert forall|j: int| 0 <= j < Self::NBUF implies (#[trigger] self.bufs@[j]).free_linked == self.free_list@.contains(j as usize) by {
            assert(self.bufs@[j].free_linked == old(self).bufs@[j].free_linked);
        }
    }

    /// Sets the flags of buffer `i`.
    fn set_flags(&mut self, i: usize, flags: u32)
        requires
            old(self).wf(),
            i < Self::NBUF,
        ensures
            final(self).wf(),
            final(self).bufs@ == old(self).bufs@.update(i as int, Buf { b_flags: flags, ..old(self).bufs@[i as int] }),
            final(self).free_list@ == old(self).free_list@ && final(self).dev_list@ == old(self).dev_list@,
            final(self).free_wanted == old(self).free_wanted && final(self).swap_buf == old(self).swap_buf,
    {
        let b = self.bufs[i];
        self.bufs.set(i, Buf { b_flags: flags, ..b });
        proof { self.lemma_wf_after_flag_change(old(self), i); }
    }

    /// One attempt to get the buffer of block `blkno` of `dev` (see `GetBlk`);
    /// `InvalidDevice` when no block device exists for `dev`. A block found cached is
    /// taken unless busy; otherwise the first free buffer is taken, written out first if
    /// it holds a delayed write, and else moved to the front of the device lists for the
    /// block (busy, its other flags cleared).
    pub fn get_blk(&mut self, dev: DevId, blkno: PhysicalBlock) -> (r: Result<GetBlk, BufferError>)
        requires
            old(self).wf(),
        ensures
            final(self).wf(),
            !device_valid(dev.0) ==> r == Err::<GetBlk, BufferError>(BufferError::InvalidDevice) && *final(self) == *old(self),
            device_valid(dev.0) ==> r is Ok,
            ({
                let ob = old(self).bufs@;
                match r {
                    Ok(GetBlk::Found(i)) => cached_at(ob, old(self).dev_list@, dev.0, blkno, i)
                        && ob[i as int].b_flags & BufFlag::B_BUSY == 0
                        && removed(old(self).free_list@, i, final(self).free_list@)
                        && final(self).bufs@ == ob.update(i as int, Buf { b_flags: ob[i as int].b_flags | BufFlag::B_BUSY, free_linked: false, ..ob[i as int] })
                        && final(self).dev_list@ == old(self).dev_list@,
                    Ok(GetBlk::WaitBuffer(i)) => cached_at(ob, old(self).dev_list@, dev.0, blkno, i)
                        && ob[i as int].b_flags & BufFlag::B_BUSY != 0
                        && final(self).bufs@ == ob.update(i as int, Buf { b_flags: ob[i as int].b_flags | BufFlag::B_WANTED, ..ob[i as int] })
                        && final(self).free_list@ == old(self).free_list@ && final(self).dev_list@ == old(self).dev_list@,
                    Ok(GetBlk::WaitFree) => not_cached(ob, old(self).dev_list@, dev.0, blkno)
                        && old(self).free_list@.len() == 0 && final(self).free_wanted
                        && final(self).bufs@ == ob && final(self).dev_list@ == old(self).dev_list@,
                    Ok(GetBlk::Flush(i)) => not_cached(ob, old(self).dev_list@, dev.0, blkno)
                        && old(self).free_list@.len() > 0 && i == old(self).free_list@[0]
                        && ob[i as int].b_flags & BufFlag::B_DELWRI != 0
                        && final(self).free_list@ == old(self).free_list@.drop_first()
                        && final(self).bufs@ == ob.update(i as int, Buf { b_flags: ob[i as int].b_flags | BufFlag::B_BUSY | BufFlag::B_ASYNC, free_linked: false, ..ob[i as int] })
                        && final(self).dev_list@ == old(self).dev_list@,
                    Ok(GetBlk::Assigned(i)) => not_cached(ob, old(self).dev_list@, dev.0, blkno)
                        && old(self).free_list@.len() > 0 && i == old(self).free_list@[0]
                        && ob[i as int].b_flags & BufFlag::B_DELWRI == 0
                        && final(self).free_list@ == old(self).free_list@.drop_first()
                        && final(self).bufs@[i as int].b_flags == BufFlag::B_BUSY
                        && final(self).bufs@[i as int].b_dev == dev.0 && final(self).bufs@[i as int].b_blkno == blkno
                        && final(self).bufs@[i as int].device_linked && !final(self).bufs@[i as int].free_linked
                        && final(self).bufs@[i as int].b_queue_dev == (if dev.0 < 0 { -1i16 } else { dev.0 })
                        && final(self).dev_list@[0] == i
                        && (forall|j: int| 0 <= j < Self::NBUF && j != i ==> #[trigger] final(self).bufs@[j] == ob[j]),
                    Err(_) => true,
                }
            }),
    {
        match Self::validate_device(dev) {
            Err(e) => return Err(e),
            Ok(()) => {},
        }
        match self.in_core(dev, blkno) {
            Some(i) => {
                let b = self.bufs[i];
                if b.b_flags & BufFlag::B_BUSY != 0 {
                    self.set_flags(i, b.b_flags | BufFlag::B_WANTED);
                    return Ok(GetBlk::WaitBuffer(i));
                }
                self.not_avail(i);
                return Ok(GetBlk::Found(i));
            },
            None => {},
        }
        if self.free_list.len() == 0 {
            self.free_wanted = true;
            return Ok(GetBlk::WaitFree);
        }
        let i = self.free_list[0];
        let ghost fl = self.free_list@;
        self.not_avail(i);
        proof {
            let k = choose|k: int| 0 <= k < fl.len() && fl[k] == i && self.free_list@ == fl.remove(k);
            assert(k == 0);
            assert(fl.remove(0) =~= fl.drop_first());
        }
        let b = self.bufs[i];
        proof {
            let f0 = old(self).bufs@[i as int].b_flags;
            assert(((f0 | 0x10u32) & 0x80u32 != 0) == (f0 & 0x80u32 != 0)) by (bit_vector);
        }
        if b.b_flags & BufFlag::B_DELWRI != 0 {
            self.set_flags(i, b.b_flags | BufFlag::B_ASYNC);
            return Ok(GetBlk::Flush(i));
        }
        self.set_flags(i, BufFlag::B_BUSY);
        self.remove_from_current_device_queue(i);
        let b = self.bufs[i];
        let ghost before = *self;
        self.bufs.set(i, Buf { b_dev: dev.0, b_blkno: blkno, ..b });
        proof { self.lemma_wf_after_flag_change(&before, i); }
        let q: i16 = if dev.0 < 0 { -1 } else { dev.0 };
        self.insert_device_front(i, q);
        Ok(GetBlk::Assigned(i))
    }

    /// Releases buffer `i`: its waiters and the free list's are to be woken (returned
    /// in that order), a buffer in error no longer names its block's device (minor
    /// number 255), it stops being busy, wanted or asynchronous, and goes to the end of
    /// the free list.
    pub fn brelse(&mut self, i: usize) -> (r: (bool, bool))
        requires
            old(self).wf(),
            i < Self::NBUF,
        ensures
            final(self).wf(),
            ({
                let b = old(self).bufs@[i as int];
                &&& r.0 == (b.b_flags & BufFlag::B_WANTED != 0)
                &&& r.1 == old(self).free_wanted
                &&& !final(self).free_wanted
                &&& final(self).free_list@ == (if b.free_linked { old(self).free_list@ } else { old(self).free_list@.push(i) })
                &&& final(self).dev_list@ == old(self).dev_list@
                &&& final(self).bufs@ == old(self).bufs@.update(i as int, Buf {
                    b_flags: b.b_flags & !(BufFlag::B_WANTED | BufFlag::B_BUSY | BufFlag::B_ASYNC),
                    b_dev: if b.b_flags & BufFlag::B_ERROR != 0 { (b.b_dev & (0xff00u16 as i16)) | (-1i16 & 0x00ff) } else { b.b_dev },
                    free_linked: true,
                    ..b
                })
                &&& final(self).swap_buf == old(self).swap_buf
            }),
    {
        let b = self.bufs[i];
        let wake_buf = b.b_flags & BufFlag::B_WANTED != 0;
        let wake_free = self.free_wanted;
        let dev = if b.b_flags & BufFlag::B_ERROR != 0 { set_minor(b.b_dev, -1) } else { b.b_dev };
        self.free_wanted = false;
        self.bufs.set(i, Buf { b_flags: b.b_flags & !(BufFlag::B_WANTED | BufFlag::B_BUSY | BufFlag::B_ASYNC), b_dev: dev, ..b });
        assert((-1i16) & 0x00ffi16 == 0x00ffi16) by (bit_vector);
        proof { self.lemma_wf_after_flag_change(old(self), i); }
        self.push_free_back(i);
        (wake_buf, wake_free)
    }

    /// The transfer of buffer `i` failed: `IoError`.
    pub fn get_error(&self, i: usize) -> (r: Result<(), BufferError>)
        requires
            i < self.bufs@.len(),
        ensures
            r == (if self.bufs@[i as int].b_flags & BufFlag::B_ERROR != 0 { Err::<(), BufferError>(BufferError::IoError) } else { Ok(()) }),
    {
        if self.bufs[i].b_flags & BufFlag::B_ERROR != 0 {
            Err(BufferError::IoError)
        } else {
            Ok(())
        }
    }

    /// Waits for the transfer of buffer `i`: `None` while it is not done (the buffer is
    /// marked wanted; sleep on it and ask again), then its outcome.
    pub fn io_wait(&mut self, i: usize) -> (r: Option<Result<(), BufferError>>)
        requires
            old(self).wf(),
            i < Self::NBUF,
        ensures
            final(self).wf(),
            ({
                let b = old(self).bufs@[i as int];
                &&& b.b_flags & BufFlag::B_DONE != 0 ==> *final(self) == *old(self)
                    && r == Some(if b.b_flags & BufFlag::B_ERROR != 0 { Err::<(), BufferError>(BufferError::IoError) } else { Ok(()) })
                &&& b.b_flags & BufFlag::B_DONE == 0 ==> r is None
                    && final(self).bufs@ == old(self).bufs@.update(i as int, Buf { b_flags: b.b_flags | BufFlag::B_WANTED, ..b })
                    && final(self).free_list@ == old(self).free_list@ && final(self).dev_list@ == old(self).dev_list@
            }),
    {
        let b = self.bufs[i];
        if b.b_flags & BufFlag::B_DONE != 0 {
            return Some(self.get_error(i));
        }
        self.set_flags(i, b.b_flags | BufFlag::B_WANTED);
        None
    }

    /// The transfer of buffer `i` ended: it is done; an asynchronous buffer is released
    /// (see `brelse`, whose result is returned), otherwise it stops being wanted and its
    /// waiters are to be woken (`None`).
    pub fn io_done(&mut self, i: usize) -> (r: Option<(bool, bool)>)
        requires
            old(self).wf(),
            i < Self::NBUF,
        ensures
            final(self).wf(),
            ({
                let b = old(self).bufs@[i as int];
                &&& b.b_flags & BufFlag::B_ASYNC != 0 ==> r == Some((b.b_flags & BufFlag::B_WANTED != 0, old(self).free_wanted))
                    && !final(self).free_wanted
                    && final(self).free_list@ == (if b.free_linked { old(self).free_list@ } else { old(self).free_list@.push(i) })
                    && final(self).dev_list@ == old(self).dev_list@
                    && final(self).bufs@ == old(self).bufs@.update(i as int, Buf {
                        b_flags: (b.b_flags | BufFlag::B_DONE) & !(BufFlag::B_WANTED | BufFlag::B_BUSY | BufFlag::B_ASYNC),
                        b_dev: if b.b_flags & BufFlag::B_ERROR != 0 { (b.b_dev & (0xff00u16 as i16)) | (-1i16 & 0x00ff) } else { b.b_dev },
                        free_linked: true,
                        ..b
                    })
                &&& b.b_flags & BufFlag::B_ASYNC == 0 ==> r is None
                    && final(self).bufs@ == old(self).bufs@.update(i as int, Buf { b_flags: (b.b_flags | BufFlag::B_DONE) & !BufFlag::B_WANTED, ..b })
                    && final(self).free_list@ == old(self).free_list@
            }),
    {
        let b = self.bufs[i];
        let f = b.b_flags | BufFlag::B_DONE;
        proof {
            let bf = b.b_flags;
            assert((f & 0x40u32 != 0) == (bf & 0x40u32 != 0) && (f & 0x20u32 != 0) == (bf & 0x20u32 != 0)
                && (f & 0x8u32 != 0) == (bf & 0x8u32 != 0)) by (bit_vector)
                requires f == bf | 4u32;
        }
        if f & BufFlag::B_ASYNC != 0 {
            self.set_flags(i, f);
            return Some(self.brelse(i));
        }
        self.set_flags(i, f & !BufFlag::B_WANTED);
        None
    }

    /// Prepares buffer `i` (just got) for reading its block: `false` when it already
    /// holds the data; otherwise it is marked for a read of a whole block and the
    /// transfer is to be started (`true`).
    pub fn bread_start(&mut self, i: usize, read_ahead: bool) -> (r: bool)
        requires
            old(self).wf(),
            i < Self::NBUF,
        ensures
            final(self).wf(),
            ({
                let b = old(self).bufs@[i as int];
                &&& r == (b.b_flags & BufFlag::B_DONE == 0)
                &&& !r ==> *final(self) == *old(self)
                &&& r ==> final(self).bufs@ == old(self).bufs@.update(i as int, Buf {
                    b_flags: b.b_flags | BufFlag::B_READ | (if read_ahead { BufFlag::B_ASYNC } else { 0 }),
                    b_wcount: Self::BUFFER_SIZE as i32,
                    ..b
                }) && final(self).free_list@ == old(self).free_list@ && final(self).dev_list@ == old(self).dev_list@
            }),
    {
        let b = self.bufs[i];
        if b.b_flags & BufFlag::B_DONE != 0 {
            return false;
        }
        let extra: u32 = if read_ahead { BufFlag::B_ASYNC } else { 0 };
        self.bufs.set(i, Buf { b_flags: b.b_flags | BufFlag::B_READ | extra, b_wcount: Self::BUFFER_SIZE as i32, ..b });
        proof { self.lemma_wf_after_flag_change(old(self), i); }
        true
    }

    /// What `breada` reads, given the cache now: whether block `blkno` must be got
    /// and read (it is not cached), and the read-ahead block to start (only when the
    /// block itself was not cached, and the read-ahead block is not cached either).
    pub fn breada_plan(&self, dev: DevId, blkno: PhysicalBlock, read_ahead: Option<PhysicalBlock>) -> (r: (bool, Option<PhysicalBlock>))
        requires
            self.wf(),
        ensures
            r.0 == not_cached(self.bufs@, self.dev_list@, dev.0, blkno),
            r.1 == (match read_ahead {
                Some(ra) => if r.0 && not_cached(self.bufs@, self.dev_list@, dev.0, ra) { Some(ra) } else { None::<PhysicalBlock> },
                None => None::<PhysicalBlock>,
            }),
    {
        let main = self.in_core(dev, blkno).is_none();
        proof {
            if !main {
                let i = choose|i: usize| cached_at(self.bufs@, self.dev_list@, dev.0, blkno, i);
            }
        }
        let ra = match read_ahead {
            Some(ra) => if main && self.in_core(dev, ra).is_none() { Some(ra) } else { None },
            None => None,
        };
        (main, ra)
    }

    /// Starts writing buffer `i`: the read, done, error and delayed-write marks are
    /// cleared and a whole block is to be written. Returns whether the write was
    /// asynchronous and a delayed one (a synchronous write is waited for and released
    /// by the caller; an asynchronous one that was not delayed reports the error mark).
    /// `InvalidDevice` when no block device exists for the buffer's device.
    pub fn bwrite_ref(&mut self, i: usize) -> (r: Result<(bool, bool), BufferError>)
        requires
            old(self).wf(),
            i < Self::NBUF,
        ensures
            final(self).wf(),
            ({
                let b = old(self).bufs@[i as int];
                &&& final(self).bufs@ == old(self).bufs@.update(i as int, Buf {
                    b_flags: b.b_flags & !(BufFlag::B_READ | BufFlag::B_DONE | BufFlag::B_ERROR | BufFlag::B_DELWRI),
                    b_wcount: Self::BUFFER_SIZE as i32,
                    ..b
                })
                &&& final(self).free_list@ == old(self).free_list@ && final(self).dev_list@ == old(self).dev_list@
                &&& r == (if 0 <= b.b_dev < 256 {
                    Ok::<(bool, bool), BufferError>((b.b_flags & BufFlag::B_ASYNC != 0, b.b_flags & BufFlag::B_DELWRI != 0))
                } else {
                    Err(BufferError::InvalidDevice)
                })
            }),
    {
        let b = self.bufs[i];
        let old_flags = b.b_flags;
        self.bufs.set(i, Buf {
            b_flags: b.b_flags & !(BufFlag::B_READ | BufFlag::B_DONE | BufFlag::B_ERROR | BufFlag::B_DELWRI),
            b_wcount: Self::BUFFER_SIZE as i32,
            ..b
        });
        proof { self.lemma_wf_after_flag_change(old(self), i); }
        if !(b.b_dev >= 0 && major(b.b_dev) == 0) {
            return Err(BufferError::InvalidDevice);
        }
        Ok((old_flags & BufFlag::B_ASYNC != 0, old_flags & BufFlag::B_DELWRI != 0))
    }

    /// Delays the write of buffer `i`: it is marked delayed-write and done, and released
    /// (see `brelse`, whose result is returned).
    pub fn bdwrite(&mut self, i: usize) -> (r: (bool, bool))
        requires
            old(self).wf(),
            i < Self::NBUF,
        ensures
            final(self).wf(),
            ({
                let b = old(self).bufs@[i as int];
                &&& r == (b.b_flags & BufFlag::B_WANTED != 0, old(self).free_wanted)
                &&& !final(self).free_wanted
                &&& final(self).free_list@ == (if b.free_linked { old(self).free_list@ } else { old(self).free_list@.push(i) })
                &&& final(self).dev_list@ == old(self).dev_list@
                &&& final(self).bufs@ == old(self).bufs@.update(i as int, Buf {
                    b_flags: (b.b_flags | BufFlag::B_DELWRI | BufFlag::B_DONE) & !(BufFlag::B_WANTED | BufFlag::B_BUSY | BufFlag::B_ASYNC),
                    b_dev: if b.b_flags & BufFlag::B_ERROR != 0 { (b.b_dev & (0xff00u16 as i16)) | (-1i16 & 0x00ff) } else { b.b_dev },
                    free_linked: true,
                    ..b
                })
                &&& final(self).swap_buf == old(self).swap_buf
            }),
    {
        let b = self.bufs[i];
        let f = b.b_flags;
        self.set_flags(i, f | BufFlag::B_DELWRI | BufFlag::B_DONE);
        assert(((f | 0x80u32 | 4u32) & 0x20u32 != 0) == (f & 0x20u32 != 0)
            && ((f | 0x80u32 | 4u32) & 0x8u32 != 0) == (f & 0x8u32 != 0)) by (bit_vector);
        self.brelse(i)
    }

    /// Writes buffer `i` asynchronously: it is marked asynchronous and written (see
    /// `bwrite_ref`, whose result is returned).
    pub fn bawrite(&mut self, i: usize) -> (r: Result<(bool, bool), BufferError>)
        requires
            old(self).wf(),
            i < Self::NBUF,
        ensures
            final(self).wf(),
            ({
                let b = old(self).bufs@[i as int];
                &&& final(self).bufs@ == old(self).bufs@.update(i as int, Buf {
                    b_flags: (b.b_flags | BufFlag::B_ASYNC) & !(BufFlag::B_READ | BufFlag::B_DONE | BufFlag::B_ERROR | BufFlag::B_DELWRI),
                    b_wcount: Self::BUFFER_SIZE as i32,
                    ..b
                })
                &&& final(self).free_list@ == old(self).free_list@ && final(self).dev_list@ == old(self).dev_list@
                &&& r == (if 0 <= b.b_dev < 256 {
                    Ok::<(bool, bool), BufferError>((true, b.b_flags & BufFlag::B_DELWRI != 0))
                } else {
                    Err(BufferError::InvalidDevice)
                })
            }),
    {
        let b = self.bufs[i];
        self.set_flags(i, b.b_flags | BufFlag::B_ASYNC);
        proof {
            let f = b.b_flags;
            assert((f | 0x40u32) & 0x40u32 != 0 && ((f | 0x40u32) & 0x80u32 != 0) == (f & 0x80u32 != 0)) by (bit_vector);
        }
        self.bwrite_ref(i)
    }

    /// The first free buffer holding a delayed write (of `dev`, when given).
    pub fn find_delayed_write_buffer(&self, dev: Option<DevId>) -> (r: Option<usize>)
        requires
            self.wf(),
        ensures
            match r {
                Some(i) => exists|k: int| 0 <= k < self.free_list@.len() && self.free_list@[k] == i
                    && delayed_of(self.bufs@[i as int], dev)
                    && forall|l: int| 0 <= l < k ==> !delayed_of(#[trigger] self.bufs@[self.free_list@[l] as int], dev),
                None => forall|k: int| 0 <= k < self.free_list@.len() ==> !delayed_of(#[trigger] self.bufs@[self.free_list@[k] as int], dev),
            },
    {
        let mut k: usize = 0;
        while k < self.free_list.len()
            invariant
                self.wf(),
                k <= self.free_list@.len(),
                forall|l: int| 0 <= l < k ==> !delayed_of(#[trigger] self.bufs@[self.free_list@[l] as int], dev),
            decreases self.free_list@.len() - k,
        {
            let i = self.free_list[k];
            let b = self.bufs[i];
            let m = match dev { Some(d) => b.b_dev == d.0, None => true };
            if m && b.b_flags & BufFlag::B_DELWRI != 0 {
                assert(self.free_list@[k as int] == i);
                return Some(i);
            }
            k = k + 1;
        }
        None
    }

    /// One step of flushing the delayed writes (of `dev`, when given): the first such
    /// buffer is taken, marked asynchronous and its write started (see `bwrite_ref`);
    /// `None` when none is left.
    pub fn bflush_step(&mut self, dev: Option<DevId>) -> (r: Option<(usize, Result<(bool, bool), BufferError>)>)
        requires
            old(self).wf(),
        ensures
            final(self).wf(),
            r is None ==> *final(self) == *old(self)
                && forall|k: int| 0 <= k < old(self).free_list@.len() ==> !delayed_of(#[trigger] old(self).bufs@[old(self).free_list@[k] as int], dev),
            r matches Some((i, w)) ==> i < Self::NBUF && ({
                let b = old(self).bufs@[i as int];
                &&& exists|k: int| 0 <= k < old(self).free_list@.len() && old(self).free_list@[k] == i
                    && delayed_of(b, dev)
                    && forall|l: int| 0 <= l < k ==> !delayed_of(#[trigger] old(self).bufs@[old(self).free_list@[l] as int], dev)
                &&& removed(old(self).free_list@, i, final(self).free_list@)
                &&& !final(self).free_list@.contains(i)
                &&& final(self).dev_list@ == old(self).dev_list@
                &&& final(self).bufs@ == old(self).bufs@.update(i as int, Buf {
                    b_flags: (b.b_flags | BufFlag::B_ASYNC | BufFlag::B_BUSY) & !(BufFlag::B_READ | BufFlag::B_DONE | BufFlag::B_ERROR | BufFlag::B_DELWRI),
                    b_wcount: Self::BUFFER_SIZE as i32,
                    free_linked: false,
                    ..b
                })
                &&& w == (if 0 <= b.b_dev < 256 { Ok::<(bool, bool), BufferError>((true, true)) } else { Err(BufferError::InvalidDevice) })
            }),
    {
        let i = match self.find_delayed_write_buffer(dev) {
            Some(i) => i,
            None => return None,
        };
        let b = self.bufs[i];
        let f = b.b_flags;
        self.set_flags(i, f | BufFlag::B_ASYNC);
        self.not_avail(i);
        assert(((f | 0x40u32) | 0x10u32) & 0x40u32 != 0 && (((f | 0x40u32) | 0x10u32) & 0x80u32 != 0) == (f & 0x80u32 != 0)) by (bit_vector);
        let w = self.bwrite_ref(i);
        proof {
            lemma_removed_absent(old(self).free_list@, i, self.free_list@, Self::NBUF as nat);
        }
        Some((i, w))
    }

    /// Claims the swap buffer for a transfer of `count` bytes at swap block `blkno`
    /// with flags `flag`: `false` while it is busy (it is marked wanted; sleep on it and
    /// try again).
    pub fn swap_begin(&mut self, blkno: PhysicalBlock, count: usize, flag: u32) -> (r: bool)
        ensures
            r == (old(self).swap_buf.b_flags & BufFlag::B_BUSY == 0),
            !r ==> final(self).swap_buf == (Buf { b_flags: old(self).swap_buf.b_flags | BufFlag::B_WANTED, ..old(self).swap_buf }),
            r ==> final(self).swap_buf == (Buf { b_flags: BufFlag::B_BUSY | flag, b_dev: ROOTDEV, b_wcount: count as i32, b_blkno: blkno, ..old(self).swap_buf }),
            final(self).bufs == old(self).bufs && final(self).free_list == old(self).free_list && final(self).dev_list == old(self).dev_list,
            final(self).free_wanted == old(self).free_wanted,
    {
        if self.swap_buf.b_flags & BufFlag::B_BUSY != 0 {
            self.swap_buf.b_flags = self.swap_buf.b_flags | BufFlag::B_WANTED;
            return false;
        }
        self.swap_buf = Buf { b_flags: BufFlag::B_BUSY | flag, b_dev: ROOTDEV, b_wcount: count as i32, b_blkno: blkno, ..self.swap_buf };
        true
    }

    /// Waits for the swap transfer: `false` while it is not done (the swap buffer is
    /// marked wanted; sleep on it and ask again).
    pub fn swap_wait(&mut self) -> (r: bool)
        ensures
            r == (old(self).swap_buf.b_flags & BufFlag::B_DONE != 0),
            r ==> *final(self) == *old(self),
            !r ==> final(self).swap_buf == (Buf { b_flags: old(self).swap_buf.b_flags | BufFlag::B_WANTED, ..old(self).swap_buf }),
            final(self).bufs == old(self).bufs && final(self).free_list == old(self).free_list && final(self).dev_list == old(self).dev_list,
            final(self).free_wanted == old(self).free_wanted,
    {
        if self.swap_buf.b_flags & BufFlag::B_DONE != 0 {
            return true;
        }
        self.swap_buf.b_flags = self.swap_buf.b_flags | BufFlag::B_WANTED;
        false
    }

    /// Ends a swap transfer: the swap buffer stops being busy and wanted; returns
    /// whether its waiters are to be woken, and the transfer's outcome.
    pub fn finish_swap(&mut self) -> (r: (bool, Result<(), BufferError>))
        ensures
            r.0 == (old(self).swap_buf.b_flags & BufFlag::B_WANTED != 0),
            r.1 == (if old(self).swap_buf.b_flags & BufFlag::B_ERROR != 0 { Err::<(), BufferError>(BufferError::IoError) } else { Ok(()) }),
            final(self).swap_buf == (Buf { b_flags: old(self).swap_buf.b_flags & !(BufFlag::B_BUSY | BufFlag::B_WANTED), ..old(self).swap_buf }),
            final(self).bufs == old(self).bufs && final(self).free_list == old(self).free_list && final(self).dev_list == old(self).dev_list,
            final(self).free_wanted == old(self).free_wanted,
    {
        let f = self.swap_buf.b_flags;
        let wanted = f & BufFlag::B_WANTED != 0;
        self.swap_buf.b_flags = f & !(BufFlag::B_BUSY | BufFlag::B_WANTED);
        assert(((f & !(0x10u32 | 0x20u32)) & 8u32 != 0) == (f & 8u32 != 0)) by (bit_vector);
        let err = if self.swap_buf.b_flags & BufFlag::B_ERROR != 0 { Err(BufferError::IoError) } else { Ok(()) };
        (wanted, err)
    }

    proof fn lemma_wf_after_flag_change(&self, before: &Self, i: usize)
        requires
            i < Self::NBUF,
            before.bufs@.len() == Self::NBUF,
            self.bufs@.len() == Self::NBUF,
            index_list(self.free_list@, Self::NBUF as nat),
            index_list(self.dev_list@, Self::NBUF as nat),
            forall|j: int| 0 <= j < Self::NBUF && j != i ==> #[trigger] self.bufs@[j] == before.bufs@[j],
            forall|j: int| 0 <= j < Self::NBUF && j != i ==> (#[trigger] before.bufs@[j]).free_linked == self.free_list@.contains(j as usize),
            forall|j: int| 0 <= j < Self::NBUF && j != i ==> (#[trigger] before.bufs@[j]).device_linked == self.dev_list@.contains(j as usize),
            self.bufs@[i as int].free_linked == self.free_list@.contains(i),
            self.bufs@[i as int].device_linked == self.dev_list@.contains(i),
            self.bufs@[i as int].device_linked ==> device_valid(self.bufs@[i as int].b_queue_dev),
            forall|j: int| 0 <= j < Self::NBUF && j != i && (#[trigger] before.bufs@[j]).device_linked ==> device_valid(before.bufs@[j].b_queue_dev),
            blocks_unique(before.bufs@),
            unique_change_ok(before.bufs@, self.bufs@, i as int),
        ensures
            self.wf(),
    {
        lemma_unique_after_change(before.bufs@, self.bufs@, i as int);
        assert forall|j: int| 0 <= j < Self::NBUF implies (#[trigger] self.bufs@[j]).free_linked == self.free_list@.contains(j as usize) by {
            if j != i {
                assert(self.bufs@[j] == before.bufs@[j]);
            }
        }
        assert forall|j: int| 0 <= j < Self::NBUF implies (#[trigger] self.bufs@[j]).device_linked == self.dev_list@.contains(j as usize) by {
            if j != i {
                assert(self.bufs@[j] == before.bufs@[j]);
            }
        }
    }
}

impl Buf {
    pub open spec fn new_spec() -> Buf {
        Buf { b_flags: 0, b_dev: -1i16, b_queue_dev: -1i16, b_wcount: 0, b_blkno: PhysicalBlock(0), b_error: 0, b_resid: 0, free_linked: false, device_linked: false }
    }
}

/// Buffer `b` holds a delayed write (of `dev`, when given).
pub open spec fn delayed_of(b: Buf, dev: Option<DevId>) -> bool {
    (match dev { Some(d) => b.b_dev == d.0, None => true }) && b.b_flags & BufFlag::B_DELWRI != 0
}

proof fn lemma_removed_absent(s: Seq<usize>, v: usize, t: Seq<usize>, n: nat)
    requires
        index_list(s, n),
        removed(s, v, t),
    ensures
        !t.contains(v),
{
    if s.contains(v) {
        let k = choose|k: int| 0 <= k < s.len() && s[k] == v && t == s.remove(k);
        lemma_remove_index_list(s, k, n);
    }
}

/// `t` is `s` without its occurrence of `v`, if any.
pub open spec fn removed(s: Seq<usize>, v: usize, t: Seq<usize>) -> bool {
    &&& s.contains(v) ==> exists|k: int| 0 <= k < s.len() && s[k] == v && t == s.remove(k)
    &&& !s.contains(v) ==> t == s
}

proof fn lemma_remove_index_list(s: Seq<usize>, k: int, n: nat)
    requires
        index_list(s, n),
        0 <= k < s.len(),
    ensures
        index_list(s.remove(k), n),
        forall|x: usize| s.remove(k).contains(x) == (s.contains(x) && x != s[k]),
{
    let r = s.remove(k);
    assert forall|a: int, b: int| 0 <= a < b < r.len() implies #[trigger] r[a] != #[trigger] r[b] by {
        let ia = if a < k { a } else { a + 1 };
        let ib = if b < k { b } else { b + 1 };
        assert(r[a] == s[ia] && r[b] == s[ib]);
    }
    assert forall|x: usize| s.remove(k).contains(x) == (s.contains(x) && x != s[k]) by {
        if r.contains(x) {
            let a = choose|a: int| 0 <= a < r.len() && r[a] == x;
            let ia = if a < k { a } else { a + 1 };
            assert(s[ia] == x);
        }
        if s.contains(x) && x != s[k] {
            let a = choose|a: int| 0 <= a < s.len() && s[a] == x;
            let ra = if a < k { a } else { a - 1 };
            assert(r[ra] == x);
        }
    }
}

} // verus!
