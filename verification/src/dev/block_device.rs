use vstd::prelude::*;

verus! {

/// A block device's state: whether a transfer is active, its error count, and the
/// buffers waiting for a transfer, oldest first (each at most once).
pub struct Devtab {
    pub d_active: i32,
    pub d_errcnt: i32,
    pub io_queue: Vec<usize>,
}

/// `s` holds no element twice.
pub open spec fn no_dups(s: Seq<usize>) -> bool {
    forall|a: int, b: int| 0 <= a < b < s.len() ==> #[trigger] s[a] != #[trigger] s[b]
}

impl Devtab {
    /// Idle, no error, nothing queued.
    pub fn new() -> (r: Self)
        ensures
            r.d_active == 0 && r.d_errcnt == 0 && r.io_queue@.len() == 0,
    {
        Devtab { d_active: 0, d_errcnt: 0, io_queue: Vec::new() }
    }

    /// Takes the oldest queued buffer.
    pub fn pop_io_request(&mut self) -> (r: Option<usize>)
        requires
            no_dups(old(self).io_queue@),
        ensures
            no_dups(final(self).io_queue@),
            old(self).io_queue@.len() == 0 ==> r is None && final(self).io_queue@ == old(self).io_queue@,
            old(self).io_queue@.len() > 0 ==> r == Some(old(self).io_queue@[0]) && final(self).io_queue@ == old(self).io_queue@.drop_first(),
            final(self).d_active == old(self).d_active && final(self).d_errcnt == old(self).d_errcnt,
    {
        if self.io_queue.len() == 0 {
            return None;
        }
        let i = self.io_queue.remove(0);
        assert(self.io_queue@ =~= old(self).io_queue@.drop_first());
        assert forall|a: int, b: int| 0 <= a < b < self.io_queue@.len() implies #[trigger] self.io_queue@[a] != #[trigger] self.io_queue@[b] by {
            assert(self.io_queue@[a] == old(self).io_queue@[a + 1] && self.io_queue@[b] == old(self).io_queue@[b + 1]);
        }
        Some(i)
    }

    /// Queues buffer `i` unless it is queued already.
    pub fn push_io_request(&mut self, i: usize)
        requires
            no_dups(old(self).io_queue@),
        ensures
            no_dups(final(self).io_queue@),
            old(self).io_queue@.contains(i) ==> final(self).io_queue@ == old(self).io_queue@,
            !old(self).io_queue@.contains(i) ==> final(self).io_queue@ == old(self).io_queue@.push(i),
            final(self).d_active == old(self).d_active && final(self).d_errcnt == old(self).d_errcnt,
    {
        let mut k: usize = 0;
        while k < self.io_queue.len()
            invariant
                self.io_queue@ == old(self).io_queue@,
                no_dups(old(self).io_queue@),
                self.d_active == old(self).d_active && self.d_errcnt == old(self).d_errcnt,
                k <= self.io_queue@.len(),
                forall|j: int| 0 <= j < k ==> self.io_queue@[j] != i,
            decreases self.io_queue@.len() - k,
        {
            if self.io_queue[k] == i {
                return;
            }
            k = k + 1;
        }
        self.io_queue.push(i);
        assert forall|a: int, b: int| 0 <= a < b < self.io_queue@.len() implies #[trigger] self.io_queue@[a] != #[trigger] self.io_queue@[b] by {
            if b == old(self).io_queue@.len() {
                assert(self.io_queue@[a] == old(self).io_queue@[a]);
            } else {
                assert(self.io_queue@[a] == old(self).io_queue@[a] && self.io_queue@[b] == old(self).io_queue@[b]);
            }
        }
    }

    /// Queues buffer `i` for a transfer; returns whether the device is idle and must be
    /// started.
    pub fn strategy(&mut self, i: usize) -> (r: bool)
        requires
            no_dups(old(self).io_queue@),
        ensures
            no_dups(final(self).io_queue@),
            r == (old(self).d_active == 0),
            old(self).io_queue@.contains(i) ==> final(self).io_queue@ == old(self).io_queue@,
            !old(self).io_queue@.contains(i) ==> final(self).io_queue@ == old(self).io_queue@.push(i),
            final(self).d_active == old(self).d_active && final(self).d_errcnt == old(self).d_errcnt,
    {
        self.push_io_request(i);
        self.d_active == 0
    }

    /// Starts the next transfer of an idle device: the oldest queued buffer, now
    /// active; `None` when busy or nothing is queued.
    pub fn start_next(&mut self) -> (r: Option<usize>)
        requires
            no_dups(old(self).io_queue@),
        ensures
            no_dups(final(self).io_queue@),
            old(self).d_active != 0 || old(self).io_queue@.len() == 0 ==> r is None && final(self).io_queue@ == old(self).io_queue@
                && final(self).d_active == old(self).d_active,
            old(self).d_active == 0 && old(self).io_queue@.len() > 0 ==> r == Some(old(self).io_queue@[0])
                && final(self).io_queue@ == old(self).io_queue@.drop_first() && final(self).d_active == 1,
    {
        if self.d_active != 0 {
            return None;
        }
        match self.pop_io_request() {
            Some(i) => {
                self.d_active = 1;
                Some(i)
            },
            None => None,
        }
    }
}

/// A transfer of `wcount` bytes at block `blkno` runs past a disk of `capacity`
/// sectors.
pub fn out_of_range(blkno: u32, wcount: i32, capacity: u64) -> (r: bool)
    requires
        wcount >= 0,
    ensures
        r == (blkno as int + (wcount as int + 511) / 512 > capacity),
{
    let sectors = ((wcount as u64) + 511) / 512;
    (blkno as u64) + sectors > capacity
}

/// The block devices.
#[derive(Debug, Clone, Copy, PartialEq, Eq, Structural)]
pub enum BlockDev {
    /// The virtio disk.
    VirtIO,
}

/// The block device of major number `major`: the virtio disk for 0.
pub fn block_device_for_major(major: i16) -> (r: Option<BlockDev>)
    ensures
        r == (if major == 0 { Some(BlockDev::VirtIO) } else { None::<BlockDev> }),
{
    if major == 0 { Some(BlockDev::VirtIO) } else { None }
}

/// The block device of device number `dev` (by its major number).
pub fn block_device_for_dev(dev: i16) -> (r: Option<BlockDev>)
    ensures
        r == (if dev >> 8 == 0 { Some(BlockDev::VirtIO) } else { None::<BlockDev> }),
{
    block_device_for_major(crate::dev::device_manager::major(dev))
}

} // verus!
