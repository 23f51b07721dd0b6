use vstd::prelude::*;

use crate::constants::PosixError;
use crate::dev::buffer::DevId;
use crate::dev::device_manager::ROOTDEV;
use crate::fs::inode::{DiskInode, Inode, InodeFlag, PhysicalBlock, I_ADDR_SIZE};
use crate::fs::open_file_manager::{holds, IGet, InodeTable};

verus! {

/// Number of entries in the in-core free block and free inode lists.
pub const NICFREE: usize = 100;
/// Size of the super block on disk, in bytes (two sectors).
pub const SUPER_BLOCK_BYTES: usize = 1024;
/// Number of mount slots.
pub const NMOUNT: usize = 5;

/// Failures of the file system layer.
#[derive(Debug, Clone, Copy, PartialEq, Eq, Structural)]
pub enum FileSystemError {
    NoSuchFileSystem,
    LoadSuperBlockFailed,
    NoSpace,
    BadBlock,
    BufferUnavailable,
    InodeUnavailable,
}

/// The little-endian 32-bit integer at byte `off` of `b`.
pub open spec fn le_i32(b: Seq<u8>, off: int) -> i32 {
    (b[off] as u32 | ((b[off + 1] as u32) << 8u32) | ((b[off + 2] as u32) << 16u32) | ((
    b[off + 3] as u32) << 24u32)) as i32
}

/// The four little-endian bytes of `v`.
pub open spec fn le_bytes(v: i32) -> Seq<u8> {
    let u = v as u32;
    seq![(u & 0xff) as u8, ((u >> 8u32) & 0xff) as u8, ((u >> 16u32) & 0xff) as u8, ((u >> 24u32) & 0xff) as u8]
}

proof fn lemma_le_roundtrip(v: i32)
    ensures
        le_i32(le_bytes(v), 0) == v,
{
    let u = v as u32;
    let b0 = (u & 0xff) as u8;
    let b1 = ((u >> 8u32) & 0xff) as u8;
    let b2 = ((u >> 16u32) & 0xff) as u8;
    let b3 = ((u >> 24u32) & 0xff) as u8;
    assert(le_bytes(v)[0] == b0 && le_bytes(v)[1] == b1 && le_bytes(v)[2] == b2 && le_bytes(v)[3]
        == b3);
    assert((b0 as u32 | ((b1 as u32) << 8u32) | ((b2 as u32) << 16u32) | ((b3 as u32) << 24u32))
        == u && (u as i32) == v) by (bit_vector)
        requires
            u == v as u32,
            b0 == (u & 0xff) as u8,
            b1 == ((u >> 8u32) & 0xff) as u8,
            b2 == ((u >> 16u32) & 0xff) as u8,
            b3 == ((u >> 24u32) & 0xff) as u8,
    ;
}

fn read_le_i32(b: &[u8], off: usize) -> (r: i32)
    requires
        off + 4 <= b@.len(),
    ensures
        r == le_i32(b@, off as int),
{
    (b[off] as u32 | ((b[off + 1] as u32) << 8u32) | ((b[off + 2] as u32) << 16u32) | ((b[off
        + 3] as u32) << 24u32)) as i32
}

fn push_le_i32(out: &mut Vec<u8>, v: i32)
    ensures
        final(out)@ == old(out)@ + le_bytes(v),
{
    let u = v as u32;
    out.push((u & 0xff) as u8);
    out.push(((u >> 8u32) & 0xff) as u8);
    out.push(((u >> 16u32) & 0xff) as u8);
    out.push(((u >> 24u32) & 0xff) as u8);
    assert(out@ =~= old(out)@ + le_bytes(v));
}

/// The bytes `b` hold super block `d`: each of its words, little-endian, at its offset.
pub open spec fn super_block_bytes(b: Seq<u8>, d: DiskSuperBlock) -> bool {
    &&& le_i32(b, 0) == d.s_isize
    &&& le_i32(b, 4) == d.s_fsize
    &&& le_i32(b, 8) == d.s_nfree
    &&& forall|i: int| 0 <= i < NICFREE ==> #[trigger] le_i32(b, 12 + 4 * i) == d.s_free@[i]
    &&& le_i32(b, 412) == d.s_ninode
    &&& forall|i: int| 0 <= i < NICFREE ==> #[trigger] le_i32(b, 416 + 4 * i) == d.s_inode@[i]
    &&& le_i32(b, 816) == d.s_flock
    &&& le_i32(b, 820) == d.s_ilock
    &&& le_i32(b, 824) == d.s_fmod
    &&& le_i32(b, 828) == d.s_ronly
    &&& le_i32(b, 832) == d.s_time
}

/// Reading back the bytes a super block was written to gives that super block: the
/// super block that bytes hold (see `DiskSuperBlock::to_bytes` and
/// `DiskSuperBlock::from_bytes`) is the same, field for field.
pub proof fn law_super_block_bytes_roundtrip(b: Seq<u8>, written: DiskSuperBlock, read: DiskSuperBlock)
    requires
        written.wf(),
        read.wf(),
        super_block_bytes(b, written),
        super_block_bytes(b, read),
    ensures
        read.s_isize == written.s_isize && read.s_fsize == written.s_fsize && read.s_nfree == written.s_nfree,
        read.s_free@ == written.s_free@,
        read.s_ninode == written.s_ninode,
        read.s_inode@ == written.s_inode@,
        read.s_flock == written.s_flock && read.s_ilock == written.s_ilock,
        read.s_fmod == written.s_fmod && read.s_ronly == written.s_ronly && read.s_time == written.s_time,
{
    assert forall|i: int| 0 <= i < NICFREE implies read.s_free@[i] == written.s_free@[i] by {
        assert(le_i32(b, 12 + 4 * i) == read.s_free@[i]);
    }
    assert forall|i: int| 0 <= i < NICFREE implies read.s_inode@[i] == written.s_inode@[i] by {
        assert(le_i32(b, 416 + 4 * i) == read.s_inode@[i]);
    }
    assert(read.s_free@ =~= written.s_free@);
    assert(read.s_inode@ =~= written.s_inode@);
}

/// The super block as it lies on disk: 256 little-endian 32-bit words.
#[derive(Debug)]
pub struct DiskSuperBlock {
    /// Number of sectors of the inode zone.
    pub s_isize: i32,
    /// Number of sectors of the whole file system.
    pub s_fsize: i32,
    /// Number of entries used in `s_free`.
    pub s_nfree: i32,
    /// The free block stack; entry 0 names the block that holds the next group.
    pub s_free: Vec<i32>,
    /// Number of entries used in `s_inode`.
    pub s_ninode: i32,
    /// Free inode numbers.
    pub s_inode: Vec<i32>,
    pub s_flock: i32,
    pub s_ilock: i32,
    pub s_fmod: i32,
    pub s_ronly: i32,
    pub s_time: i32,
}

impl DiskSuperBlock {
    pub open spec fn wf(&self) -> bool {
        self.s_free@.len() == NICFREE && self.s_inode@.len() == NICFREE
    }

    /// Decodes the super block from the bytes of its two sectors.
    pub fn from_bytes(b: &[u8]) -> (r: Self)
        requires
            b@.len() >= SUPER_BLOCK_BYTES,
        ensures
            r.wf(),
            super_block_bytes(b@, r),
    {
        let mut s_free: Vec<i32> = Vec::new();
        let mut s_inode: Vec<i32> = Vec::new();
        let mut i: usize = 0;
        while i < NICFREE
            invariant
                i <= NICFREE,
                b@.len() >= SUPER_BLOCK_BYTES,
                s_free@.len() == i,
                s_inode@.len() == i,
                forall|j: int| 0 <= j < i ==> #[trigger] s_free@[j] == le_i32(b@, 12 + 4 * j),
                forall|j: int| 0 <= j < i ==> #[trigger] s_inode@[j] == le_i32(b@, 416 + 4 * j),
            decreases NICFREE - i,
        {
            s_free.push(read_le_i32(b, 12 + 4 * i));
            s_inode.push(read_le_i32(b, 416 + 4 * i));
            i = i + 1;
        }
        DiskSuperBlock {
            s_isize: read_le_i32(b, 0),
            s_fsize: read_le_i32(b, 4),
            s_nfree: read_le_i32(b, 8),
            s_free,
            s_ninode: read_le_i32(b, 412),
            s_inode,
            s_flock: read_le_i32(b, 816),
            s_ilock: read_le_i32(b, 820),
            s_fmod: read_le_i32(b, 824),
            s_ronly: read_le_i32(b, 828),
            s_time: read_le_i32(b, 832),
        }
    }

    /// Encodes the super block into the bytes of its two sectors (the padding is zero).
    pub fn to_bytes(&self) -> (r: Vec<u8>)
        requires
            self.wf(),
        ensures
            r@.len() == SUPER_BLOCK_BYTES,
            super_block_bytes(r@, *self),
            forall|i: int| 836 <= i < SUPER_BLOCK_BYTES ==> #[trigger] r@[i] == 0,
    {
        let mut out: Vec<u8> = Vec::new();
        push_le_i32(&mut out, self.s_isize);
        proof { lemma_le_at_end(Seq::empty(), self.s_isize); }
        let ghost b = out@;
        push_le_i32(&mut out, self.s_fsize);
        proof { lemma_append_keeps(b, le_bytes(self.s_fsize)); lemma_le_at_end(b, self.s_fsize); }
        let ghost b = out@;
        push_le_i32(&mut out, self.s_nfree);
        proof { lemma_append_keeps(b, le_bytes(self.s_nfree)); lemma_le_at_end(b, self.s_nfree); }
        let mut i: usize = 0;
        while i < NICFREE
            invariant
                self.wf(),
                i <= NICFREE,
                out@.len() == 12 + 4 * i,
                le_i32(out@, 0) == self.s_isize,
                le_i32(out@, 4) == self.s_fsize,
                le_i32(out@, 8) == self.s_nfree,
                forall|j: int| 0 <= j < i ==> #[trigger] le_i32(out@, 12 + 4 * j) == self.s_free@[j],
            decreases NICFREE - i,
        {
            let ghost before = out@;
            push_le_i32(&mut out, self.s_free[i]);
            proof {
                lemma_append_keeps(before, le_bytes(self.s_free@[i as int]));
                lemma_le_at_end(before, self.s_free@[i as int]);
                assert forall|j: int| 0 <= j < i + 1 implies #[trigger] le_i32(out@, 12 + 4 * j)
                    == self.s_free@[j] by {
                    if j < i {
                        assert(le_i32(out@, 12 + 4 * j) == le_i32(before, 12 + 4 * j));
                    }
                }
            }
            i = i + 1;
        }
        let ghost b = out@;
        push_le_i32(&mut out, self.s_ninode);
        proof {
            lemma_append_keeps(b, le_bytes(self.s_ninode));
            lemma_le_at_end(b, self.s_ninode);
            assert forall|j: int| 0 <= j < NICFREE implies #[trigger] le_i32(out@, 12 + 4 * j)
                == self.s_free@[j] by {
                assert(le_i32(out@, 12 + 4 * j) == le_i32(b, 12 + 4 * j));
            }
        }
        let mut i: usize = 0;
        while i < NICFREE
            invariant
                self.wf(),
                i <= NICFREE,
                out@.len() == 416 + 4 * i,
                le_i32(out@, 0) == self.s_isize,
                le_i32(out@, 4) == self.s_fsize,
                le_i32(out@, 8) == self.s_nfree,
                forall|j: int| 0 <= j < NICFREE ==> #[trigger] le_i32(out@, 12 + 4 * j) == self.s_free@[j],
                le_i32(out@, 412) == self.s_ninode,
                forall|j: int| 0 <= j < i ==> #[trigger] le_i32(out@, 416 + 4 * j) == self.s_inode@[j],
            decreases NICFREE - i,
        {
            let ghost before = out@;
            push_le_i32(&mut out, self.s_inode[i]);
            proof {
                lemma_append_keeps(before, le_bytes(self.s_inode@[i as int]));
                lemma_le_at_end(before, self.s_inode@[i as int]);
                assert forall|j: int| 0 <= j < NICFREE implies #[trigger] le_i32(out@, 12 + 4 * j)
                    == self.s_free@[j] by {
                    assert(le_i32(out@, 12 + 4 * j) == le_i32(before, 12 + 4 * j));
                }
                assert forall|j: int| 0 <= j < i + 1 implies #[trigger] le_i32(out@, 416 + 4 * j)
                    == self.s_inode@[j] by {
                    if j < i {
                        assert(le_i32(out@, 416 + 4 * j) == le_i32(before, 416 + 4 * j));
                    }
                }
            }
            i = i + 1;
        }
        let ghost b = out@;
        push_le_i32(&mut out, self.s_flock);
        proof { lemma_append_keeps(b, le_bytes(self.s_flock)); lemma_le_at_end(b, self.s_flock); }
        let ghost b = out@;
        push_le_i32(&mut out, self.s_ilock);
        proof { lemma_append_keeps(b, le_bytes(self.s_ilock)); lemma_le_at_end(b, self.s_ilock); }
        let ghost b = out@;
        push_le_i32(&mut out, self.s_fmod);
        proof { lemma_append_keeps(b, le_bytes(self.s_fmod)); lemma_le_at_end(b, self.s_fmod); }
        let ghost b = out@;
        push_le_i32(&mut out, self.s_ronly);
        proof { lemma_append_keeps(b, le_bytes(self.s_ronly)); lemma_le_at_end(b, self.s_ronly); }
        let ghost b = out@;
        push_le_i32(&mut out, self.s_time);
        proof { lemma_append_keeps(b, le_bytes(self.s_time)); lemma_le_at_end(b, self.s_time); }
        let ghost body = out@;
        while out.len() < SUPER_BLOCK_BYTES
            invariant
                body.len() == 836,
                836 <= out@.len() <= SUPER_BLOCK_BYTES,
                out@.take(836) == body,
                forall|j: int| 836 <= j < out@.len() ==> #[trigger] out@[j] == 0,
            decreases SUPER_BLOCK_BYTES - out@.len(),
        {
            out.push(0);
            assert(out@.take(836) =~= body);
        }
        proof {
            lemma_le_prefix(body, out@);
            assert(body.take(836) =~= body);
            assert forall|j: int| 0 <= j < NICFREE implies #[trigger] le_i32(out@, 12 + 4 * j)
                == self.s_free@[j] by {
                assert(le_i32(out@, 12 + 4 * j) == le_i32(body, 12 + 4 * j));
            }
            assert forall|j: int| 0 <= j < NICFREE implies #[trigger] le_i32(out@, 416 + 4 * j)
                == self.s_inode@[j] by {
                assert(le_i32(out@, 416 + 4 * j) == le_i32(body, 416 + 4 * j));
            }
        }
        out
    }
}

proof fn lemma_append_keeps(a: Seq<u8>, x: Seq<u8>)
    ensures
        forall|off: int| 0 <= off && off + 4 <= a.len() ==> #[trigger] le_i32(a + x, off) == le_i32(a, off),
{
    assert forall|off: int| 0 <= off && off + 4 <= a.len() implies #[trigger] le_i32(a + x, off)
        == le_i32(a, off) by {
        assert((a + x)[off] == a[off]);
        assert((a + x)[off + 1] == a[off + 1]);
        assert((a + x)[off + 2] == a[off + 2]);
        assert((a + x)[off + 3] == a[off + 3]);
    }
}

proof fn lemma_le_at_end(a: Seq<u8>, v: i32)
    ensures
        le_i32(a + le_bytes(v), a.len() as int) == v,
{
    lemma_le_roundtrip(v);
    let c = a + le_bytes(v);
    let n = a.len() as int;
    assert(c[n] == le_bytes(v)[0]);
    assert(c[n + 1] == le_bytes(v)[1]);
    assert(c[n + 2] == le_bytes(v)[2]);
    assert(c[n + 3] == le_bytes(v)[3]);
}

proof fn lemma_le_prefix(body: Seq<u8>, full: Seq<u8>)
    requires
        body.len() <= full.len(),
        full.take(body.len() as int) == body,
    ensures
        forall|off: int| 0 <= off && off + 4 <= body.len() ==> #[trigger] le_i32(full, off) == le_i32(body, off),
{
    assert forall|off: int| 0 <= off && off + 4 <= body.len() implies #[trigger] le_i32(full, off)
        == le_i32(body, off) by {
        assert(full[off] == full.take(body.len() as int)[off]);
        assert(full[off + 1] == full.take(body.len() as int)[off + 1]);
        assert(full[off + 2] == full.take(body.len() as int)[off + 2]);
        assert(full[off + 3] == full.take(body.len() as int)[off + 3]);
    }
}


/// The abstract state of a mounted super block.
pub ghost struct SuperBlockView {
    pub isize: i32,
    pub fsize: i32,
    pub nfree: i32,
    pub free: Seq<i32>,
    pub ninode: i32,
    pub inode: Seq<i32>,
    pub time: i32,
    pub free_lock: bool,
    pub inode_lock: bool,
    pub modified: bool,
    pub readonly: bool,
}

impl SuperBlockView {
    pub open spec fn wf(self) -> bool {
        self.free.len() == NICFREE && self.inode.len() == NICFREE
    }

    /// The counts are within the lists (as `FileSystem::get_fs` leaves them).
    pub open spec fn counts_in_range(self) -> bool {
        self.nfree <= NICFREE && self.ninode <= NICFREE
    }
}

/// The in-core super block of a mounted file system.
pub struct SuperBlock {
    disk: DiskSuperBlock,
    free_lock: bool,
    inode_lock: bool,
    modified: bool,
    readonly: bool,
}

impl View for SuperBlock {
    type V = SuperBlockView;

    closed spec fn view(&self) -> SuperBlockView {
        SuperBlockView {
            isize: self.disk.s_isize,
            fsize: self.disk.s_fsize,
            nfree: self.disk.s_nfree,
            free: self.disk.s_free@,
            ninode: self.disk.s_ninode,
            inode: self.disk.s_inode@,
            time: self.disk.s_time,
            free_lock: self.free_lock,
            inode_lock: self.inode_lock,
            modified: self.modified,
            readonly: self.readonly,
        }
    }
}

/// The effect of taking a block off the free list (see `SuperBlock::alloc_take`).
pub open spec fn alloc_take_spec(v: SuperBlockView) -> (SuperBlockView, Result<(i32, bool), FileSystemError>) {
    if v.nfree <= 0 {
        (v, Err(FileSystemError::NoSpace))
    } else {
        let n = v.nfree - 1;
        let blkno = v.free[n];
        if blkno == 0 {
            (SuperBlockView { nfree: 0, ..v }, Err(FileSystemError::NoSpace))
        } else if n <= 0 {
            (SuperBlockView { nfree: n as i32, free_lock: true, ..v }, Ok((blkno, true)))
        } else {
            (SuperBlockView { nfree: n as i32, ..v }, Ok((blkno, false)))
        }
    }
}

/// The effect of preparing to free a block (see `SuperBlock::free_prepare`).
pub open spec fn free_prepare_spec(v: SuperBlockView) -> (SuperBlockView, Option<Seq<i32>>) {
    let v1 = SuperBlockView { modified: true, ..v };
    let v2 = if v1.nfree <= 0 { SuperBlockView { nfree: 1, free: v1.free.update(0, 0), ..v1 } } else { v1 };
    if v2.nfree >= NICFREE {
        (SuperBlockView { free_lock: true, ..v2 }, Some(seq![v2.nfree] + v2.free))
    } else {
        (v2, None)
    }
}

/// The effect of pushing a block on the free list (see `SuperBlock::free_push`).
pub open spec fn free_push_spec(v: SuperBlockView, blkno: i32) -> SuperBlockView {
    SuperBlockView { free: v.free.update(v.nfree as int, blkno), nfree: (v.nfree + 1) as i32, modified: true, ..v }
}

/// `d` is the disk image of super block `sb`: the same lists, counts and time, the
/// lock words cleared, and the modified and read-only flags as words.
pub open spec fn disk_image_of(d: DiskSuperBlock, sb: SuperBlockView) -> bool {
    &&& d.wf()
    &&& d.s_isize == sb.isize
    &&& d.s_fsize == sb.fsize
    &&& d.s_nfree == sb.nfree
    &&& d.s_free@ == sb.free
    &&& d.s_ninode == sb.ninode
    &&& d.s_inode@ == sb.inode
    &&& d.s_time == sb.time
    &&& d.s_flock == 0
    &&& d.s_ilock == 0
    &&& d.s_fmod == (if sb.modified { 1i32 } else { 0i32 })
    &&& d.s_ronly == (if sb.readonly { 1i32 } else { 0i32 })
}

impl SuperBlock {
    /// The in-core super block made from its disk image at mount time `time`:
    /// the lock words are cleared and the time stamped.
    pub fn from_disk(disk: DiskSuperBlock, time: i32) -> (r: Self)
        requires
            disk.wf(),
        ensures
            r@.wf(),
            r@ == (SuperBlockView {
                isize: disk.s_isize,
                fsize: disk.s_fsize,
                nfree: disk.s_nfree,
                free: disk.s_free@,
                ninode: disk.s_ninode,
                inode: disk.s_inode@,
                time,
                free_lock: false,
                inode_lock: false,
                modified: disk.s_fmod != 0,
                readonly: disk.s_ronly != 0,
            }),
    {
        let mut disk = disk;
        let readonly = disk.s_ronly != 0;
        let modified = disk.s_fmod != 0;
        disk.s_flock = 0;
        disk.s_ilock = 0;
        disk.s_time = time;
        SuperBlock { disk, free_lock: false, inode_lock: false, modified, readonly }
    }

    /// The disk image to write back: lock words cleared, modified and read-only flags as words.
    pub fn to_disk(&self) -> (r: DiskSuperBlock)
        requires
            self@.wf(),
        ensures
            disk_image_of(r, self@),
    {
        DiskSuperBlock {
            s_isize: self.disk.s_isize,
            s_fsize: self.disk.s_fsize,
            s_nfree: self.disk.s_nfree,
            s_free: copy_vec(&self.disk.s_free),
            s_ninode: self.disk.s_ninode,
            s_inode: copy_vec(&self.disk.s_inode),
            s_flock: 0,
            s_ilock: 0,
            s_fmod: if self.modified { 1 } else { 0 },
            s_ronly: if self.readonly { 1 } else { 0 },
            s_time: self.disk.s_time,
        }
    }

    pub fn is_readonly(&self) -> (r: bool)
        ensures
            r == self@.readonly,
    {
        self.readonly
    }

    pub fn is_modified(&self) -> (r: bool)
        ensures
            r == self@.modified,
    {
        self.modified
    }

    /// The free block list is locked (being refilled or spilled).
    pub fn is_flock(&self) -> (r: bool)
        ensures
            r == self@.free_lock,
    {
        self.free_lock
    }

    /// The free inode list is locked (being refilled).
    pub fn is_ilock(&self) -> (r: bool)
        ensures
            r == self@.inode_lock,
    {
        self.inode_lock
    }

    pub fn isize(&self) -> (r: i32)
        ensures
            r == self@.isize,
    {
        self.disk.s_isize
    }

    pub fn set_modified(&mut self, modified: bool)
        ensures
            final(self)@ == (SuperBlockView { modified, ..old(self)@ }),
    {
        self.modified = modified;
    }

    pub fn set_time(&mut self, time: i32)
        ensures
            final(self)@ == (SuperBlockView { time, ..old(self)@ }),
    {
        self.disk.s_time = time;
    }

    pub fn lock_inode_list(&mut self)
        ensures
            final(self)@ == (SuperBlockView { inode_lock: true, ..old(self)@ }),
    {
        self.inode_lock = true;
    }

    pub fn unlock_inode_list(&mut self)
        ensures
            final(self)@ == (SuperBlockView { inode_lock: false, ..old(self)@ }),
    {
        self.inode_lock = false;
    }

    pub fn unlock_free_list(&mut self)
        ensures
            final(self)@ == (SuperBlockView { free_lock: false, ..old(self)@ }),
    {
        self.free_lock = false;
    }

    /// Counts beyond the lists are garbage: both are reset to 0.
    pub fn normalize_counts(&mut self)
        ensures
            old(self)@.counts_in_range() ==> final(self)@ == old(self)@,
            !old(self)@.counts_in_range() ==> final(self)@ == (SuperBlockView { nfree: 0, ninode: 0, ..old(self)@ }),
            final(self)@.counts_in_range(),
    {
        if self.disk.s_nfree > 100 || self.disk.s_ninode > 100 {
            self.disk.s_nfree = 0;
            self.disk.s_ninode = 0;
        }
    }

    /// Takes the block on top of the free list.
    ///
    /// `NoSpace` when the list is empty or its top is block 0 (the end of the chain;
    /// the list is then emptied). Otherwise the block number, and whether the list must
    /// now be refilled from that block (the last entry names the block that holds the
    /// next group); the list is then locked until `alloc_refill`.
    pub fn alloc_take(&mut self) -> (r: Result<(i32, bool), FileSystemError>)
        requires
            old(self)@.wf(),
            old(self)@.counts_in_range(),
        ensures
            (final(self)@, r) == alloc_take_spec(old(self)@),
            final(self)@.wf(),
    {
        if self.disk.s_nfree <= 0 {
            return Err(FileSystemError::NoSpace);
        }
        self.disk.s_nfree = self.disk.s_nfree - 1;
        let blkno = self.disk.s_free[self.disk.s_nfree as usize];
        if blkno == 0 {
            self.disk.s_nfree = 0;
            return Err(FileSystemError::NoSpace);
        }
        if self.disk.s_nfree <= 0 {
            self.free_lock = true;
            return Ok((blkno, true));
        }
        Ok((blkno, false))
    }

    /// Reloads the free list from `table`, the contents of the block that `alloc_take`
    /// returned: word 0 is the count, words 1 to 100 the list. Unlocks the list.
    pub fn alloc_refill(&mut self, table: &[i32])
        requires
            old(self)@.wf(),
            table@.len() >= NICFREE + 1,
        ensures
            final(self)@.wf(),
            final(self)@ == (SuperBlockView {
                nfree: table@[0],
                free: table@.subrange(1, NICFREE as int + 1),
                free_lock: false,
                ..old(self)@
            }),
    {
        self.disk.s_nfree = table[0];
        let mut i: usize = 0;
        while i < NICFREE
            invariant
                i <= NICFREE,
                table@.len() >= NICFREE + 1,
                self.disk.s_free@.len() == NICFREE,
                forall|j: int| 0 <= j < i ==> #[trigger] self.disk.s_free@[j] == table@[j + 1],
                self@ == (SuperBlockView { nfree: table@[0], free: self.disk.s_free@, ..old(self)@ }),
            decreases NICFREE - i,
        {
            self.disk.s_free.set(i, table[i + 1]);
            i = i + 1;
        }
        assert(self.disk.s_free@ =~= table@.subrange(1, NICFREE as int + 1));
        self.free_lock = false;
    }

    /// First half of freeing a block: marks the super block modified, starts an empty
    /// list with the end-of-chain marker 0, and when the list is full returns the table
    /// (count, then the list) that must be written into the freed block before it is
    /// pushed; the list is then locked until `free_spilled`.
    pub fn free_prepare(&mut self) -> (r: Option<Vec<i32>>)
        requires
            old(self)@.wf(),
            old(self)@.counts_in_range(),
        ensures
            final(self)@.wf(),
            final(self)@ == free_prepare_spec(old(self)@).0,
            match r {
                Some(t) => free_prepare_spec(old(self)@).1 == Some(t@),
                None => free_prepare_spec(old(self)@).1 is None,
            },
    {
        self.modified = true;
        if self.disk.s_nfree <= 0 {
            self.disk.s_nfree = 1;
            self.disk.s_free.set(0, 0);
        }
        if self.disk.s_nfree >= 100 {
            self.free_lock = true;
            let mut t: Vec<i32> = Vec::new();
            t.push(self.disk.s_nfree);
            let mut i: usize = 0;
            while i < NICFREE
                invariant
                    i <= NICFREE,
                    self.disk.s_free@.len() == NICFREE,
                    t@ == seq![self.disk.s_nfree] + self.disk.s_free@.take(i as int),
                decreases NICFREE - i,
            {
                t.push(self.disk.s_free[i]);
                i = i + 1;
                assert(t@ =~= seq![self.disk.s_nfree] + self.disk.s_free@.take(i as int));
            }
            assert(self.disk.s_free@.take(NICFREE as int) =~= self.disk.s_free@);
            return Some(t);
        }
        None
    }

    /// The full list has been written into the freed block: the list starts over empty.
    pub fn free_spilled(&mut self)
        ensures
            final(self)@ == (SuperBlockView { nfree: 0, free_lock: false, ..old(self)@ }),
    {
        self.disk.s_nfree = 0;
        self.free_lock = false;
    }

    /// Second half of freeing a block: pushes `blkno` on the free list.
    pub fn free_push(&mut self, blkno: i32)
        requires
            old(self)@.wf(),
            0 <= old(self)@.nfree < NICFREE,
        ensures
            final(self)@.wf(),
            final(self)@ == free_push_spec(old(self)@, blkno),
    {
        let idx = self.disk.s_nfree as usize;
        self.disk.s_free.set(idx, blkno);
        self.disk.s_nfree = self.disk.s_nfree + 1;
        self.modified = true;
    }

    /// Returns inode `number` to the free inode list. Nothing happens while the list is
    /// locked (being refilled from disk) or when it is full: the inode is then found
    /// again by the next scan.
    pub fn free_inode(&mut self, number: i32)
        requires
            old(self)@.wf(),
            old(self)@.inode_lock || old(self)@.ninode >= 0,
        ensures
            final(self)@.wf(),
            old(self)@.inode_lock || old(self)@.ninode >= NICFREE ==> final(self)@ == old(self)@,
            !(old(self)@.inode_lock || old(self)@.ninode >= NICFREE) ==> final(self)@ == (SuperBlockView {
                inode: old(self)@.inode.update(old(self)@.ninode as int, number),
                ninode: (old(self)@.ninode + 1) as i32,
                modified: true,
                ..old(self)@
            }),
    {
        if self.inode_lock || self.disk.s_ninode >= 100 {
            return;
        }
        let idx = self.disk.s_ninode as usize;
        self.disk.s_inode.set(idx, number);
        self.disk.s_ninode = self.disk.s_ninode + 1;
        self.modified = true;
    }

    /// Takes the inode number on top of the free inode list; `None` when it is empty.
    pub fn take_free_inode(&mut self) -> (r: Option<i32>)
        requires
            old(self)@.wf(),
            old(self)@.counts_in_range(),
        ensures
            final(self)@.wf(),
            old(self)@.ninode <= 0 ==> r is None && final(self)@ == old(self)@,
            old(self)@.ninode > 0 ==> r == Some(old(self)@.inode[old(self)@.ninode - 1])
                && final(self)@ == (SuperBlockView { ninode: (old(self)@.ninode - 1) as i32, ..old(self)@ }),
    {
        if self.disk.s_ninode <= 0 {
            return None;
        }
        self.disk.s_ninode = self.disk.s_ninode - 1;
        Some(self.disk.s_inode[self.disk.s_ninode as usize])
    }

    /// Installs the result of a scan of the inode zone as the free inode list.
    pub fn install_free_inodes(&mut self, ninode: i32, inode: &[i32])
        requires
            old(self)@.wf(),
            inode@.len() == NICFREE,
        ensures
            final(self)@.wf(),
            final(self)@ == (SuperBlockView { ninode, inode: inode@, ..old(self)@ }),
    {
        self.disk.s_ninode = ninode;
        self.disk.s_inode = slice_to_vec(inode);
    }
}

fn copy_vec(v: &Vec<i32>) -> (r: Vec<i32>)
    ensures
        r@ == v@,
{
    slice_to_vec(v.as_slice())
}

fn slice_to_vec(v: &[i32]) -> (r: Vec<i32>)
    ensures
        r@ == v@,
{
    let mut r: Vec<i32> = Vec::new();
    let mut i: usize = 0;
    while i < v.len()
        invariant
            i <= v@.len(),
            r@ == v@.take(i as int),
        decreases v@.len() - i,
    {
        r.push(v[i]);
        i = i + 1;
        assert(r@ =~= v@.take(i as int));
    }
    assert(v@.take(v@.len() as int) =~= v@);
    r
}

/// Inode numbers `< mode.len()` that are free on disk (mode 0) and not in core, in
/// ascending order.
pub open spec fn free_inode_numbers(modes: Seq<u32>, in_core: Seq<bool>, n: int) -> Seq<i32>
    decreases n,
{
    if n <= 0 {
        Seq::empty()
    } else {
        let prev = free_inode_numbers(modes, in_core, n - 1);
        if modes[n - 1] == 0 && !in_core[n - 1] {
            prev.push((n - 1) as i32)
        } else {
            prev
        }
    }
}

/// Picks the first (at most 100) free inodes of a scan of the inode zone.
///
/// `modes[i]` is the mode word of disk inode `i`, `in_core[i]` tells whether inode `i` is
/// in the inode table. Returns the count and the 100-entry list (zero padded).
pub fn pick_free_inodes(modes: &[u32], in_core: &[bool]) -> (r: (i32, Vec<i32>))
    requires
        modes@.len() == in_core@.len(),
        modes@.len() <= i32::MAX,
    ensures
        r.1@.len() == NICFREE,
        ({
            let all = free_inode_numbers(modes@, in_core@, modes@.len() as int);
            let k = if all.len() < NICFREE { all.len() as int } else { NICFREE as int };
            &&& r.0 == k
            &&& r.1@.take(k) == all.take(k)
            &&& forall|j: int| k <= j < NICFREE ==> #[trigger] r.1@[j] == 0
        }),
{
    let mut list: Vec<i32> = Vec::new();
    let mut ino: usize = 0;
    let n = modes.len();
    while ino < n && list.len() < NICFREE
        invariant
            n == modes@.len(),
            n == in_core@.len(),
            n <= i32::MAX,
            ino <= n,
            list@.len() <= NICFREE,
            ({
                let all = free_inode_numbers(modes@, in_core@, ino as int);
                list@ == all
            }),
        decreases n - ino,
    {
        if modes[ino] == 0 && !in_core[ino] {
            list.push(ino as i32);
        }
        ino = ino + 1;
    }
    proof {
        lemma_free_inode_numbers_grow(modes@, in_core@, ino as int, n as int);
    }
    let count = list.len() as i32;
    let ghost k = list@.len();
    while list.len() < NICFREE
        invariant
            k <= list@.len() <= NICFREE,
            forall|j: int| k <= j < list@.len() ==> #[trigger] list@[j] == 0,
            list@.take(k as int) == free_inode_numbers(modes@, in_core@, ino as int),
        decreases NICFREE - list@.len(),
    {
        list.push(0);
        assert(list@.take(k as int) =~= list@.drop_last().take(k as int));
    }
    (count, list)
}

/// The free inodes of a longer prefix of the scan extend those of a shorter one.
proof fn lemma_free_inode_numbers_grow(modes: Seq<u32>, in_core: Seq<bool>, a: int, b: int)
    requires
        0 <= a <= b,
        b <= modes.len(),
        b <= in_core.len(),
    ensures
        free_inode_numbers(modes, in_core, a).len() <= free_inode_numbers(modes, in_core, b).len(),
        free_inode_numbers(modes, in_core, b).take(free_inode_numbers(modes, in_core, a).len() as int)
            == free_inode_numbers(modes, in_core, a),
        free_inode_numbers(modes, in_core, a).len() >= NICFREE ==> free_inode_numbers(modes, in_core, b).take(NICFREE as int)
            == free_inode_numbers(modes, in_core, a).take(NICFREE as int),
    decreases b - a,
{
    if a < b {
        lemma_free_inode_numbers_grow(modes, in_core, a, b - 1);
        let fa = free_inode_numbers(modes, in_core, a);
        let fb1 = free_inode_numbers(modes, in_core, b - 1);
        let fb = free_inode_numbers(modes, in_core, b);
        assert(fb.take(fa.len() as int) =~= fb1.take(fa.len() as int));
        if fa.len() >= NICFREE {
            assert(fb.take(NICFREE as int) =~= fb1.take(NICFREE as int));
            assert(fb1.take(NICFREE as int) =~= fb1.take(fa.len() as int).take(NICFREE as int));
            assert(fa.take(NICFREE as int) =~= fa.take(NICFREE as int));
        }
    } else {
        assert(free_inode_numbers(modes, in_core, b).take(free_inode_numbers(modes, in_core, a).len() as int)
            =~= free_inode_numbers(modes, in_core, a));
    }
}

/// A block freed onto a list that has room is the next block allocated, and taking it
/// leaves the list as it was before the free.
pub proof fn law_free_then_alloc(v: SuperBlockView, blkno: i32)
    requires
        v.wf(),
        v.counts_in_range(),
        !v.free_lock,
        v.nfree < NICFREE,
        blkno != 0,
    ensures
        ({
            let (v1, spill) = free_prepare_spec(v);
            let v2 = free_push_spec(v1, blkno);
            let (v3, r) = alloc_take_spec(v2);
            let (v4, s) = alloc_step_spec(v2);
            &&& spill is None
            &&& r == Ok::<(i32, bool), FileSystemError>((blkno, false))
            &&& s == Ok::<AllocStep, FileSystemError>(AllocStep::Block(blkno))
            &&& v4.nfree == v1.nfree && v4.free.take(v4.nfree as int) == v1.free.take(v1.nfree as int)
        }),
{
    let (v1, spill) = free_prepare_spec(v);
    assert(v1.nfree >= 1 && v1.nfree < NICFREE);
    let v2 = free_push_spec(v1, blkno);
    assert(v2.free[v2.nfree - 1] == blkno);
    let (v4, s) = alloc_step_spec(v2);
    assert(v4.free.take(v4.nfree as int) =~= v1.free.take(v1.nfree as int));
}


impl FileSystemError {
    /// The error number reported to user programs.
    pub open spec fn spec_to_posix(self) -> PosixError {
        match self {
            FileSystemError::NoSpace => PosixError::ENOSPC,
            FileSystemError::InodeUnavailable => PosixError::ENFILE,
            _ => PosixError::EIO,
        }
    }

    /// The error number reported to user programs.
    pub fn to_posix(self) -> (r: PosixError)
        ensures
            r == self.spec_to_posix(),
    {
        match self {
            FileSystemError::NoSpace => PosixError::ENOSPC,
            FileSystemError::InodeUnavailable => PosixError::ENFILE,
            _ => PosixError::EIO,
        }
    }
}

/// The abstract state of a mount slot.
pub ghost struct MountView {
    pub dev: DevId,
    pub spb: Option<SuperBlockView>,
    pub inode: Option<(DevId, i32)>,
}

/// The mount takes part in a sync: its super block is modified, unlocked and writable.
pub open spec fn to_sync(m: MountView) -> bool {
    m.spb matches Some(sb) && sb.modified && !sb.inode_lock && !sb.free_lock && !sb.readonly
}

/// The mount after a sync at time `time`: a super block that takes part is clean and
/// stamped with the time.
pub open spec fn synced_mount(m: MountView, time: i32) -> MountView {
    if to_sync(m) {
        MountView { spb: Some(SuperBlockView { modified: false, time, ..m.spb->0 }), ..m }
    } else {
        m
    }
}

/// The super blocks that a sync at time `time` writes back, in mount order, with their
/// devices.
pub open spec fn synced_list(ms: Seq<MountView>, time: i32) -> Seq<(DevId, SuperBlockView)>
    decreases ms.len(),
{
    if ms.len() == 0 {
        Seq::empty()
    } else {
        let rest = synced_list(ms.drop_last(), time);
        let m = ms.last();
        if to_sync(m) { rest.push((m.dev, synced_mount(m, time).spb->0)) } else { rest }
    }
}

/// What allocating a block asks of the caller.
#[derive(Debug, Clone, Copy, PartialEq, Eq, Structural)]
pub enum AllocStep {
    /// The free list is being reloaded: sleep on it and ask again.
    Wait,
    /// Block `b` is allocated: get its buffer, clear it (`BufferManager::clr_buf`) and
    /// finish with `alloc_done`.
    Block(i32),
    /// Block `b` is allocated and holds the next group of free blocks: read it, reload
    /// the list from it (`alloc_refilled`, also when the read fails), wake the sleepers
    /// on the list, then go on as for `Block`.
    Refill(i32),
}

/// What asking for a block does to super block `v` and returns: `Wait` while the free
/// list is locked, otherwise the block taken off the list (see `alloc_take_spec`).
pub open spec fn alloc_step_spec(v: SuperBlockView) -> (SuperBlockView, Result<AllocStep, FileSystemError>) {
    if v.free_lock {
        (v, Ok(AllocStep::Wait))
    } else {
        let (v2, t) = alloc_take_spec(v);
        match t {
            Ok((b, refill)) => (v2, Ok(if refill { AllocStep::Refill(b) } else { AllocStep::Block(b) })),
            Err(e) => (v2, Err(e)),
        }
    }
}

/// What allocating an inode asks of the caller.
#[derive(Debug, Clone, Copy, PartialEq, Eq, Structural)]
pub enum IallocStep {
    /// The free inode list is being reloaded: sleep on it and ask again.
    Wait,
    /// The list is empty and now locked: read the mode words of the disk inodes in the
    /// `isize` sectors of the inode zone and finish with `i_alloc_scan`.
    Scan { isize: i32 },
    /// Inode `ino` is taken off the list: finish with `i_alloc_take`.
    Take(i32),
}

/// What asking for an inode does to super block `v` and returns: `Wait` while the
/// inode list is locked, the top of a non-empty list, or a scan of the inode zone for
/// an empty one (the list is then locked).
pub open spec fn i_alloc_step_spec(v: SuperBlockView) -> (SuperBlockView, IallocStep) {
    if v.inode_lock {
        (v, IallocStep::Wait)
    } else if v.ninode > 0 {
        (SuperBlockView { ninode: (v.ninode - 1) as i32, ..v }, IallocStep::Take(v.inode[v.ninode - 1]))
    } else {
        (SuperBlockView { inode_lock: true, ..v }, IallocStep::Scan { isize: v.isize })
    }
}

/// What freeing a block asks of the caller.
#[derive(Debug)]
pub enum FreeStep {
    /// The free list is being reloaded: sleep on it and ask again.
    Wait,
    /// The block is on the free list.
    Done,
    /// The free list is full and now locked: write these words (the count, then the
    /// list) into the freed block, then finish with `free_spilled`.
    Spill(Vec<i32>),
}

/// For each inode number below `n`: whether inode table `t` holds it for `dev`.
pub open spec fn in_core_marks(t: Seq<Inode>, dev: DevId, n: int) -> Seq<bool> {
    Seq::new(n as nat, |i: int| exists|j: int| 0 <= j < InodeTable::NINODE && #[trigger] holds(t, j, dev, i as i32))
}

/// The free inode list that a scan finding the free inodes `all` installs: the first
/// (at most 100) of them, zero padded.
pub open spec fn scanned_list(all: Seq<i32>) -> Seq<i32> {
    Seq::new(NICFREE as nat, |j: int| if j < all.len() { all[j] } else { 0 })
}

/// Every inode number a scan finds free is below `n`, with mode 0 and not in core.
proof fn lemma_free_inode_numbers_free(modes: Seq<u32>, in_core: Seq<bool>, n: int)
    requires
        0 <= n <= modes.len(),
        n <= in_core.len(),
        n <= i32::MAX + 1,
    ensures
        forall|j: int| 0 <= j < free_inode_numbers(modes, in_core, n).len() ==> {
            let ino = #[trigger] free_inode_numbers(modes, in_core, n)[j];
            0 <= ino < n && modes[ino as int] == 0 && !in_core[ino as int]
        },
    decreases n,
{
    if n > 0 {
        lemma_free_inode_numbers_free(modes, in_core, n - 1);
        let prev = free_inode_numbers(modes, in_core, n - 1);
        let cur = free_inode_numbers(modes, in_core, n);
        assert forall|j: int| 0 <= j < cur.len() implies {
            let ino = #[trigger] cur[j];
            0 <= ino < n && modes[ino as int] == 0 && !in_core[ino as int]
        } by {
            if j < prev.len() {
                assert(cur[j] == prev[j]);
            } else {
                assert(cur[j] == (n - 1) as i32);
            }
        }
    }
}

/// After a scan that found free inodes, the next allocation takes one of them: an inode
/// number whose disk mode is 0 and that is not in core.
pub proof fn law_scan_then_take(sb: SuperBlockView, modes: Seq<u32>, in_core: Seq<bool>)
    requires
        sb.counts_in_range(),
        modes.len() == in_core.len(),
        modes.len() <= i32::MAX,
        free_inode_numbers(modes, in_core, modes.len() as int).len() > 0,
    ensures
        ({
            let all = free_inode_numbers(modes, in_core, modes.len() as int);
            let k = if all.len() < NICFREE { all.len() as int } else { NICFREE as int };
            let sb1 = SuperBlockView { inode_lock: false, ninode: k as i32, inode: scanned_list(all), ..sb };
            let (sb2, step) = i_alloc_step_spec(normalized(sb1));
            step matches IallocStep::Take(ino) && 0 <= ino < modes.len() && modes[ino as int] == 0 && !in_core[ino as int]
        }),
{
    let all = free_inode_numbers(modes, in_core, modes.len() as int);
    lemma_free_inode_numbers_free(modes, in_core, modes.len() as int);
    let k = if all.len() < NICFREE { all.len() as int } else { NICFREE as int };
    let ino = all[k - 1];
    assert(scanned_list(all)[k - 1] == ino);
}

/// What taking inode number `ino` off the free list came to (see
/// `FileSystem::i_alloc_take`).
#[derive(Debug, Clone, Copy, PartialEq, Eq, Structural)]
pub enum IallocTake {
    /// The inode is free: it is allocated, cleaned and locked in this slot of the inode
    /// table.
    Allocated(usize),
    /// The inode is in use after all (the list was stale): the caller puts its reference
    /// in this slot back and takes the next number with `i_alloc_next`.
    InUse(usize),
    /// The inode is locked in core: the caller sleeps on it and takes `ino` again.
    Locked,
}

/// Inode `n` has had its file part cleared (see `Inode::clean`): no mode, no links, no
/// owner, no size, no blocks.
pub open spec fn cleaned(n: Inode) -> bool {
    &&& n.i_mode == 0 && n.i_nlink == 0 && n.i_uid == -1 && n.i_gid == -1 && n.i_size == 0 && n.i_lastr == -1
    &&& forall|k: int| 0 <= k < I_ADDR_SIZE ==> #[trigger] n.i_addr@[k] == PhysicalBlock(0)
}

/// `sb` with its counts reset when out of range (as `FileSystem::get_fs` leaves it).
pub open spec fn normalized(sb: SuperBlockView) -> SuperBlockView {
    if sb.counts_in_range() { sb } else { SuperBlockView { nfree: 0, ninode: 0, ..sb } }
}

/// A mount slot: the device, its super block, and the inode it is mounted on.
pub struct Mount {
    pub m_dev: DevId,
    pub m_spb: Option<SuperBlock>,
    /// Device and number of the inode the file system is mounted on.
    pub m_inode: Option<(DevId, i32)>,
}

impl View for Mount {
    type V = MountView;

    closed spec fn view(&self) -> MountView {
        MountView {
            dev: self.m_dev,
            spb: match self.m_spb {
                Some(sb) => Some(sb@),
                None => None,
            },
            inode: self.m_inode,
        }
    }
}

impl Mount {
    /// An unused slot.
    pub fn new() -> (r: Self)
        ensures
            r@ == (MountView { dev: DevId(-1i16), spb: None, inode: None }),
    {
        Mount { m_dev: DevId(-1), m_spb: None, m_inode: None }
    }

    /// The slot holds a mounted file system.
    pub fn is_valid(&self) -> (r: bool)
        ensures
            r == (self@.spb is Some && self@.dev.0 >= 0),
    {
        self.m_spb.is_some() && self.m_dev.0 >= 0
    }
}

/// The first mount slot of `dev` that holds a super block, if any.
pub open spec fn mount_of(m: Seq<MountView>, dev: DevId, i: int) -> bool {
    &&& 0 <= i < m.len()
    &&& m[i].dev == dev
    &&& m[i].spb is Some
    &&& forall|j: int| 0 <= j < i ==> !(#[trigger] m[j].dev == dev && m[j].spb is Some)
}

/// There is one first mount slot of a device.
proof fn lemma_mount_of_unique(m: Seq<MountView>, dev: DevId, i: int)
    requires
        mount_of(m, dev, i),
    ensures
        forall|j: int| #[trigger] mount_of(m, dev, j) ==> j == i,
{
    assert forall|j: int| #[trigger] mount_of(m, dev, j) implies j == i by {
        if j < i {
            assert(m[j].dev == dev && m[j].spb is Some);
        } else if i < j {
            assert(m[i].dev == dev && m[i].spb is Some);
        }
    }
}

/// The mounted file systems.
pub struct FileSystem {
    m_mount: Vec<Mount>,
    updlock: bool,
}

impl View for FileSystem {
    type V = Seq<MountView>;

    closed spec fn view(&self) -> Seq<MountView> {
        self.m_mount@.map_values(|m: Mount| m@)
    }
}

impl FileSystem {
    pub closed spec fn wf(&self) -> bool {
        &&& self.m_mount@.len() == NMOUNT
        &&& forall|i: int| 0 <= i < NMOUNT ==> ((#[trigger] self@[i]).spb matches Some(sb) ==> sb.wf())
    }

    pub closed spec fn is_updating(&self) -> bool {
        self.updlock
    }

    /// No file system mounted.
    pub fn new() -> (r: Self)
        ensures
            r.wf(),
            !r.is_updating(),
            forall|i: int| 0 <= i < NMOUNT ==> (#[trigger] r@[i]) == (MountView { dev: DevId(-1i16), spb: None, inode: None }),
    {
        let mut m_mount: Vec<Mount> = Vec::new();
        let mut i: usize = 0;
        while i < NMOUNT
            invariant
                i <= NMOUNT,
                m_mount@.len() == i,
                forall|j: int| 0 <= j < i ==> (#[trigger] m_mount@[j])@ == (MountView { dev: DevId(-1i16), spb: None, inode: None }),
            decreases NMOUNT - i,
        {
            m_mount.push(Mount::new());
            i = i + 1;
        }
        FileSystem { m_mount, updlock: false }
    }

    /// Mounts the root file system from its super block read at time `time`.
    pub fn install_loaded_super_block(&mut self, loaded: DiskSuperBlock, time: i32)
        requires
            old(self).wf(),
            loaded.wf(),
        ensures
            final(self).wf(),
            final(self).is_updating() == old(self).is_updating(),
            final(self)@ == old(self)@.update(0, MountView {
                dev: DevId(ROOTDEV),
                spb: Some(SuperBlock::from_disk_spec(loaded, time)),
                inode: None,
            }),
    {
        let sb = SuperBlock::from_disk(loaded, time);
        let m = Mount { m_dev: DevId(ROOTDEV), m_spb: Some(sb), m_inode: None };
        self.m_mount.set(0, m);
        assert(self@ =~= old(self)@.update(0, m@));
    }

    /// The mount slot of `dev`; its counts are normalized (see `SuperBlock::normalize_counts`).
    pub fn get_fs(&mut self, dev: DevId) -> (r: Result<usize, FileSystemError>)
        requires
            old(self).wf(),
        ensures
            final(self).wf(),
            final(self).is_updating() == old(self).is_updating(),
            match r {
                Ok(i) => mount_of(old(self)@, dev, i as int) && final(self)@.len() == NMOUNT
                    && final(self)@[i as int].spb->0.counts_in_range()
                    && (old(self)@[i as int].spb->0.counts_in_range() ==> final(self)@ == old(self)@)
                    && (!old(self)@[i as int].spb->0.counts_in_range() ==> final(self)@ == old(self)@.update(
                    i as int, MountView { spb: Some(SuperBlockView { nfree: 0, ninode: 0, ..old(self)@[i as int].spb->0 }), ..old(self)@[i as int] })),
                Err(e) => e == FileSystemError::NoSuchFileSystem && final(self)@ == old(self)@
                    && forall|i: int| 0 <= i < NMOUNT ==> !(#[trigger] old(self)@[i].dev == dev && old(self)@[i].spb is Some),
            },
    {
        let mut i: usize = 0;
        while i < NMOUNT
            invariant
                self.wf(),
                self@ == old(self)@,
                self.updlock == old(self).updlock,
                i <= NMOUNT,
                forall|j: int| 0 <= j < i ==> !(#[trigger] self@[j].dev == dev && self@[j].spb is Some),
            decreases NMOUNT - i,
        {
            assert(self@[i as int] == self.m_mount@[i as int]@);
            if self.m_mount[i].m_dev == dev && self.m_mount[i].m_spb.is_some() {
                let mut m = self.m_mount.remove(i);
                let mut sb = m.m_spb.take().unwrap();
                sb.normalize_counts();
                m.m_spb = Some(sb);
                self.m_mount.insert(i, m);
                assert(self@ =~= old(self)@.update(i as int, m@));
                return Ok(i);
            }
            i = i + 1;
        }
        Err(FileSystemError::NoSuchFileSystem)
    }

    /// Whether `dev` has a mounted file system.
    fn is_mounted(&self, dev: DevId) -> (r: bool)
        requires
            self.wf(),
        ensures
            r <==> exists|i: int| mount_of(self@, dev, i),
    {
        let mut i: usize = 0;
        while i < NMOUNT
            invariant
                self.wf(),
                i <= NMOUNT,
                forall|j: int| 0 <= j < i ==> !(#[trigger] self@[j].dev == dev && self@[j].spb is Some),
            decreases NMOUNT - i,
        {
            assert(self@[i as int] == self.m_mount@[i as int]@);
            if self.m_mount[i].m_dev == dev && self.m_mount[i].m_spb.is_some() {
                assert(mount_of(self@, dev, i as int));
                return true;
            }
            i = i + 1;
        }
        proof {
            assert forall|k: int| !mount_of(self@, dev, k) by {
                if mount_of(self@, dev, k) {
                    assert(self@[k].dev == dev && self@[k].spb is Some);
                }
            }
        }
        false
    }

    /// The super block in mount slot `idx`.
    pub fn super_block(&self, idx: usize) -> (r: &SuperBlock)
        requires
            self.wf(),
            idx < NMOUNT,
            self@[idx as int].spb is Some,
        ensures
            Some(r@) == self@[idx as int].spb,
    {
        assert(self@[idx as int] == self.m_mount@[idx as int]@);
        self.m_mount[idx].m_spb.as_ref().unwrap()
    }

    /// Returns inode `number` of `dev` to its free inode list (see `SuperBlock::free_inode`).
    pub fn i_free(&mut self, dev: DevId, number: i32) -> (r: Result<(), FileSystemError>)
        requires
            old(self).wf(),
            forall|i: int| #[trigger] mount_of(old(self)@, dev, i) ==> ({
                let sb = old(self)@[i].spb->0;
                sb.inode_lock || sb.ninode >= 0 || !sb.counts_in_range()
            }),
        ensures
            final(self).wf(),
            final(self).is_updating() == old(self).is_updating(),
            r is Err <==> forall|i: int| 0 <= i < NMOUNT ==> !(#[trigger] old(self)@[i].dev == dev && old(self)@[i].spb is Some),
            r is Err ==> r == Err::<(), FileSystemError>(FileSystemError::NoSuchFileSystem) && final(self)@ == old(self)@,
            r is Ok ==> exists|i: int| mount_of(old(self)@, dev, i) && final(self)@.len() == NMOUNT && ({
                let sb = old(self)@[i].spb->0;
                let sb1 = if sb.counts_in_range() { sb } else { SuperBlockView { nfree: 0, ninode: 0, ..sb } };
                let sb2 = if sb1.inode_lock || sb1.ninode >= NICFREE { sb1 } else {
                    SuperBlockView { inode: sb1.inode.update(sb1.ninode as int, number), ninode: (sb1.ninode + 1) as i32, modified: true, ..sb1 }
                };
                final(self)@ == old(self)@.update(i, MountView { spb: Some(sb2), ..old(self)@[i] })
            }),
    {
        let idx = match self.get_fs(dev) {
            Ok(idx) => idx,
            Err(e) => return Err(e),
        };
        let ghost mid = self@;
        let mut m = self.m_mount.remove(idx);
        assert(mid[idx as int] == m@);
        let mut sb = m.m_spb.take().unwrap();
        if sb.is_ilock() || sb.disk.s_ninode >= 100 {
            // Nothing to record; the inode will be found by the next scan.
        } else {
            sb.free_inode(number);
        }
        m.m_spb = Some(sb);
        self.m_mount.insert(idx, m);
        assert(self@ =~= mid.update(idx as int, m@));
        Ok(())
    }

    /// `alloc(dev)`, the allocation of a block: takes it off the free list of `dev`
    /// (see `alloc_step_spec`, and `AllocStep` for what the caller does next);
    /// `NoSuchFileSystem` when `dev` is not mounted.
    pub fn allocate(&mut self, dev: DevId) -> (r: Result<AllocStep, FileSystemError>)
        requires
            old(self).wf(),
        ensures
            final(self).wf(),
            final(self).is_updating() == old(self).is_updating(),
            (forall|i: int| 0 <= i < NMOUNT ==> !(#[trigger] old(self)@[i].dev == dev && old(self)@[i].spb is Some))
                ==> r == Err::<AllocStep, FileSystemError>(FileSystemError::NoSuchFileSystem) && final(self)@ == old(self)@,
            forall|i: int| #[trigger] mount_of(old(self)@, dev, i) ==> ({
                let (sb2, res) = alloc_step_spec(normalized(old(self)@[i].spb->0));
                &&& r == res
                &&& final(self)@ == old(self)@.update(i, MountView { spb: Some(sb2), ..old(self)@[i] })
            }),
    {
        let idx = match self.get_fs(dev) {
            Ok(idx) => idx,
            Err(e) => return Err(e),
        };
        let ghost mid = self@;
        proof { lemma_mount_of_unique(old(self)@, dev, idx as int); }
        let mut m = self.m_mount.remove(idx);
        assert(mid[idx as int] == m@);
        let mut sb = m.m_spb.take().unwrap();
        let r = if sb.is_flock() {
            Ok(AllocStep::Wait)
        } else {
            match sb.alloc_take() {
                Ok((b, refill)) => {
                    if self.bad_block(dev, b) {
                        Err(FileSystemError::BadBlock)
                    } else if refill {
                        Ok(AllocStep::Refill(b))
                    } else {
                        Ok(AllocStep::Block(b))
                    }
                },
                Err(e) => Err(e),
            }
        };
        m.m_spb = Some(sb);
        self.m_mount.insert(idx, m);
        assert(self@ =~= mid.update(idx as int, m@));
        r
    }

    /// `i_alloc(dev)`, the allocation of an inode: takes an inode number off the free
    /// inode list of `dev`, or asks for the list to be reloaded (see
    /// `i_alloc_step_spec`, and `IallocStep` for what the caller does next);
    /// `NoSuchFileSystem` when `dev` is not mounted.
    pub fn i_alloc(&mut self, dev: DevId) -> (r: Result<IallocStep, FileSystemError>)
        requires
            old(self).wf(),
        ensures
            final(self).wf(),
            final(self).is_updating() == old(self).is_updating(),
            (forall|i: int| 0 <= i < NMOUNT ==> !(#[trigger] old(self)@[i].dev == dev && old(self)@[i].spb is Some))
                ==> r == Err::<IallocStep, FileSystemError>(FileSystemError::NoSuchFileSystem) && final(self)@ == old(self)@,
            forall|i: int| #[trigger] mount_of(old(self)@, dev, i) ==> ({
                let (sb2, step) = i_alloc_step_spec(normalized(old(self)@[i].spb->0));
                &&& r == Ok::<IallocStep, FileSystemError>(step)
                &&& final(self)@ == old(self)@.update(i, MountView { spb: Some(sb2), ..old(self)@[i] })
            }),
    {
        let idx = match self.get_fs(dev) {
            Ok(idx) => idx,
            Err(e) => return Err(e),
        };
        let ghost mid = self@;
        proof { lemma_mount_of_unique(old(self)@, dev, idx as int); }
        let mut m = self.m_mount.remove(idx);
        assert(mid[idx as int] == m@);
        let mut sb = m.m_spb.take().unwrap();
        let step = if sb.is_ilock() {
            IallocStep::Wait
        } else {
            match sb.take_free_inode() {
                Some(ino) => IallocStep::Take(ino),
                None => {
                    sb.lock_inode_list();
                    IallocStep::Scan { isize: sb.isize() }
                },
            }
        };
        m.m_spb = Some(sb);
        self.m_mount.insert(idx, m);
        assert(self@ =~= mid.update(idx as int, m@));
        Ok(step)
    }

    /// Ends the allocation of inode `ino` of `dev`, which `i_alloc` took off the free
    /// list (`IallocStep::Take`): the inode is got in the inode table `inodes` (see
    /// `InodeTable::i_get`; when it was not in core its disk copy `disk`, which the
    /// caller read, is loaded into the slot given it (see `Inode::i_copy`)). An inode whose mode is not 0 is in
    /// use (`InUse`); a free one is cleaned (`Inode::clean`), stays locked and referenced,
    /// and the super block of `dev` is marked modified (`Allocated`). A locked inode
    /// makes the caller wait (`Locked`). `InodeUnavailable` when the inode table is full.
    pub fn i_alloc_take(&mut self, inodes: &mut InodeTable, dev: DevId, ino: i32, disk: &DiskInode) -> (r: Result<IallocTake, FileSystemError>)
        requires
            old(self).wf(),
            old(inodes).wf(),
            forall|j: int| 0 <= j < InodeTable::NINODE && #[trigger] holds(old(inodes)@, j, dev, ino) ==> old(inodes)@[j].i_flag & InodeFlag::IMOUNT == 0
                && old(inodes)@[j].i_count < i32::MAX,
        ensures
            final(self).wf(),
            final(inodes).wf(),
            final(self).is_updating() == old(self).is_updating(),
            match r {
                Ok(IallocTake::Allocated(s)) => {
                    let n = final(inodes)@[s as int];
                    &&& s < InodeTable::NINODE
                    &&& cleaned(n) && n.i_dev == dev && n.i_number == ino && n.i_flag & InodeFlag::ILOCK != 0 && n.i_count > 0
                    &&& (holds(old(inodes)@, s as int, dev, ino) ==> old(inodes)@[s as int].i_mode == 0)
                    &&& (!holds(old(inodes)@, s as int, dev, ino) ==> disk.d_mode == 0
                        && forall|j: int| 0 <= j < InodeTable::NINODE ==> !#[trigger] holds(old(inodes)@, j, dev, ino))
                    &&& forall|j: int| 0 <= j < InodeTable::NINODE && j != s ==> #[trigger] final(inodes)@[j] == old(inodes)@[j]
                    &&& forall|i: int| #[trigger] mount_of(old(self)@, dev, i) ==> final(self)@ == old(self)@.update(i, MountView {
                        spb: Some(SuperBlockView { modified: true, ..normalized(old(self)@[i].spb->0) }),
                        ..old(self)@[i]
                    })
                },
                Ok(IallocTake::InUse(s)) => {
                    let n = final(inodes)@[s as int];
                    &&& s < InodeTable::NINODE
                    &&& n.i_dev == dev && n.i_number == ino && n.i_flag & InodeFlag::ILOCK != 0 && n.i_count > 0
                    &&& n.i_mode != 0
                    &&& (holds(old(inodes)@, s as int, dev, ino) ==> n.i_mode == old(inodes)@[s as int].i_mode)
                    &&& (!holds(old(inodes)@, s as int, dev, ino) ==> n.i_mode == disk.d_mode && n.i_nlink == disk.d_nlink
                        && n.i_uid == disk.d_uid && n.i_gid == disk.d_gid && n.i_size == disk.d_size && n.i_addr@ == disk.d_addr@)
                    &&& forall|j: int| 0 <= j < InodeTable::NINODE && j != s ==> #[trigger] final(inodes)@[j] == old(inodes)@[j]
                    &&& final(self)@ == old(self)@
                },
                Ok(IallocTake::Locked) => final(self)@ == old(self)@
                    && exists|s: int| 0 <= s < InodeTable::NINODE && holds(old(inodes)@, s, dev, ino)
                        && old(inodes)@[s].i_flag & InodeFlag::ILOCK != 0
                        && final(inodes)@ == old(inodes)@.update(s, Inode { i_flag: old(inodes)@[s].i_flag | InodeFlag::IWANT, ..old(inodes)@[s] }),
                Err(e) => final(self)@ == old(self)@ && final(inodes)@ == old(inodes)@ && (
                    (e == FileSystemError::InodeUnavailable && forall|j: int| 0 <= j < InodeTable::NINODE ==> #[trigger] old(inodes)@[j].i_count != 0)
                    || (e == FileSystemError::NoSuchFileSystem && forall|i: int| 0 <= i < NMOUNT ==> !(#[trigger] old(self)@[i].dev == dev && old(self)@[i].spb is Some))),
            },
            (forall|i: int| 0 <= i < NMOUNT ==> !(#[trigger] old(self)@[i].dev == dev && old(self)@[i].spb is Some)) ==> final(self)@ == old(self)@,
    {
        if !self.is_mounted(dev) {
            proof {
                assert forall|i: int| 0 <= i < NMOUNT implies !(#[trigger] old(self)@[i].dev == dev && old(self)@[i].spb is Some) by {
                    if old(self)@[i].dev == dev && old(self)@[i].spb is Some {
                        let k = choose|k: int| 0 <= k <= i && old(self)@[k].dev == dev && old(self)@[k].spb is Some
                            && forall|j: int| 0 <= j < k ==> !(#[trigger] old(self)@[j].dev == dev && old(self)@[j].spb is Some);
                        assert(mount_of(old(self)@, dev, k));
                    }
                }
            }
            return Err(FileSystemError::NoSuchFileSystem);
        }
        let ghost mi = choose|i: int| mount_of(old(self)@, dev, i);
        let (s, loaded) = match inodes.i_get(dev, ino) {
            Err(_) => return Err(FileSystemError::InodeUnavailable),
            Ok(IGet::Locked(_)) => return Ok(IallocTake::Locked),
            Ok(IGet::Found(s)) => (s, false),
            Ok(IGet::Load(s)) => (s, true),
        };
        let mut n = inodes.inode(s);
        proof {
            let f = old(inodes)@[s as int].i_flag;
            assert((f | 1u32) & 1u32 != 0 && 1u32 & 1u32 != 0) by (bit_vector);
        }
        if loaded {
            n.i_copy(disk);
        }
        if n.i_mode != 0 {
            inodes.set_inode(s, n);
            return Ok(IallocTake::InUse(s));
        }
        n.clean();
        inodes.set_inode(s, n);
        proof { lemma_mount_of_unique(old(self)@, dev, mi); }
        match self.alloc_done(dev) {
            Ok(()) => Ok(IallocTake::Allocated(s)),
            Err(e) => Err(e),
        }
    }

    /// The next inode number off the free list of `dev`, after the one that
    /// `i_alloc_take` found in use: `NoSpace` when the list is empty (the list is not
    /// scanned again). `NoSuchFileSystem` when `dev` is not mounted.
    pub fn i_alloc_next(&mut self, dev: DevId) -> (r: Result<i32, FileSystemError>)
        requires
            old(self).wf(),
        ensures
            final(self).wf(),
            final(self).is_updating() == old(self).is_updating(),
            (forall|i: int| 0 <= i < NMOUNT ==> !(#[trigger] old(self)@[i].dev == dev && old(self)@[i].spb is Some))
                ==> r == Err::<i32, FileSystemError>(FileSystemError::NoSuchFileSystem) && final(self)@ == old(self)@,
            forall|i: int| #[trigger] mount_of(old(self)@, dev, i) ==> ({
                let sb = normalized(old(self)@[i].spb->0);
                &&& sb.ninode <= 0 ==> r == Err::<i32, FileSystemError>(FileSystemError::NoSpace)
                    && final(self)@ == old(self)@.update(i, MountView { spb: Some(sb), ..old(self)@[i] })
                &&& sb.ninode > 0 ==> r == Ok::<i32, FileSystemError>(sb.inode[sb.ninode - 1])
                    && final(self)@ == old(self)@.update(i, MountView {
                        spb: Some(SuperBlockView { ninode: (sb.ninode - 1) as i32, ..sb }),
                        ..old(self)@[i]
                    })
            }),
    {
        let idx = match self.get_fs(dev) {
            Ok(idx) => idx,
            Err(e) => return Err(e),
        };
        let ghost mid = self@;
        proof { lemma_mount_of_unique(old(self)@, dev, idx as int); }
        let mut m = self.m_mount.remove(idx);
        assert(mid[idx as int] == m@);
        let mut sb = m.m_spb.take().unwrap();
        let r = match sb.take_free_inode() {
            Some(ino) => Ok(ino),
            None => Err(FileSystemError::NoSpace),
        };
        m.m_spb = Some(sb);
        self.m_mount.insert(idx, m);
        assert(self@ =~= mid.update(idx as int, m@));
        r
    }

    /// Ends the scan that `i_alloc` asked for (`IallocStep::Scan`). `modes` are the mode
    /// words of the disk inodes read, in inode-number order, or `None` when a sector of
    /// the inode zone could not be read. The free inodes (mode 0 and not held in
    /// `inodes`) become the free inode list (the first 100 of them) and the list is
    /// unlocked; the sleepers on it are to be woken. `Ok` when one is free (the caller
    /// asks `i_alloc` again), `NoSpace` when none is, `BufferUnavailable` when the read
    /// failed (the list is unlocked and left as it was).
    pub fn i_alloc_scan(&mut self, inodes: &InodeTable, dev: DevId, modes: Option<&[u32]>) -> (r: Result<(), FileSystemError>)
        requires
            old(self).wf(),
            inodes.wf(),
            modes matches Some(m) ==> m@.len() <= i32::MAX,
        ensures
            final(self).wf(),
            final(self).is_updating() == old(self).is_updating(),
            (forall|i: int| 0 <= i < NMOUNT ==> !(#[trigger] old(self)@[i].dev == dev && old(self)@[i].spb is Some))
                ==> r == Err::<(), FileSystemError>(FileSystemError::NoSuchFileSystem) && final(self)@ == old(self)@,
            forall|i: int| #[trigger] mount_of(old(self)@, dev, i) ==> ({
                let sb = normalized(old(self)@[i].spb->0);
                match modes {
                    None => r == Err::<(), FileSystemError>(FileSystemError::BufferUnavailable)
                        && final(self)@ == old(self)@.update(i, MountView {
                            spb: Some(SuperBlockView { inode_lock: false, ..sb }),
                            ..old(self)@[i]
                        }),
                    Some(m) => {
                        let all = free_inode_numbers(m@, in_core_marks(inodes@, dev, m@.len() as int), m@.len() as int);
                        let k = if all.len() < NICFREE { all.len() as int } else { NICFREE as int };
                        &&& (k > 0 ==> r is Ok)
                        &&& (k == 0 ==> r == Err::<(), FileSystemError>(FileSystemError::NoSpace))
                        &&& final(self)@ == old(self)@.update(i, MountView {
                            spb: Some(SuperBlockView { inode_lock: false, ninode: k as i32, inode: scanned_list(all), ..sb }),
                            ..old(self)@[i]
                        })
                    },
                }
            }),
    {
        let found = match modes {
            None => None,
            Some(m) => {
                let n = m.len();
                let mut in_core: Vec<bool> = Vec::new();
                let mut ino: usize = 0;
                while ino < n
                    invariant
                        n == m@.len(),
                        n <= i32::MAX,
                        inodes.wf(),
                        ino <= n,
                        in_core@ == in_core_marks(inodes@, dev, n as int).take(ino as int),
                    decreases n - ino,
                {
                    let held = inodes.get(dev, ino as i32).is_some();
                    proof {
                        let t = inodes@;
                        let e = exists|j: int| 0 <= j < InodeTable::NINODE && #[trigger] holds(t, j, dev, ino as i32);
                        assert(held == e) by {
                            if e {
                                let j = choose|j: int| 0 <= j < InodeTable::NINODE && #[trigger] holds(t, j, dev, ino as i32);
                                assert(holds(t, j, dev, ino as i32));
                            }
                        }
                    }
                    in_core.push(held);
                    ino = ino + 1;
                    assert(in_core@ =~= in_core_marks(inodes@, dev, n as int).take(ino as int));
                }
                assert(in_core@ =~= in_core_marks(inodes@, dev, n as int));
                let (k, list) = pick_free_inodes(m, in_core.as_slice());
                proof {
                    let all = free_inode_numbers(m@, in_core_marks(inodes@, dev, n as int), n as int);
                    let kk = if all.len() < NICFREE { all.len() as int } else { NICFREE as int };
                    assert forall|j: int| 0 <= j < NICFREE implies #[trigger] list@[j] == scanned_list(all)[j] by {
                        if j < kk {
                            assert(list@.take(kk)[j] == all.take(kk)[j]);
                        }
                    }
                    assert(list@ =~= scanned_list(all));
                }
                Some((k, list))
            },
        };
        match self.i_alloc_scanned(dev, found) {
            Ok(true) => Ok(()),
            Ok(false) => match modes {
                None => Err(FileSystemError::BufferUnavailable),
                Some(_) => Err(FileSystemError::NoSpace),
            },
            Err(e) => Err(e),
        }
    }

    /// The scan that `i_alloc` asked for is over: the inode list of `dev` is unlocked
    /// and, when the scan succeeded with `found` (the count and the 100-entry list of
    /// `pick_free_inodes`), reloaded from it. Returns whether an inode is free now (if
    /// not, or if the scan failed, the allocation fails with `NoSpace` or the scan's
    /// error); either way the sleepers on the list are to be woken.
    pub fn i_alloc_scanned(&mut self, dev: DevId, found: Option<(i32, Vec<i32>)>) -> (r: Result<bool, FileSystemError>)
        requires
            old(self).wf(),
            found matches Some((n, list)) ==> list@.len() == NICFREE,
        ensures
            final(self).wf(),
            final(self).is_updating() == old(self).is_updating(),
            (forall|i: int| 0 <= i < NMOUNT ==> !(#[trigger] old(self)@[i].dev == dev && old(self)@[i].spb is Some))
                ==> r == Err::<bool, FileSystemError>(FileSystemError::NoSuchFileSystem) && final(self)@ == old(self)@,
            forall|i: int| #[trigger] mount_of(old(self)@, dev, i) ==> ({
                let sb = normalized(old(self)@[i].spb->0);
                match found {
                    Some((n, list)) => r == Ok::<bool, FileSystemError>(n > 0) && final(self)@ == old(self)@.update(i, MountView {
                        spb: Some(SuperBlockView { inode_lock: false, ninode: n, inode: list@, ..sb }),
                        ..old(self)@[i]
                    }),
                    None => r == Ok::<bool, FileSystemError>(false) && final(self)@ == old(self)@.update(i, MountView {
                        spb: Some(SuperBlockView { inode_lock: false, ..sb }),
                        ..old(self)@[i]
                    }),
                }
            }),
    {
        let idx = match self.get_fs(dev) {
            Ok(idx) => idx,
            Err(e) => return Err(e),
        };
        let ghost mid = self@;
        proof { lemma_mount_of_unique(old(self)@, dev, idx as int); }
        let mut m = self.m_mount.remove(idx);
        assert(mid[idx as int] == m@);
        let mut sb = m.m_spb.take().unwrap();
        sb.unlock_inode_list();
        let has_free = match found {
            Some((n, list)) => {
                sb.install_free_inodes(n, list.as_slice());
                n > 0
            },
            None => false,
        };
        m.m_spb = Some(sb);
        self.m_mount.insert(idx, m);
        assert(self@ =~= mid.update(idx as int, m@));
        Ok(has_free)
    }

    /// `free(dev, blkno)`: returns block `blkno` to the free list of `dev` (the super
    /// block is marked modified first). While the list is locked the caller waits; when
    /// it is full it is locked and handed back to be written into the freed block (see
    /// `free_prepare_spec`); otherwise the block is pushed (see `free_push_spec`).
    /// `NoSuchFileSystem` when `dev` is not mounted.
    pub fn free(&mut self, dev: DevId, blkno: i32) -> (r: Result<FreeStep, FileSystemError>)
        requires
            old(self).wf(),
        ensures
            final(self).wf(),
            final(self).is_updating() == old(self).is_updating(),
            (forall|i: int| 0 <= i < NMOUNT ==> !(#[trigger] old(self)@[i].dev == dev && old(self)@[i].spb is Some))
                ==> (r matches Err(e) && e == FileSystemError::NoSuchFileSystem) && final(self)@ == old(self)@,
            forall|i: int| #[trigger] mount_of(old(self)@, dev, i) ==> ({
                let sb = normalized(old(self)@[i].spb->0);
                let (v1, spill) = free_prepare_spec(sb);
                if sb.free_lock {
                    &&& r matches Ok(FreeStep::Wait)
                    &&& final(self)@ == old(self)@.update(i, MountView { spb: Some(SuperBlockView { modified: true, ..sb }), ..old(self)@[i] })
                } else {
                    match spill {
                        Some(t) => (r matches Ok(FreeStep::Spill(w)) && w@ == t)
                            && final(self)@ == old(self)@.update(i, MountView { spb: Some(v1), ..old(self)@[i] }),
                        None => (r matches Ok(FreeStep::Done))
                            && final(self)@ == old(self)@.update(i, MountView { spb: Some(free_push_spec(v1, blkno)), ..old(self)@[i] }),
                    }
                }
            }),
    {
        let idx = match self.get_fs(dev) {
            Ok(idx) => idx,
            Err(e) => return Err(e),
        };
        let ghost mid = self@;
        proof { lemma_mount_of_unique(old(self)@, dev, idx as int); }
        let mut m = self.m_mount.remove(idx);
        assert(mid[idx as int] == m@);
        let mut sb = m.m_spb.take().unwrap();
        let step = if sb.is_flock() {
            sb.set_modified(true);
            FreeStep::Wait
        } else {
            match sb.free_prepare() {
                Some(t) => FreeStep::Spill(t),
                None => {
                    sb.free_push(blkno);
                    FreeStep::Done
                },
            }
        };
        m.m_spb = Some(sb);
        self.m_mount.insert(idx, m);
        assert(self@ =~= mid.update(idx as int, m@));
        Ok(step)
    }

    /// The full list was written into freed block `blkno`: the list of `dev` starts over
    /// with that block alone (it leads to the written group) and is unlocked; the
    /// sleepers on the list are then to be woken.
    pub fn free_spilled(&mut self, dev: DevId, blkno: i32) -> (r: Result<(), FileSystemError>)
        requires
            old(self).wf(),
        ensures
            final(self).wf(),
            final(self).is_updating() == old(self).is_updating(),
            (forall|i: int| 0 <= i < NMOUNT ==> !(#[trigger] old(self)@[i].dev == dev && old(self)@[i].spb is Some))
                ==> r == Err::<(), FileSystemError>(FileSystemError::NoSuchFileSystem) && final(self)@ == old(self)@,
            forall|i: int| #[trigger] mount_of(old(self)@, dev, i) ==> r is Ok && final(self)@ == old(self)@.update(i, MountView {
                spb: Some(free_push_spec(SuperBlockView { nfree: 0, free_lock: false, ..normalized(old(self)@[i].spb->0) }, blkno)),
                ..old(self)@[i]
            }),
    {
        let idx = match self.get_fs(dev) {
            Ok(idx) => idx,
            Err(e) => return Err(e),
        };
        let ghost mid = self@;
        proof { lemma_mount_of_unique(old(self)@, dev, idx as int); }
        let mut m = self.m_mount.remove(idx);
        assert(mid[idx as int] == m@);
        let mut sb = m.m_spb.take().unwrap();
        sb.free_spilled();
        sb.free_push(blkno);
        m.m_spb = Some(sb);
        self.m_mount.insert(idx, m);
        assert(self@ =~= mid.update(idx as int, m@));
        Ok(())
    }

    /// The block that `allocate` returned as `Refill` was read: the free list of `dev` is
    /// reloaded from its words `table` and unlocked (see `SuperBlock::alloc_refill`).
    /// When it could not be read (`table` is `None`) the list is only unlocked and the
    /// allocation fails with `BufferUnavailable`. Either way the sleepers on the list are
    /// to be woken.
    pub fn alloc_refilled(&mut self, dev: DevId, table: Option<&[i32]>) -> (r: Result<(), FileSystemError>)
        requires
            old(self).wf(),
            table matches Some(t) ==> t@.len() >= NICFREE + 1,
        ensures
            final(self).wf(),
            final(self).is_updating() == old(self).is_updating(),
            (forall|i: int| 0 <= i < NMOUNT ==> !(#[trigger] old(self)@[i].dev == dev && old(self)@[i].spb is Some))
                ==> r == Err::<(), FileSystemError>(FileSystemError::NoSuchFileSystem) && final(self)@ == old(self)@,
            forall|i: int| #[trigger] mount_of(old(self)@, dev, i) ==> match table {
                Some(t) => r is Ok && final(self)@ == old(self)@.update(i, MountView {
                    spb: Some(SuperBlockView {
                        nfree: t@[0],
                        free: t@.subrange(1, NICFREE as int + 1),
                        free_lock: false,
                        ..normalized(old(self)@[i].spb->0)
                    }),
                    ..old(self)@[i]
                }),
                None => r == Err::<(), FileSystemError>(FileSystemError::BufferUnavailable) && final(self)@ == old(self)@.update(i, MountView {
                    spb: Some(SuperBlockView { free_lock: false, ..normalized(old(self)@[i].spb->0) }),
                    ..old(self)@[i]
                }),
            },
    {
        let idx = match self.get_fs(dev) {
            Ok(idx) => idx,
            Err(e) => return Err(e),
        };
        let ghost mid = self@;
        proof { lemma_mount_of_unique(old(self)@, dev, idx as int); }
        let mut m = self.m_mount.remove(idx);
        assert(mid[idx as int] == m@);
        let mut sb = m.m_spb.take().unwrap();
        let r = match table {
            Some(t) => {
                sb.alloc_refill(t);
                Ok(())
            },
            None => {
                sb.unlock_free_list();
                Err(FileSystemError::BufferUnavailable)
            },
        };
        m.m_spb = Some(sb);
        self.m_mount.insert(idx, m);
        assert(self@ =~= mid.update(idx as int, m@));
        r
    }

    /// The allocated block's buffer was cleared: the super block of `dev` is marked
    /// modified.
    pub fn alloc_done(&mut self, dev: DevId) -> (r: Result<(), FileSystemError>)
        requires
            old(self).wf(),
        ensures
            final(self).wf(),
            final(self).is_updating() == old(self).is_updating(),
            (forall|i: int| 0 <= i < NMOUNT ==> !(#[trigger] old(self)@[i].dev == dev && old(self)@[i].spb is Some))
                ==> r == Err::<(), FileSystemError>(FileSystemError::NoSuchFileSystem) && final(self)@ == old(self)@,
            forall|i: int| #[trigger] mount_of(old(self)@, dev, i) ==> r is Ok && final(self)@ == old(self)@.update(i, MountView {
                spb: Some(SuperBlockView { modified: true, ..normalized(old(self)@[i].spb->0) }),
                ..old(self)@[i]
            }),
    {
        let idx = match self.get_fs(dev) {
            Ok(idx) => idx,
            Err(e) => return Err(e),
        };
        let ghost mid = self@;
        proof { lemma_mount_of_unique(old(self)@, dev, idx as int); }
        let mut m = self.m_mount.remove(idx);
        assert(mid[idx as int] == m@);
        let mut sb = m.m_spb.take().unwrap();
        sb.set_modified(true);
        m.m_spb = Some(sb);
        self.m_mount.insert(idx, m);
        assert(self@ =~= mid.update(idx as int, m@));
        Ok(())
    }

    /// Starts a sync: unless one is already running, marks the modified super blocks of
    /// writable, unlocked file systems as clean, stamps them with `time`, and returns
    /// them with their devices, to be written to disk. `None` while a sync runs.
    pub fn update_begin(&mut self, time: i32) -> (r: Option<Vec<(DevId, DiskSuperBlock)>>)
        requires
            old(self).wf(),
        ensures
            final(self).wf(),
            old(self).is_updating() ==> r is None && final(self)@ == old(self)@ && final(self).is_updating(),
            !old(self).is_updating() ==> final(self).is_updating() && final(self)@.len() == NMOUNT
                && (forall|i: int| 0 <= i < NMOUNT ==> #[trigger] final(self)@[i] == synced_mount(old(self)@[i], time))
                && (r matches Some(v) && v@.len() == synced_list(old(self)@, time).len()
                    && forall|k: int| 0 <= k < v@.len() ==> (#[trigger] v@[k]).0 == synced_list(old(self)@, time)[k].0
                        && disk_image_of(v@[k].1, synced_list(old(self)@, time)[k].1)),
    {
        if self.updlock {
            return None;
        }
        self.updlock = true;
        let mut out: Vec<(DevId, DiskSuperBlock)> = Vec::new();
        let mut i: usize = 0;
        while i < NMOUNT
            invariant
                self.wf(),
                self.updlock,
                i <= NMOUNT,
                forall|j: int| 0 <= j < i ==> #[trigger] self@[j] == synced_mount(old(self)@[j], time),
                forall|j: int| i <= j < NMOUNT ==> #[trigger] self@[j] == old(self)@[j],
                old(self)@.len() == NMOUNT,
                out@.len() == synced_list(old(self)@.take(i as int), time).len(),
                forall|k: int| 0 <= k < out@.len() ==> (#[trigger] out@[k]).0 == synced_list(old(self)@.take(i as int), time)[k].0
                    && disk_image_of(out@[k].1, synced_list(old(self)@.take(i as int), time)[k].1),
            decreases NMOUNT - i,
        {
            let ghost before = self@;
            assert(old(self)@.take(i as int + 1).drop_last() =~= old(self)@.take(i as int));
            assert(self@[i as int] == self.m_mount@[i as int]@);
            if self.m_mount[i].m_spb.is_some() {
                let mut m = self.m_mount.remove(i);
                let mut sb = m.m_spb.take().unwrap();
                if sb.is_modified() && !sb.is_ilock() && !sb.is_flock() && !sb.is_readonly() {
                    sb.set_modified(false);
                    sb.set_time(time);
                    let disk = sb.to_disk();
                    out.push((m.m_dev, disk));
                }
                m.m_spb = Some(sb);
                self.m_mount.insert(i, m);
                assert(self@ =~= before.update(i as int, m@));
            }
            i = i + 1;
        }
        assert(old(self)@.take(NMOUNT as int) =~= old(self)@);
        Some(out)
    }

    /// Ends a sync started by `update_begin`.
    pub fn update_end(&mut self)
        ensures
            final(self)@ == old(self)@,
            final(self).wf() == old(self).wf(),
            !final(self).is_updating(),
    {
        self.updlock = false;
    }

    /// The mount slot whose mounted-on inode is inode `number` of `dev`.
    pub fn get_mount(&self, dev: DevId, number: i32) -> (r: Option<usize>)
        requires
            self.wf(),
        ensures
            match r {
                Some(i) => i < NMOUNT && self@[i as int].inode == Some((dev, number))
                    && forall|j: int| 0 <= j < i ==> (#[trigger] self@[j]).inode != Some((dev, number)),
                None => forall|j: int| 0 <= j < NMOUNT ==> (#[trigger] self@[j]).inode != Some((dev, number)),
            },
    {
        let mut i: usize = 0;
        while i < NMOUNT
            invariant
                self.wf(),
                i <= NMOUNT,
                forall|j: int| 0 <= j < i ==> (#[trigger] self@[j]).inode != Some((dev, number)),
            decreases NMOUNT - i,
        {
            assert(self@[i as int] == self.m_mount@[i as int]@);
            match self.m_mount[i].m_inode {
                Some((d, n)) => {
                    if d == dev && n == number {
                        return Some(i);
                    }
                },
                None => {},
            }
            i = i + 1;
        }
        None
    }

    /// Bad block detection is not implemented: no block is bad.
    pub fn bad_block(&self, _dev: DevId, _blkno: i32) -> (r: bool)
        ensures
            !r,
    {
        false
    }
}

impl SuperBlock {
    /// What `from_disk` makes of `disk` at time `time`.
    pub open spec fn from_disk_spec(disk: DiskSuperBlock, time: i32) -> SuperBlockView {
        SuperBlockView {
            isize: disk.s_isize,
            fsize: disk.s_fsize,
            nfree: disk.s_nfree,
            free: disk.s_free@,
            ninode: disk.s_ninode,
            inode: disk.s_inode@,
            time,
            free_lock: false,
            inode_lock: false,
            modified: disk.s_fmod != 0,
            readonly: disk.s_ronly != 0,
        }
    }
}

} // verus!
