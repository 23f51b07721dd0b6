use std::collections::HashMap;
use vstd::prelude::*;

pub use crate::dev::buffer::{DevId, LogicalBlock, PhysicalBlock};

verus! {

broadcast use vstd::std_specs::hash::group_hash_axioms;

/// Flags of an in-core inode.
pub struct InodeFlag;

impl InodeFlag {
    /// The inode is locked.
    pub const ILOCK: u32 = 0x1;
    /// The in-core inode was modified; the disk inode must be updated.
    pub const IUPD: u32 = 0x2;
    /// The inode was accessed; its access time must be updated.
    pub const IACC: u32 = 0x4;
    /// A file system is mounted on the inode.
    pub const IMOUNT: u32 = 0x8;
    /// A process waits for the inode to be unlocked.
    pub const IWANT: u32 = 0x10;
    /// The inode holds the text of a running program.
    pub const ITEXT: u32 = 0x20;
}

/// Mode bits of an inode.
pub struct InodeMode;

impl InodeMode {
    /// The inode is in use.
    pub const IALLOC: u32 = 0x8000;
    /// Mask of the file type.
    pub const IFMT: u32 = 0x6000;
    /// File type: directory.
    pub const IFDIR: u32 = 0x4000;
    /// File type: character device.
    pub const IFCHR: u32 = 0x2000;
    /// File type: block device (0 is a regular file).
    pub const IFBLK: u32 = 0x6000;
    /// Large file: indirect blocks are in use.
    pub const ILARG: u32 = 0x1000;
    pub const ISUID: u32 = 0x800;
    pub const ISGID: u32 = 0x400;
    pub const ISVTX: u32 = 0x200;
    /// Owner may read.
    pub const IREAD: u32 = 0x100;
    /// Owner may write.
    pub const IWRITE: u32 = 0x80;
    /// Owner may execute.
    pub const IEXEC: u32 = 0x40;
    pub const IRWXU: u32 = 0x1c0;
    pub const IRWXG: u32 = 0x38;
    pub const IRWXO: u32 = 0x7;
}

/// Number of block addresses in an inode.
pub const I_ADDR_SIZE: usize = 10;

/// An in-core inode.
#[derive(Clone, Copy, Debug)]
pub struct Inode {
    pub i_flag: u32,
    pub i_mode: u32,
    /// Number of references held on the in-core inode.
    pub i_count: i32,
    /// Number of directory entries naming the file.
    pub i_nlink: i32,
    pub i_dev: DevId,
    pub i_number: i32,
    pub i_uid: i16,
    pub i_gid: i16,
    /// File size in bytes.
    pub i_size: u64,
    /// Block map: 6 direct blocks, 2 single indirect blocks, 2 double indirect blocks.
    pub i_addr: [PhysicalBlock; I_ADDR_SIZE],
    /// The last logical block read (for read-ahead).
    pub i_lastr: i32,
}

/// Bytes that the write step at byte `offset` with `count` bytes to go moves (see
/// `Inode::write_i`): up to the end of the block.
pub open spec fn write_chunk(offset: int, count: int) -> int {
    if BLOCK_SIZE - offset % (BLOCK_SIZE as int) < count { BLOCK_SIZE - offset % (BLOCK_SIZE as int) } else { count }
}

/// The file size after writing `count` bytes at `offset` step by step, each step growing
/// the file to cover the bytes it wrote (as `Inode::write_i` does) from size `size`.
pub open spec fn size_after_write(size: int, offset: int, count: int) -> int
    decreases count,
{
    if count <= 0 || offset < 0 {
        size
    } else {
        let n = write_chunk(offset, count);
        let grown = if size < offset + n { offset + n } else { size };
        size_after_write(grown, offset + n, count - n)
    }
}

/// A whole write, done a block at a time, leaves the file as long as the larger of its
/// old size and the end of the write.
pub proof fn law_write_grows_to_end(size: int, offset: int, count: int)
    requires
        offset >= 0,
        count >= 0,
    ensures
        size_after_write(size, offset, count) == (if count > 0 && size < offset + count { offset + count } else { size }),
    decreases count,
{
    if count > 0 {
        let n = write_chunk(offset, count);
        assert(0 < n <= count);
        let grown = if size < offset + n { offset + n } else { size };
        law_write_grows_to_end(grown, offset + n, count - n);
    }
}

/// Bytes that the read step at byte `offset`, with `count` bytes wanted of a file of
/// `size` bytes, moves (see `Inode::read_i`): up to the end of the block and of the file.
pub open spec fn read_chunk(offset: int, count: int, size: int) -> int {
    let n = write_chunk(offset, count);
    if size - offset < n { size - offset } else { n }
}

/// The block remembered for read-ahead (`i_lastr`) after reading `count` bytes at
/// `offset` of a file of `size` bytes step by step, each step remembering the block it
/// read (as `Inode::read_i` does), from `lastr`.
pub open spec fn lastr_after_read(lastr: int, offset: int, count: int, size: int) -> int
    decreases count,
{
    if count <= 0 || offset < 0 || offset >= size {
        lastr
    } else {
        let n = read_chunk(offset, count, size);
        if n <= 0 {
            lastr
        } else {
            lastr_after_read(offset / (BLOCK_SIZE as int), offset + n, count - n, size)
        }
    }
}

/// A whole read, done a block at a time up to the end of the file, leaves the inode
/// remembering the block of the last byte read.
pub proof fn law_read_ends_at_last_block(lastr: int, offset: int, count: int, size: int)
    requires
        0 <= offset < size,
        count > 0,
    ensures
        lastr_after_read(lastr, offset, count, size) == ((if offset + count < size { offset + count } else { size }) - 1) / (BLOCK_SIZE as int),
    decreases count,
{
    let n = read_chunk(offset, count, size);
    let r = offset % 512;
    assert(0 <= r < 512);
    assert(0 < n <= count);
    if offset + n < size && count - n > 0 {
        law_read_ends_at_last_block(offset / 512, offset + n, count - n, size);
    } else {
        let end = if offset + count < size { offset + count } else { size };
        assert(end == offset + n);
        assert((offset + n - 1) / 512 == offset / 512) by (nonlinear_arith)
            requires
                n <= 512 - offset % 512,
                n >= 1,
                offset >= 0,
        {
            assert(offset == 512 * (offset / 512) + offset % 512);
        }
        assert(lastr_after_read(offset / 512, offset + n, count - n, size) == offset / 512);
    }
}

/// Failures of block mapping.
#[derive(Debug, Clone, Copy, PartialEq, Eq, Structural)]
pub enum BmapError {
    /// The block is beyond the largest file (EFBIG).
    FileTooLarge,
    /// A block was needed and none could be allocated.
    AllocFailed,
}

/// A mapped block, and the block worth reading ahead.
#[derive(Debug, Clone, Copy)]
pub struct BmapResult {
    pub phyblk: PhysicalBlock,
    /// `None` means no read-ahead.
    pub rablock: Option<PhysicalBlock>,
}

/// A block transfer planned by `Inode::read_i` or `Inode::write_i`: bytes
/// `offset .. offset + nbytes` of block `blkno` of `dev`.
#[derive(Debug, Clone, Copy)]
pub struct IoChunk {
    pub dev: DevId,
    pub blkno: PhysicalBlock,
    /// The block to read ahead (0 for none).
    pub rablock: PhysicalBlock,
    /// The previous read was of the previous block: read ahead.
    pub read_ahead: bool,
    pub offset: usize,
    pub nbytes: usize,
}

/// Failures of opening a device inode.
#[derive(Debug, Clone, Copy, PartialEq, Eq, Structural)]
pub enum OpenError {
    /// No such device (ENXIO).
    NoSuchDevice,
}

/// Where the address of a logical block is found.
#[derive(Debug, Clone, Copy, PartialEq, Eq, Structural)]
pub enum IndexKind {
    /// Blocks 0-5: `i_addr[slot]`.
    Direct { slot: usize },
    /// Blocks 6-261: `i_addr[6 or 7]` names an index block, entry `inner`.
    Indirect { i_addr_slot: usize, inner: usize },
    /// Blocks 262-33029: `i_addr[8 or 9]` names an index block whose entry `mid`
    /// names an index block, entry `inner`.
    DoubleIndirect { i_addr_slot: usize, mid: usize, inner: usize },
}

pub const BLOCK_SIZE: usize = 512;
pub const ADDRESS_PER_INDEX_BLOCK: usize = 128;
pub const SMALL_FILE_BLOCK: usize = 6;
pub const LARGE_FILE_BLOCK: usize = 262;
pub const HUGE_FILE_BLOCK: usize = 33030;

/// The logical block that an index position names.
pub open spec fn index_kind_lbn(k: IndexKind) -> int {
    match k {
        IndexKind::Direct { slot } => slot as int,
        IndexKind::Indirect { i_addr_slot, inner } => 6 + (i_addr_slot - 6) * 128 + inner,
        IndexKind::DoubleIndirect { i_addr_slot, mid, inner } => 262 + (i_addr_slot - 8) * 16384
            + mid * 128 + inner,
    }
}

/// The index position is inside the block map.
pub open spec fn index_kind_valid(k: IndexKind) -> bool {
    match k {
        IndexKind::Direct { slot } => slot < 6,
        IndexKind::Indirect { i_addr_slot, inner } => 6 <= i_addr_slot < 8 && inner < 128,
        IndexKind::DoubleIndirect { i_addr_slot, mid, inner } => 8 <= i_addr_slot < 10 && mid < 128
            && inner < 128,
    }
}

impl IndexKind {
    /// Where logical block `lbn` is mapped; `FileTooLarge` from block 33030 on.
    pub fn from_lbn(lbn: usize) -> (r: Result<IndexKind, BmapError>)
        ensures
            lbn >= HUGE_FILE_BLOCK ==> r == Err::<IndexKind, BmapError>(BmapError::FileTooLarge),
            lbn < HUGE_FILE_BLOCK ==> (r matches Ok(k) && index_kind_valid(k) && index_kind_lbn(k)
                == lbn),
            lbn < SMALL_FILE_BLOCK ==> r == Ok::<IndexKind, BmapError>(IndexKind::Direct { slot: lbn }),
    {
        if lbn >= HUGE_FILE_BLOCK {
            return Err(BmapError::FileTooLarge);
        }
        if lbn < SMALL_FILE_BLOCK {
            Ok(IndexKind::Direct { slot: lbn })
        } else if lbn < LARGE_FILE_BLOCK {
            let d = lbn - SMALL_FILE_BLOCK;
            assert(d / 128 < 2 && d == (d / 128) * 128 + d % 128) by (nonlinear_arith)
                requires
                    d < 256,
            ;
            Ok(IndexKind::Indirect { i_addr_slot: d / 128 + 6, inner: d % 128 })
        } else {
            let d = lbn - LARGE_FILE_BLOCK;
            let r = IndexKind::DoubleIndirect {
                i_addr_slot: d / 16384 + 8,
                mid: (d / 128) % 128,
                inner: d % 128,
            };
            let q = d / 128;
            assert(d == q * 128 + d % 128);
            if d < 16384 {
                assert(d / 16384 == 0);
                assert(q < 128);
                assert(q % 128 == q);
            } else {
                assert(d / 16384 == 1);
                assert(128 <= q < 256);
                assert(q % 128 == q - 128);
            }
            Ok(r)
        }
    }
}

/// Two valid index positions that name the same block are the same position.
pub proof fn law_index_kind_injective(a: IndexKind, b: IndexKind)
    requires
        index_kind_valid(a),
        index_kind_valid(b),
        index_kind_lbn(a) == index_kind_lbn(b),
    ensures
        a == b,
{
    match (a, b) {
        (IndexKind::DoubleIndirect { i_addr_slot: s1, mid: m1, inner: n1 }, IndexKind::DoubleIndirect { i_addr_slot: s2, mid: m2, inner: n2 }) => {
            assert(s1 == s2 && m1 == m2 && n1 == n2) by (nonlinear_arith)
                requires
                    8 <= s1 < 10, 8 <= s2 < 10, m1 < 128, m2 < 128, n1 < 128, n2 < 128,
                    (s1 - 8) * 16384 + m1 * 128 + n1 == (s2 - 8) * 16384 + m2 * 128 + n2,
            ;
        },
        _ => {},
    }
}

proof fn lemma_nonzero_cast(e: i32)
    requires
        e != 0,
    ensures
        e as u32 != 0,
{
    assert(e as u32 != 0) by (bit_vector)
        requires
            e != 0,
    ;
}

/// The inode as it lies on disk.
#[derive(Clone, Copy, Debug)]
pub struct DiskInode {
    pub d_mode: u32,
    pub d_nlink: i32,
    pub d_uid: i16,
    pub d_gid: i16,
    pub d_size: u64,
    pub d_addr: [PhysicalBlock; I_ADDR_SIZE],
    pub d_atime: i32,
    pub d_mtime: i32,
}

/// `d` is the disk image of inode `ino` written at time `time`: its mode, links, owner,
/// size and blocks, with the access and modification times set to `time` when the inode
/// was accessed or updated (0 otherwise).
pub open spec fn disk_inode_of(d: DiskInode, ino: Inode, time: i32) -> bool {
    &&& d.d_mode == ino.i_mode
    &&& d.d_nlink == ino.i_nlink
    &&& d.d_uid == ino.i_uid
    &&& d.d_gid == ino.i_gid
    &&& d.d_size == ino.i_size
    &&& d.d_addr@ == ino.i_addr@
    &&& d.d_atime == (if ino.i_flag & InodeFlag::IACC != 0 { time } else { 0 })
    &&& d.d_mtime == (if ino.i_flag & InodeFlag::IUPD != 0 { time } else { 0 })
}

/// Number of non-zero blocks in `addr[from..]`.
pub open spec fn nonzero_count_from(addr: Seq<PhysicalBlock>, from: int) -> nat
    decreases I_ADDR_SIZE - from,
{
    if from >= I_ADDR_SIZE {
        0
    } else {
        nonzero_count_from(addr, from + 1) + if addr[from].0 != 0 { 1nat } else { 0nat }
    }
}

/// The non-zero blocks of `addr[..n]`, from the last one down.
pub open spec fn nonzero_blocks_reversed(addr: Seq<PhysicalBlock>, n: int) -> Seq<PhysicalBlock>
    decreases n,
{
    if n <= 0 {
        Seq::empty()
    } else if addr[n - 1].0 != 0 {
        seq![addr[n - 1]] + nonzero_blocks_reversed(addr, n - 1)
    } else {
        nonzero_blocks_reversed(addr, n - 1)
    }
}

/// The non-zero blocks of the whole map from slot `i` down: those of the slots above `i`, then
/// those from `i` down.
proof fn lemma_nonzero_split(addr: Seq<PhysicalBlock>, i: int)
    requires
        0 <= i <= I_ADDR_SIZE,
    ensures
        nonzero_blocks_reversed(addr, I_ADDR_SIZE as int).len() == nonzero_count_from(addr, i) + nonzero_blocks_reversed(addr, i).len(),
        nonzero_blocks_reversed(addr, I_ADDR_SIZE as int).take(nonzero_count_from(addr, i) as int) + nonzero_blocks_reversed(addr, i)
            == nonzero_blocks_reversed(addr, I_ADDR_SIZE as int),
    decreases I_ADDR_SIZE - i,
{
    if i < I_ADDR_SIZE {
        lemma_nonzero_split(addr, i + 1);
        let full = nonzero_blocks_reversed(addr, I_ADDR_SIZE as int);
        let c1 = nonzero_count_from(addr, i + 1);
        assert(full.take(c1 as int) + nonzero_blocks_reversed(addr, i + 1) == full);
        if addr[i].0 != 0 {
            assert(nonzero_blocks_reversed(addr, i + 1) == seq![addr[i]] + nonzero_blocks_reversed(addr, i));
            assert(full.take(c1 + 1int) =~= full.take(c1 as int).push(addr[i]));
            assert(full.take(c1 + 1int) + nonzero_blocks_reversed(addr, i) =~= full);
        } else {
            assert(nonzero_blocks_reversed(addr, i + 1) == nonzero_blocks_reversed(addr, i));
        }
    } else {
        assert(nonzero_blocks_reversed(addr, I_ADDR_SIZE as int).take(0) + nonzero_blocks_reversed(addr, I_ADDR_SIZE as int)
            =~= nonzero_blocks_reversed(addr, I_ADDR_SIZE as int));
    }
}

proof fn lemma_nonzero_reversed_step(addr: Seq<PhysicalBlock>, i: int)
    requires
        0 <= i < I_ADDR_SIZE,
    ensures
        addr[i].0 != 0 ==> nonzero_blocks_reversed(addr, I_ADDR_SIZE as int).take(nonzero_count_from(addr, i + 1) as int).push(addr[i])
            == nonzero_blocks_reversed(addr, I_ADDR_SIZE as int).take(nonzero_count_from(addr, i) as int),
        nonzero_count_from(addr, i) == nonzero_count_from(addr, i + 1) + if addr[i].0 != 0 { 1nat } else { 0nat },
{
    lemma_nonzero_split(addr, i + 1);
    lemma_nonzero_split(addr, i);
    let full = nonzero_blocks_reversed(addr, I_ADDR_SIZE as int);
    let c1 = nonzero_count_from(addr, i + 1);
    if addr[i].0 != 0 {
        assert(nonzero_blocks_reversed(addr, i + 1) == seq![addr[i]] + nonzero_blocks_reversed(addr, i));
        assert(full[c1 as int] == addr[i]) by {
            assert(full.take(c1 as int) + nonzero_blocks_reversed(addr, i + 1) == full);
            assert((full.take(c1 as int) + nonzero_blocks_reversed(addr, i + 1))[c1 as int] == nonzero_blocks_reversed(addr, i + 1)[0]);
        }
        assert(full.take(c1 + 1int) =~= full.take(c1 as int).push(addr[i]));
    }
}

proof fn lemma_nonzero_reversed_len(addr: Seq<PhysicalBlock>, n: int)
    requires
        n == I_ADDR_SIZE,
    ensures
        nonzero_blocks_reversed(addr, n).len() == nonzero_count_from(addr, 0),
{
    lemma_nonzero_split(addr, 0);
}

/// The index blocks a mapping reads, by block number: 128 entries each.
pub struct IndexCache {
    tables: HashMap<u32, Vec<i32>>,
}

impl View for IndexCache {
    type V = Map<u32, Seq<i32>>;

    closed spec fn view(&self) -> Map<u32, Seq<i32>> {
        self.tables@.map_values(|t: Vec<i32>| t@)
    }
}

impl IndexCache {
    pub open spec fn wf_view(m: Map<u32, Seq<i32>>) -> bool {
        forall|k: u32| #[trigger] m.contains_key(k) ==> m[k].len() == ADDRESS_PER_INDEX_BLOCK
    }

    /// No index block loaded.
    pub fn new() -> (r: Self)
        ensures
            r@ == Map::<u32, Seq<i32>>::empty(),
    {
        let r = IndexCache { tables: HashMap::new() };
        assert(r@ =~= Map::<u32, Seq<i32>>::empty());
        r
    }

    /// Index block `blkno` is loaded.
    pub fn contains(&self, blkno: u32) -> (r: bool)
        ensures
            r == self@.contains_key(blkno),
    {
        self.tables.contains_key(&blkno)
    }

    /// Loads index block `blkno` with `table`.
    pub fn load(&mut self, blkno: u32, table: Vec<i32>)
        ensures
            final(self)@ == old(self)@.insert(blkno, table@),
    {
        self.tables.insert(blkno, table);
        assert(self@ =~= old(self)@.insert(blkno, table@));
    }

    /// The table of index block `blkno`, if loaded.
    pub fn table(&self, blkno: u32) -> (r: Option<&Vec<i32>>)
        ensures
            match r {
                Some(t) => self@.contains_key(blkno) && t@ == self@[blkno],
                None => !self@.contains_key(blkno),
            },
    {
        self.tables.get(&blkno)
    }

    fn entry(&self, blkno: u32, idx: usize) -> (r: i32)
        requires
            self@.contains_key(blkno),
            idx < self@[blkno].len(),
        ensures
            r == self@[blkno][idx as int],
    {
        let t = self.tables.get(&blkno).unwrap();
        t[idx]
    }

    fn set_entry(&mut self, blkno: u32, idx: usize, v: i32)
        requires
            old(self)@.contains_key(blkno),
            idx < old(self)@[blkno].len(),
        ensures
            final(self)@ == old(self)@.insert(blkno, old(self)@[blkno].update(idx as int, v)),
    {
        let mut t = self.tables.remove(&blkno).unwrap();
        t.set(idx, v);
        self.tables.insert(blkno, t);
        assert(self@ =~= old(self)@.insert(blkno, old(self)@[blkno].update(idx as int, v)));
    }

    fn insert_zeroed(&mut self, blkno: u32)
        ensures
            final(self)@ == old(self)@.insert(blkno, Seq::new(ADDRESS_PER_INDEX_BLOCK as nat, |i: int| 0i32)),
    {
        let mut t: Vec<i32> = Vec::new();
        let mut i: usize = 0;
        while i < ADDRESS_PER_INDEX_BLOCK
            invariant
                i <= ADDRESS_PER_INDEX_BLOCK,
                t@ == Seq::new(i as nat, |j: int| 0i32),
            decreases ADDRESS_PER_INDEX_BLOCK - i,
        {
            t.push(0);
            i = i + 1;
            assert(t@ =~= Seq::new(i as nat, |j: int| 0i32));
        }
        self.load(blkno, t);
    }
}

/// The abstract state of a block mapping: the inode, the index blocks, and the
/// blocks still available for allocation (taken from the end).
pub ghost struct MapState {
    /// The block map of the inode.
    pub addr: Seq<PhysicalBlock>,
    /// The inode flags.
    pub flag: u32,
    pub cache: Map<u32, Seq<i32>>,
    pub fresh: Seq<u32>,
}

pub open spec fn zero_table() -> Seq<i32> {
    Seq::new(ADDRESS_PER_INDEX_BLOCK as nat, |i: int| 0i32)
}

pub open spec fn nz_block(v: i32) -> Option<PhysicalBlock> {
    if v != 0 { Some(PhysicalBlock(v as u32)) } else { None }
}

/// Allocation: the last fresh block, if any.
pub open spec fn take_fresh(st: MapState) -> (MapState, Option<u32>) {
    if st.fresh.len() == 0 {
        (st, None)
    } else {
        (MapState { fresh: st.fresh.drop_last(), ..st }, Some(st.fresh.last()))
    }
}

pub open spec fn set_addr(st: MapState, slot: int, b: u32) -> MapState {
    MapState { addr: st.addr.update(slot, PhysicalBlock(b)), flag: st.flag | InodeFlag::IUPD, ..st }
}

/// The effect of `Inode::get_or_alloc_indirect_buf`: the index block in `i_addr[slot]`,
/// allocated (and zeroed) when absent.
pub open spec fn indirect_spec(st: MapState, slot: int) -> (MapState, Result<u32, BmapError>) {
    let b = st.addr[slot].0;
    if b != 0 {
        (st, Ok(b))
    } else {
        let (st1, nb) = take_fresh(st);
        match nb {
            None => (st1, Err(BmapError::AllocFailed)),
            Some(n) => {
                let st2 = set_addr(st1, slot, n);
                (MapState { cache: st2.cache.insert(n, zero_table()), ..st2 }, Ok(n))
            },
        }
    }
}

/// The effect of `Inode::resolve_in_indirect`: entry `inner` of index block `t`,
/// allocated when absent, with the next entry as read-ahead.
pub open spec fn resolve_spec(st: MapState, t: u32, inner: int) -> (MapState, Result<BmapResult, BmapError>) {
    let tab = st.cache[t];
    let ra = if inner + 1 < ADDRESS_PER_INDEX_BLOCK { nz_block(tab[inner + 1]) } else { None };
    let phy = tab[inner];
    if phy != 0 {
        (st, Ok(BmapResult { phyblk: PhysicalBlock(phy as u32), rablock: ra }))
    } else {
        let (st1, nb) = take_fresh(st);
        match nb {
            None => (st1, Err(BmapError::AllocFailed)),
            Some(n) => (MapState { cache: st1.cache.insert(t, tab.update(inner, n as i32)), ..st1 }, Ok(BmapResult { phyblk: PhysicalBlock(n), rablock: ra })),
        }
    }
}

/// The effect of `Inode::bmap` on logical block `lbn`.
pub open spec fn bmap_spec(st: MapState, lbn: u32) -> (MapState, Result<BmapResult, BmapError>) {
    if lbn >= HUGE_FILE_BLOCK {
        (st, Err(BmapError::FileTooLarge))
    } else if lbn < SMALL_FILE_BLOCK {
        let slot = lbn as int;
        let b = st.addr[slot].0;
        let (st1, r) = if b != 0 {
            (st, Ok(b))
        } else {
            let (s1, nb) = take_fresh(st);
            match nb {
                None => (s1, Err(BmapError::AllocFailed)),
                Some(n) => (set_addr(s1, slot, n), Ok(n)),
            }
        };
        match r {
            Err(e) => (st1, Err(e)),
            Ok(phy) => {
                let ra = if slot <= 4 && st1.addr[slot + 1].0 != 0 { Some(st1.addr[slot + 1]) } else { None };
                (st1, Ok(BmapResult { phyblk: PhysicalBlock(phy), rablock: ra }))
            },
        }
    } else if lbn < LARGE_FILE_BLOCK {
        let d = lbn - SMALL_FILE_BLOCK;
        let (st1, t) = indirect_spec(st, d / 128 + 6);
        match t {
            Err(e) => (st1, Err(e)),
            Ok(tb) => resolve_spec(st1, tb, d % 128),
        }
    } else {
        let d = lbn - LARGE_FILE_BLOCK;
        let mid = (d / 128) % 128;
        let (st1, t) = indirect_spec(st, d / 16384 + 8);
        match t {
            Err(e) => (st1, Err(e)),
            Ok(first) => {
                let phy2 = st1.cache[first][mid];
                if phy2 == 0 {
                    let (st2, nb) = take_fresh(st1);
                    match nb {
                        None => (st2, Err(BmapError::AllocFailed)),
                        Some(n) => {
                            let st3 = MapState { cache: st2.cache.insert(first, st2.cache[first].update(mid, n as i32)).insert(n, zero_table()), ..st2 };
                            resolve_spec(st3, n, d % 128)
                        },
                    }
                } else {
                    resolve_spec(st1, phy2 as u32, d % 128)
                }
            },
        }
    }
}

/// The blocks still to be handed out are real (block 0 means "none"), distinct, and
/// not index blocks in use.
pub open spec fn fresh_ok(st: MapState) -> bool {
    &&& forall|k: int| 0 <= k < st.fresh.len() ==> #[trigger] st.fresh[k] != 0
    &&& forall|k: int, l: int| 0 <= k < l < st.fresh.len() ==> #[trigger] st.fresh[k] != #[trigger] st.fresh[l]
    &&& forall|k: int| 0 <= k < st.fresh.len() ==> !st.cache.contains_key(#[trigger] st.fresh[k])
}

proof fn lemma_resolve_stable(st: MapState, t: u32, inner: int)
    requires
        0 <= inner < ADDRESS_PER_INDEX_BLOCK,
        st.cache.contains_key(t),
        st.cache[t].len() == ADDRESS_PER_INDEX_BLOCK,
        fresh_ok(st),
        resolve_spec(st, t, inner).1 is Ok,
    ensures
        ({
            let (st1, r1) = resolve_spec(st, t, inner);
            &&& st1.cache.contains_key(t) && st1.cache[t].len() == ADDRESS_PER_INDEX_BLOCK
            &&& resolve_spec(st1, t, inner) == (st1, r1)
            &&& st1.addr == st.addr && st1.flag == st.flag
        }),
{
    let tab = st.cache[t];
    if tab[inner] == 0 {
        let n = st.fresh.last();
        assert(n != 0);
        assert((n as i32) as u32 == n) by (bit_vector);
        assert((n as i32) != 0) by (bit_vector)
            requires n != 0u32;
        let (st1, r1) = resolve_spec(st, t, inner);
        assert(st1.cache[t] == tab.update(inner, n as i32));
        assert(st1.cache[t][inner] == n as i32);
        if inner + 1 < ADDRESS_PER_INDEX_BLOCK {
            assert(st1.cache[t][inner + 1] == tab[inner + 1]);
        }
    }
}

proof fn lemma_indirect_stable(st: MapState, slot: int)
    requires
        0 <= slot < I_ADDR_SIZE,
        st.addr.len() == I_ADDR_SIZE,
        fresh_ok(st),
        indirect_spec(st, slot).1 is Ok,
    ensures
        ({
            let (st1, r1) = indirect_spec(st, slot);
            &&& indirect_spec(st1, slot) == (st1, r1)
            &&& st1.addr.len() == I_ADDR_SIZE
            &&& fresh_ok(st1)
            &&& r1 matches Ok(b) && b != 0
            &&& (st.addr[slot].0 == 0 ==> st1.cache[r1->Ok_0] == zero_table() && st1.cache.contains_key(r1->Ok_0))
            &&& (st.addr[slot].0 != 0 ==> st1 == st)
            &&& forall|k: u32| k != r1->Ok_0 && #[trigger] st.cache.contains_key(k) ==> st1.cache.contains_key(k) && st1.cache[k] == st.cache[k]
        }),
{
}

/// A mapped block stays mapped: once `bmap` of logical block `lbn` succeeded, mapping
/// `lbn` again gives the same result and allocates nothing (when the blocks handed out
/// are real, distinct, and not index blocks in use).
pub proof fn law_bmap_stable(st: MapState, lbn: u32)
    requires
        st.addr.len() == I_ADDR_SIZE,
        IndexCache::wf_view(st.cache),
        path_loaded(st.addr, st.cache, lbn),
        fresh_ok(st),
        bmap_spec(st, lbn).1 is Ok,
    ensures
        bmap_spec(bmap_spec(st, lbn).0, lbn) == bmap_spec(st, lbn),
{
    let (st1, r1) = bmap_spec(st, lbn);
    if lbn < SMALL_FILE_BLOCK {
        let slot = lbn as int;
        if st.addr[slot].0 == 0 {
            assert(st.fresh.last() != 0);
        }
    } else if lbn < LARGE_FILE_BLOCK {
        let d = lbn - SMALL_FILE_BLOCK;
        let slot = (d / 128 + 6) as int;
        lemma_indirect_stable(st, slot);
        let (sa, t) = indirect_spec(st, slot);
        let tb = t->Ok_0;
        assert(sa.cache.contains_key(tb) && sa.cache[tb].len() == ADDRESS_PER_INDEX_BLOCK);
        lemma_resolve_stable(sa, tb, (d % 128) as int);
        let (sb, rb) = resolve_spec(sa, tb, (d % 128) as int);
        assert(sb.addr == sa.addr);
        assert(indirect_spec(sb, slot) == (sb, t)) by {
            assert(sb.addr[slot].0 == tb);
        }
    } else {
        let d = lbn - LARGE_FILE_BLOCK;
        let slot = (d / 16384 + 8) as int;
        let mid = ((d / 128) % 128) as int;
        lemma_indirect_stable(st, slot);
        let (sa, t) = indirect_spec(st, slot);
        let first = t->Ok_0;
        assert(sa.cache.contains_key(first) && sa.cache[first].len() == ADDRESS_PER_INDEX_BLOCK);
        let phy2 = sa.cache[first][mid];
        if phy2 == 0 {
            let n = sa.fresh.last();
            assert(n != 0);
            assert((n as i32) as u32 == n) by (bit_vector);
            assert((n as i32) != 0) by (bit_vector)
                requires n != 0u32;
            let (s2, nb) = take_fresh(sa);
            let s3 = MapState { cache: s2.cache.insert(first, s2.cache[first].update(mid, n as i32)).insert(n, zero_table()), ..s2 };
            assert(first != n) by {
                assert(sa.cache.contains_key(first));
            }
            assert(s3.cache[first][mid] == n as i32);
            assert(s3.cache.contains_key(n) && s3.cache[n].len() == ADDRESS_PER_INDEX_BLOCK);
            assert(fresh_ok(s3));
            lemma_resolve_stable(s3, n, (d % 128) as int);
            let (sb, rb) = resolve_spec(s3, n, (d % 128) as int);
            assert(sb.cache[first] == s3.cache[first]);
            assert(indirect_spec(sb, slot) == (sb, t)) by {
                assert(sb.addr[slot].0 == first);
            }
        } else {
            assert(sa.cache.contains_key(phy2 as u32));
            lemma_resolve_stable(sa, phy2 as u32, (d % 128) as int);
            let (sb, rb) = resolve_spec(sa, phy2 as u32, (d % 128) as int);
            assert(indirect_spec(sb, slot) == (sb, t)) by {
                assert(sb.addr[slot].0 == first);
            }
        }
    }
}

/// The index blocks on the path to `lbn` that exist are loaded.
pub open spec fn path_loaded(addr: Seq<PhysicalBlock>, cache: Map<u32, Seq<i32>>, lbn: u32) -> bool {
    if SMALL_FILE_BLOCK <= lbn < LARGE_FILE_BLOCK {
        let b = addr[((lbn - SMALL_FILE_BLOCK) / 128 + 6) as int].0;
        b != 0 ==> cache.contains_key(b)
    } else if LARGE_FILE_BLOCK <= lbn < HUGE_FILE_BLOCK {
        let d = lbn - LARGE_FILE_BLOCK;
        let b = addr[(d / 16384 + 8) as int].0;
        b != 0 ==> cache.contains_key(b) && (cache[b][(d / 128) % 128] != 0 ==> cache.contains_key(cache[b][(d / 128) % 128] as u32))
    } else {
        true
    }
}

impl Inode {
    pub const BLOCK_SIZE: usize = 512;
    pub const ADDRESS_PER_INDEX_BLOCK: usize = 128;
    pub const SMALL_FILE_BLOCK: usize = 6;
    pub const LARGE_FILE_BLOCK: usize = 262;
    pub const HUGE_FILE_BLOCK: usize = 33030;
    /// Capacity of a pipe in bytes.
    pub const PIPSIZ: usize = 3072;

    /// A free in-core inode: no flags, no mode, no device, no blocks.
    pub open spec fn is_blank(&self) -> bool {
        &&& self.i_flag == 0
        &&& self.i_mode == 0
        &&& self.i_count == 0
        &&& self.i_nlink == 0
        &&& self.i_dev == DevId(-1i16)
        &&& self.i_number == -1
        &&& self.i_uid == -1
        &&& self.i_gid == -1
        &&& self.i_size == 0
        &&& forall|i: int| 0 <= i < I_ADDR_SIZE ==> #[trigger] self.i_addr@[i] == PhysicalBlock(0)
        &&& self.i_lastr == -1
    }

    /// A free in-core inode.
    pub fn new_const() -> (r: Self)
        ensures
            r.is_blank(),
    {
        Inode {
            i_flag: 0,
            i_mode: 0,
            i_count: 0,
            i_nlink: 0,
            i_dev: DevId(-1),
            i_number: -1,
            i_uid: -1,
            i_gid: -1,
            i_size: 0,
            i_addr: [PhysicalBlock(0); I_ADDR_SIZE],
            i_lastr: -1,
        }
    }

    /// A free in-core inode.
    pub fn new() -> (r: Self)
        ensures
            r.is_blank(),
    {
        Self::new_const()
    }

    /// Every field but the block map and the flags is that of `o`.
    pub open spec fn same_except_map(&self, o: Inode) -> bool {
        &&& self.i_mode == o.i_mode
        &&& self.i_count == o.i_count
        &&& self.i_nlink == o.i_nlink
        &&& self.i_dev == o.i_dev
        &&& self.i_number == o.i_number
        &&& self.i_uid == o.i_uid
        &&& self.i_gid == o.i_gid
        &&& self.i_size == o.i_size
        &&& self.i_lastr == o.i_lastr
    }

    pub open spec fn file_type(&self) -> u32 {
        self.i_mode & InodeMode::IFMT
    }

    /// Allocates a data block into direct slot `slot` when it is empty.
    fn get_or_alloc_direct(&mut self, slot: usize, fresh: &mut Vec<u32>) -> (r: Result<PhysicalBlock, BmapError>)
        requires
            slot < 6,
        ensures
            ({
                let st = MapState { addr: old(self).i_addr@, flag: old(self).i_flag, cache: Map::empty(), fresh: old(fresh)@ };
                let b = old(self).i_addr@[slot as int].0;
                let (st1, res) = if b != 0 {
                    (st, Ok(b))
                } else {
                    let (s1, nb) = take_fresh(st);
                    match nb {
                        None => (s1, Err(BmapError::AllocFailed)),
                        Some(n) => (set_addr(s1, slot as int, n), Ok(n)),
                    }
                };
                &&& final(self).i_addr@ == st1.addr
                &&& final(self).i_flag == st1.flag
                &&& final(self).same_except_map(*old(self))
                &&& final(fresh)@ == st1.fresh
                &&& match r {
                    Ok(p) => res == Ok::<u32, BmapError>(p.0),
                    Err(e) => res == Err::<u32, BmapError>(e),
                }
            }),
    {
        let phy = self.i_addr[slot];
        if phy.0 != 0 {
            return Ok(phy);
        }
        match fresh.pop() {
            None => Err(BmapError::AllocFailed),
            Some(n) => {
                let ghost old_addr = self.i_addr@;
                self.i_addr[slot] = PhysicalBlock(n);
                self.i_flag = self.i_flag | InodeFlag::IUPD;
                assert(self.i_addr@ =~= old_addr.update(slot as int, PhysicalBlock(n)));
                Ok(PhysicalBlock(n))
            },
        }
    }

    /// The index block in `i_addr[slot]`, allocated (zeroed, and loaded into `cache`)
    /// when the slot is empty.
    fn get_or_alloc_indirect_buf(&mut self, slot: usize, cache: &mut IndexCache, fresh: &mut Vec<u32>) -> (r: Result<u32, BmapError>)
        requires
            6 <= slot < 10,
        ensures
            ({
                let st = MapState { addr: old(self).i_addr@, flag: old(self).i_flag, cache: old(cache)@, fresh: old(fresh)@ };
                let (st1, res) = indirect_spec(st, slot as int);
                &&& final(self).i_addr@ == st1.addr
                &&& final(self).i_flag == st1.flag
                &&& final(self).same_except_map(*old(self))
                &&& final(cache)@ == st1.cache
                &&& final(fresh)@ == st1.fresh
                &&& r == res
            }),
    {
        let blkno = self.i_addr[slot];
        if blkno.0 != 0 {
            return Ok(blkno.0);
        }
        match fresh.pop() {
            None => Err(BmapError::AllocFailed),
            Some(n) => {
                let ghost old_addr = self.i_addr@;
                self.i_addr[slot] = PhysicalBlock(n);
                self.i_flag = self.i_flag | InodeFlag::IUPD;
                assert(self.i_addr@ =~= old_addr.update(slot as int, PhysicalBlock(n)));
                cache.insert_zeroed(n);
                Ok(n)
            },
        }
    }

    /// Entry `inner` of index block `t`, allocated when empty, with the next entry as
    /// read-ahead.
    fn resolve_in_indirect(cache: &mut IndexCache, t: u32, inner: usize, fresh: &mut Vec<u32>) -> (r: Result<BmapResult, BmapError>)
        requires
            old(cache)@.contains_key(t),
            old(cache)@[t].len() == ADDRESS_PER_INDEX_BLOCK,
            inner < ADDRESS_PER_INDEX_BLOCK,
        ensures
            ({
                let st = MapState { addr: Seq::empty(), flag: 0, cache: old(cache)@, fresh: old(fresh)@ };
                let (st1, res) = resolve_spec(st, t, inner as int);
                &&& final(cache)@ == st1.cache
                &&& final(fresh)@ == st1.fresh
                &&& r == res
            }),
    {
        let rablock = if inner + 1 < ADDRESS_PER_INDEX_BLOCK {
            let next = cache.entry(t, inner + 1);
            if next != 0 {
                Some(PhysicalBlock(next as u32))
            } else {
                None
            }
        } else {
            None
        };
        let phy = cache.entry(t, inner);
        if phy == 0 {
            match fresh.pop() {
                None => Err(BmapError::AllocFailed),
                Some(n) => {
                    cache.set_entry(t, inner, n as i32);
                    Ok(BmapResult { phyblk: PhysicalBlock(n), rablock })
                },
            }
        } else {
            Ok(BmapResult { phyblk: PhysicalBlock(phy as u32), rablock })
        }
    }

    /// Maps logical block `lbn` of the file to a disk block, allocating the data block and
    /// the index blocks on the way when they are missing. Index blocks are read from
    /// `cache` (new ones are added to it, zeroed); new blocks are taken from the end of
    /// `fresh`. Also returns the block worth reading ahead.
    pub fn bmap(&mut self, lbn: LogicalBlock, cache: &mut IndexCache, fresh: &mut Vec<u32>) -> (r: Result<BmapResult, BmapError>)
        requires
            IndexCache::wf_view(old(cache)@),
            path_loaded(old(self).i_addr@, old(cache)@, lbn.0),
        ensures
            IndexCache::wf_view(final(cache)@),
            ({
                let st = MapState { addr: old(self).i_addr@, flag: old(self).i_flag, cache: old(cache)@, fresh: old(fresh)@ };
                let (st1, res) = bmap_spec(st, lbn.0);
                &&& final(self).i_addr@ == st1.addr
                &&& final(self).i_flag == st1.flag
                &&& final(self).same_except_map(*old(self))
                &&& final(cache)@ == st1.cache
                &&& final(fresh)@ == st1.fresh
                &&& match (r, res) {
                    (Ok(a), Ok(b)) => a.phyblk == b.phyblk && a.rablock == b.rablock,
                    (Err(a), Err(b)) => a == b,
                    _ => false,
                }
            }),
    {
        let l = lbn.0 as usize;
        let kind = match IndexKind::from_lbn(l) {
            Ok(k) => k,
            Err(e) => return Err(e),
        };
        match kind {
            IndexKind::Direct { slot } => {
                let phy = match self.get_or_alloc_direct(slot, fresh) {
                    Ok(p) => p,
                    Err(e) => return Err(e),
                };
                let rablock = if slot <= 4 {
                    let next = self.i_addr[slot + 1].0;
                    if next != 0 {
                        Some(PhysicalBlock(next))
                    } else {
                        None
                    }
                } else {
                    None
                };
                Ok(BmapResult { phyblk: phy, rablock })
            },
            IndexKind::Indirect { i_addr_slot, inner } => {
                let ghost d = l - SMALL_FILE_BLOCK;
                assert(i_addr_slot == d / 128 + 6 && inner == d % 128);
                let t = match self.get_or_alloc_indirect_buf(i_addr_slot, cache, fresh) {
                    Ok(t) => t,
                    Err(e) => return Err(e),
                };
                Self::resolve_in_indirect(cache, t, inner, fresh)
            },
            IndexKind::DoubleIndirect { i_addr_slot, mid, inner } => {
                let ghost d = l - LARGE_FILE_BLOCK;
                assert(i_addr_slot == d / 16384 + 8 && mid == (d / 128) % 128 && inner == d % 128) by {
                    let q = d / 128;
                    if d < 16384 {
                        assert(q < 128);
                    } else {
                        assert(128 <= q < 256);
                    }
                }
                let first = match self.get_or_alloc_indirect_buf(i_addr_slot, cache, fresh) {
                    Ok(t) => t,
                    Err(e) => return Err(e),
                };
                let phy2 = cache.entry(first, mid);
                let second = if phy2 == 0 {
                    match fresh.pop() {
                        None => return Err(BmapError::AllocFailed),
                        Some(n) => {
                            cache.set_entry(first, mid, n as i32);
                            cache.insert_zeroed(n);
                            n
                        },
                    }
                } else {
                    phy2 as u32
                };
                Self::resolve_in_indirect(cache, second, inner, fresh)
            },
        }
    }

    /// The first index block on the way to `lbn` that exists but is not in `cache`;
    /// `None` when `bmap` can run.
    pub fn next_index_block_needed(&self, lbn: LogicalBlock, cache: &IndexCache) -> (r: Option<u32>)
        requires
            IndexCache::wf_view(cache@),
        ensures
            r is None ==> path_loaded(self.i_addr@, cache@, lbn.0),
            r matches Some(b) ==> b != 0 && !cache@.contains_key(b),
    {
        let l = lbn.0 as usize;
        if SMALL_FILE_BLOCK <= l && l < LARGE_FILE_BLOCK {
            let b = self.i_addr[(l - SMALL_FILE_BLOCK) / 128 + 6].0;
            if b != 0 && !cache.contains(b) {
                return Some(b);
            }
            None
        } else if LARGE_FILE_BLOCK <= l && l < HUGE_FILE_BLOCK {
            let d = l - LARGE_FILE_BLOCK;
            assert(d / 16384 < 2) by {
                if d >= 16384 {
                    assert(d / 16384 == 1);
                }
            }
            let b = self.i_addr[d / 16384 + 8].0;
            if b == 0 {
                return None;
            }
            match cache.table(b) {
                None => Some(b),
                Some(t) => {
                    let mid = (d / 128) % 128;
                    let e = t[mid];
                    if e != 0 && !cache.contains(e as u32) {
                        proof {
                            lemma_nonzero_cast(e);
                        }
                        return Some(e as u32);
                    }
                    None
                },
            }
        } else {
            None
        }
    }

    /// One step of reading `m_count` bytes at `m_offset`: the block to read and the part of
    /// it wanted. `None` when nothing is to be read: no bytes wanted, a character device
    /// (its driver reads), the end of the file, or a hole at block 0.
    /// The inode is marked accessed, and remembers the block for read-ahead.
    pub fn read_i(&mut self, m_count: usize, m_offset: usize, cache: &mut IndexCache, fresh: &mut Vec<u32>) -> (r: Result<Option<IoChunk>, BmapError>)
        requires
            IndexCache::wf_view(old(cache)@),
            path_loaded(old(self).i_addr@, old(cache)@, (m_offset / BLOCK_SIZE) as u32),
            m_offset / BLOCK_SIZE <= u32::MAX,
            m_offset / BLOCK_SIZE < i32::MAX,
            old(self).i_lastr < i32::MAX,
        ensures
            IndexCache::wf_view(final(cache)@),
            m_count == 0 ==> r == Ok::<Option<IoChunk>, BmapError>(None) && *final(self) == *old(self) && final(cache)@ == old(cache)@ && final(fresh)@ == old(fresh)@,
            m_count > 0 ==> ({
                let o = *old(self);
                let acc = Inode { i_flag: o.i_flag | InodeFlag::IACC, ..o };
                let lbn = m_offset / BLOCK_SIZE;
                let off = m_offset % BLOCK_SIZE;
                let n1 = if BLOCK_SIZE - off < m_count { BLOCK_SIZE - off } else { m_count as int };
                if o.file_type() == InodeMode::IFCHR {
                    r == Ok::<Option<IoChunk>, BmapError>(None) && *final(self) == acc
                        && final(cache)@ == old(cache)@ && final(fresh)@ == old(fresh)@
                } else if o.file_type() == InodeMode::IFBLK {
                    &&& r == Ok::<Option<IoChunk>, BmapError>(Some(IoChunk {
                        dev: DevId(o.i_addr@[0].0 as i16),
                        blkno: PhysicalBlock(lbn as u32),
                        rablock: PhysicalBlock((lbn + 1) as u32),
                        read_ahead: o.i_lastr + 1 == lbn,
                        offset: off as usize,
                        nbytes: n1 as usize,
                    }))
                    &&& *final(self) == (Inode { i_lastr: lbn as i32, ..acc })
                    &&& final(cache)@ == old(cache)@ && final(fresh)@ == old(fresh)@
                } else if m_offset >= o.i_size {
                    r == Ok::<Option<IoChunk>, BmapError>(None) && *final(self) == acc
                        && final(cache)@ == old(cache)@ && final(fresh)@ == old(fresh)@
                } else {
                    let st = MapState { addr: o.i_addr@, flag: acc.i_flag, cache: old(cache)@, fresh: old(fresh)@ };
                    let (st1, res) = bmap_spec(st, lbn as u32);
                    let remain = o.i_size - m_offset;
                    &&& final(self).i_addr@ == st1.addr && final(self).i_flag == st1.flag
                    &&& final(cache)@ == st1.cache && final(fresh)@ == st1.fresh
                    &&& match res {
                        Err(e) => r == Err::<Option<IoChunk>, BmapError>(e) && final(self).same_except_map(o),
                        Ok(b) => if b.phyblk.0 == 0 {
                            r == Ok::<Option<IoChunk>, BmapError>(None) && final(self).same_except_map(o)
                        } else {
                            &&& r == Ok::<Option<IoChunk>, BmapError>(Some(IoChunk {
                                dev: o.i_dev,
                                blkno: b.phyblk,
                                rablock: match b.rablock { Some(p) => p, None => PhysicalBlock(0) },
                                read_ahead: o.i_lastr + 1 == lbn,
                                offset: off as usize,
                                nbytes: (if n1 < remain { n1 } else { remain }) as usize,
                            }))
                            &&& final(self).same_except_map(Inode { i_lastr: lbn as i32, ..o })
                        },
                    }
                }
            }),
            r matches Ok(Some(c)) ==> (old(self).file_type() != InodeMode::IFBLK ==> (c.nbytes == read_chunk(m_offset as int, m_count as int, old(self).i_size as int)
                && final(self).i_size == old(self).i_size
                && lastr_after_read(final(self).i_lastr as int, m_offset + c.nbytes, m_count - c.nbytes, final(self).i_size as int)
                    == lastr_after_read(old(self).i_lastr as int, m_offset as int, m_count as int, old(self).i_size as int))),
    {
        if m_count == 0 {
            return Ok(None);
        }
        self.i_flag = self.i_flag | InodeFlag::IACC;
        if (self.i_mode & InodeMode::IFMT) == InodeMode::IFCHR {
            return Ok(None);
        }
        let is_blk = (self.i_mode & InodeMode::IFMT) == InodeMode::IFBLK;
        let lbn = m_offset / BLOCK_SIZE;
        let offset = m_offset % BLOCK_SIZE;
        let mut nbytes = if BLOCK_SIZE - offset < m_count { BLOCK_SIZE - offset } else { m_count };
        let (dev, bn, rablock) = if !is_blk {
            let remain: u64 = if self.i_size > m_offset as u64 { self.i_size - m_offset as u64 } else { 0 };
            if remain == 0 {
                return Ok(None);
            }
            if (remain as usize) < nbytes || remain < nbytes as u64 {
                nbytes = if remain < nbytes as u64 { remain as usize } else { nbytes };
            }
            let res = match self.bmap(LogicalBlock(lbn as u32), cache, fresh) {
                Ok(res) => res,
                Err(e) => return Err(e),
            };
            if res.phyblk.0 == 0 {
                return Ok(None);
            }
            let ra = match res.rablock {
                Some(p) => p,
                None => PhysicalBlock(0),
            };
            (self.i_dev, res.phyblk, ra)
        } else {
            let d = self.i_addr[0].0 as i16;
            (DevId(d), PhysicalBlock(lbn as u32), PhysicalBlock((lbn + 1) as u32))
        };
        let read_ahead = self.i_lastr + 1 == lbn as i32;
        self.i_lastr = lbn as i32;
        Ok(Some(IoChunk { dev, blkno: bn, rablock, read_ahead, offset, nbytes }))
    }

    /// One step of writing `m_count` bytes at `m_offset`: the block to write and the part of
    /// it written; the file grows to cover it. `None` for a character device (its driver
    /// writes), when no bytes are left, or for a hole at block 0. The inode is marked
    /// accessed and updated.
    pub fn write_i(&mut self, m_count: usize, m_offset: usize, cache: &mut IndexCache, fresh: &mut Vec<u32>) -> (r: Result<Option<IoChunk>, BmapError>)
        requires
            IndexCache::wf_view(old(cache)@),
            path_loaded(old(self).i_addr@, old(cache)@, (m_offset / BLOCK_SIZE) as u32),
            m_offset / BLOCK_SIZE <= u32::MAX,
            m_offset + m_count <= usize::MAX,
        ensures
            IndexCache::wf_view(final(cache)@),
            ({
                let o = *old(self);
                let acc = Inode { i_flag: o.i_flag | InodeFlag::IACC | InodeFlag::IUPD, ..o };
                let lbn = m_offset / BLOCK_SIZE;
                let off = m_offset % BLOCK_SIZE;
                let n = if BLOCK_SIZE - off < m_count { BLOCK_SIZE - off } else { m_count as int };
                if o.file_type() == InodeMode::IFCHR || m_count == 0 {
                    r == Ok::<Option<IoChunk>, BmapError>(None) && *final(self) == acc
                        && final(cache)@ == old(cache)@ && final(fresh)@ == old(fresh)@
                } else if o.file_type() == InodeMode::IFBLK {
                    &&& r == Ok::<Option<IoChunk>, BmapError>(Some(IoChunk {
                        dev: DevId(o.i_addr@[0].0 as i16),
                        blkno: PhysicalBlock(lbn as u32),
                        rablock: PhysicalBlock(0),
                        read_ahead: false,
                        offset: off as usize,
                        nbytes: n as usize,
                    }))
                    &&& *final(self) == (Inode { i_flag: acc.i_flag | InodeFlag::IUPD, ..acc })
                    &&& final(cache)@ == old(cache)@ && final(fresh)@ == old(fresh)@
                } else {
                    let st = MapState { addr: o.i_addr@, flag: acc.i_flag, cache: old(cache)@, fresh: old(fresh)@ };
                    let (st1, res) = bmap_spec(st, lbn as u32);
                    &&& final(self).i_addr@ == st1.addr
                    &&& final(cache)@ == st1.cache && final(fresh)@ == st1.fresh
                    &&& match res {
                        Err(e) => r == Err::<Option<IoChunk>, BmapError>(e) && final(self).same_except_map(o)
                            && final(self).i_flag == st1.flag,
                        Ok(b) => if b.phyblk.0 == 0 {
                            r == Ok::<Option<IoChunk>, BmapError>(None) && final(self).same_except_map(o)
                                && final(self).i_flag == st1.flag
                        } else {
                            &&& r == Ok::<Option<IoChunk>, BmapError>(Some(IoChunk {
                                dev: o.i_dev,
                                blkno: b.phyblk,
                                rablock: PhysicalBlock(0),
                                read_ahead: false,
                                offset: off as usize,
                                nbytes: n as usize,
                            }))
                            &&& final(self).i_flag == st1.flag | InodeFlag::IUPD
                            &&& final(self).same_except_map(Inode {
                                i_size: if o.i_size < m_offset + n { (m_offset + n) as u64 } else { o.i_size },
                                ..o
                            })
                        },
                    }
                }
            }),
            r matches Ok(Some(c)) ==> (old(self).file_type() != InodeMode::IFBLK ==> (c.nbytes == write_chunk(m_offset as int, m_count as int)
                && size_after_write(final(self).i_size as int, m_offset + c.nbytes, m_count - c.nbytes)
                    == size_after_write(old(self).i_size as int, m_offset as int, m_count as int))),
    {
        self.i_flag = self.i_flag | InodeFlag::IACC | InodeFlag::IUPD;
        if (self.i_mode & InodeMode::IFMT) == InodeMode::IFCHR {
            return Ok(None);
        }
        if m_count == 0 {
            return Ok(None);
        }
        let is_blk = (self.i_mode & InodeMode::IFMT) == InodeMode::IFBLK;
        let lbn = m_offset / BLOCK_SIZE;
        let offset = m_offset % BLOCK_SIZE;
        let nbytes = if BLOCK_SIZE - offset < m_count { BLOCK_SIZE - offset } else { m_count };
        let (dev, bn) = if !is_blk {
            let res = match self.bmap(LogicalBlock(lbn as u32), cache, fresh) {
                Ok(res) => res,
                Err(e) => return Err(e),
            };
            if res.phyblk.0 == 0 {
                return Ok(None);
            }
            (self.i_dev, res.phyblk)
        } else {
            (DevId(self.i_addr[0].0 as i16), PhysicalBlock(lbn as u32))
        };
        let end = (m_offset + nbytes) as u64;
        if !is_blk && self.i_size < end {
            self.i_size = end;
        }
        let f0 = self.i_flag;
        let nf = f0 | InodeFlag::IUPD;
        assert(nf & 2u32 != 0) by (bit_vector)
            requires
                nf == f0 | 2u32,
        ;
        self.i_flag = nf;
        Ok(Some(IoChunk { dev, blkno: bn, rablock: PhysicalBlock(0), read_ahead: false, offset, nbytes }))
    }

    /// Opens the inode for `mode`. Device files are opened through their drivers by the
    /// caller; nothing here can fail.
    pub fn open_i(&self, mode: u32) -> (r: Result<(), OpenError>)
        ensures
            r is Ok,
    {
        Ok(())
    }

    /// Closes the inode for `mode`. Only the last close of a device file reaches its
    /// driver, and the drivers need no close; nothing changes.
    pub fn close_i(&self, mode: u32) -> (r: bool)
        ensures
            r == (self.i_count <= 1 && (self.file_type() == InodeMode::IFCHR || self.file_type() == InodeMode::IFBLK)),
    {
        if self.i_count > 1 {
            return false;
        }
        let t = self.i_mode & InodeMode::IFMT;
        t == InodeMode::IFCHR || t == InodeMode::IFBLK
    }

    /// The disk inode to write back for an inode that was accessed or updated, with the
    /// access and modification times set to `time` accordingly (0 otherwise); `None`
    /// when the disk inode is current.
    pub fn i_update(&self, time: i32) -> (r: Option<DiskInode>)
        ensures
            self.i_flag & (InodeFlag::IUPD | InodeFlag::IACC) == 0 ==> r is None,
            self.i_flag & (InodeFlag::IUPD | InodeFlag::IACC) != 0 ==> (r matches Some(d) && disk_inode_of(d, *self, time)),
    {
        if self.i_flag & (InodeFlag::IUPD | InodeFlag::IACC) == 0 {
            return None;
        }
        Some(DiskInode {
            d_mode: self.i_mode,
            d_nlink: self.i_nlink,
            d_uid: self.i_uid,
            d_gid: self.i_gid,
            d_size: self.i_size,
            d_addr: self.i_addr,
            d_atime: if self.i_flag & InodeFlag::IACC != 0 { time } else { 0 },
            d_mtime: if self.i_flag & InodeFlag::IUPD != 0 { time } else { 0 },
        })
    }

    /// Truncates a file to length 0: empties the block map (from the last slot down) and
    /// returns the blocks it named, to be freed in that order; clears the large-file and
    /// permission bits and sets the link count to 1. Device files (and directories, whose
    /// type bits meet the device mask) are left alone.
    pub fn i_trunc(&mut self) -> (r: Vec<PhysicalBlock>)
        ensures
            old(self).i_mode & (InodeMode::IFCHR | InodeMode::IFBLK) != 0 ==> *final(self) == *old(self) && r@.len() == 0,
            old(self).i_mode & (InodeMode::IFCHR | InodeMode::IFBLK) == 0 ==> {
                &&& forall|i: int| 0 <= i < I_ADDR_SIZE ==> #[trigger] final(self).i_addr@[i] == PhysicalBlock(0)
                &&& final(self).i_size == 0
                &&& final(self).i_flag == old(self).i_flag | InodeFlag::IUPD
                &&& final(self).i_mode == old(self).i_mode & !(InodeMode::ILARG | InodeMode::IRWXU | InodeMode::IRWXG | InodeMode::IRWXO)
                &&& final(self).i_nlink == 1
                &&& final(self).i_count == old(self).i_count
                &&& final(self).i_dev == old(self).i_dev
                &&& final(self).i_number == old(self).i_number
                &&& final(self).i_uid == old(self).i_uid
                &&& final(self).i_gid == old(self).i_gid
                &&& final(self).i_lastr == old(self).i_lastr
                &&& r@ == nonzero_blocks_reversed(old(self).i_addr@, I_ADDR_SIZE as int)
            },
    {
        if self.i_mode & (InodeMode::IFCHR | InodeMode::IFBLK) != 0 {
            return Vec::new();
        }
        let mut freed: Vec<PhysicalBlock> = Vec::new();
        let ghost addr0 = self.i_addr@;
        let mut i: usize = I_ADDR_SIZE;
        while i > 0
            invariant
                i <= I_ADDR_SIZE,
                self.i_addr@.len() == I_ADDR_SIZE,
                forall|j: int| 0 <= j < i ==> #[trigger] self.i_addr@[j] == addr0[j],
                forall|j: int| i <= j < I_ADDR_SIZE ==> #[trigger] self.i_addr@[j] == PhysicalBlock(0),
                freed@ == nonzero_blocks_reversed(addr0, I_ADDR_SIZE as int).take(freed@.len() as int),
                freed@.len() == nonzero_count_from(addr0, i as int),
                self.i_mode == old(self).i_mode,
                self.i_flag == old(self).i_flag,
                self.i_size == old(self).i_size,
                self.i_nlink == old(self).i_nlink,
                self.i_count == old(self).i_count,
                self.i_dev == old(self).i_dev,
                self.i_number == old(self).i_number,
                self.i_uid == old(self).i_uid,
                self.i_gid == old(self).i_gid,
                self.i_lastr == old(self).i_lastr,
            decreases i,
        {
            i = i - 1;
            let blk = self.i_addr[i];
            proof {
                lemma_nonzero_reversed_step(addr0, i as int);
            }
            if blk.0 != 0 {
                freed.push(blk);
                self.i_addr[i] = PhysicalBlock(0);
            }
        }
        proof {
            lemma_nonzero_reversed_len(addr0, I_ADDR_SIZE as int);
            assert(freed@ =~= nonzero_blocks_reversed(addr0, I_ADDR_SIZE as int));
        }
        self.i_size = 0;
        self.i_flag = self.i_flag | InodeFlag::IUPD;
        self.i_mode = self.i_mode & !(InodeMode::ILARG | InodeMode::IRWXU | InodeMode::IRWXG | InodeMode::IRWXO);
        self.i_nlink = 1;
        freed
    }

    /// Unlocks the inode; returns whether a waiting process must be woken (then the
    /// want flag is cleared).
    fn unlock_and_wake(&mut self) -> (r: bool)
        ensures
            r == (old(self).i_flag & InodeFlag::IWANT != 0),
            *final(self) == (Inode { i_flag: old(self).i_flag & !InodeFlag::ILOCK & !(if r { InodeFlag::IWANT } else { 0 }), ..*old(self) }),
    {
        let f = self.i_flag & !InodeFlag::ILOCK;
        if self.i_flag & InodeFlag::IWANT != 0 {
            self.i_flag = f & !InodeFlag::IWANT;
            true
        } else {
            self.i_flag = f & !0u32;
            assert(f & !0u32 == f) by (bit_vector);
            false
        }
    }

    /// Tries to lock the inode: `true` when it was unlocked and is now locked; otherwise
    /// the want flag is set and the caller must sleep on the inode and try again.
    fn lock_with_priority(&mut self, _priority: i32) -> (r: bool)
        ensures
            r == (old(self).i_flag & InodeFlag::ILOCK == 0),
            r ==> *final(self) == (Inode { i_flag: old(self).i_flag | InodeFlag::ILOCK, ..*old(self) }),
            !r ==> *final(self) == (Inode { i_flag: old(self).i_flag | InodeFlag::IWANT, ..*old(self) }),
    {
        if self.i_flag & InodeFlag::ILOCK != 0 {
            self.i_flag = self.i_flag | InodeFlag::IWANT;
            return false;
        }
        self.i_flag = self.i_flag | InodeFlag::ILOCK;
        true
    }

    /// Unlocks a file inode (see `unlock_and_wake`).
    pub fn nf_rele(&mut self) -> (r: bool)
        ensures
            r == (old(self).i_flag & InodeFlag::IWANT != 0),
            *final(self) == (Inode { i_flag: old(self).i_flag & !InodeFlag::ILOCK & !(if r { InodeFlag::IWANT } else { 0 }), ..*old(self) }),
    {
        self.unlock_and_wake()
    }

    /// Tries to lock a file inode (see `lock_with_priority`).
    pub fn nf_lock(&mut self) -> (r: bool)
        ensures
            r == (old(self).i_flag & InodeFlag::ILOCK == 0),
            r ==> *final(self) == (Inode { i_flag: old(self).i_flag | InodeFlag::ILOCK, ..*old(self) }),
            !r ==> *final(self) == (Inode { i_flag: old(self).i_flag | InodeFlag::IWANT, ..*old(self) }),
    {
        self.lock_with_priority(0)
    }

    /// Unlocks a pipe inode (see `unlock_and_wake`).
    pub fn prele(&mut self) -> (r: bool)
        ensures
            r == (old(self).i_flag & InodeFlag::IWANT != 0),
            *final(self) == (Inode { i_flag: old(self).i_flag & !InodeFlag::ILOCK & !(if r { InodeFlag::IWANT } else { 0 }), ..*old(self) }),
    {
        self.unlock_and_wake()
    }

    /// Tries to lock a pipe inode (see `lock_with_priority`).
    pub fn plock(&mut self) -> (r: bool)
        ensures
            r == (old(self).i_flag & InodeFlag::ILOCK == 0),
            r ==> *final(self) == (Inode { i_flag: old(self).i_flag | InodeFlag::ILOCK, ..*old(self) }),
            !r ==> *final(self) == (Inode { i_flag: old(self).i_flag | InodeFlag::IWANT, ..*old(self) }),
    {
        self.lock_with_priority(0)
    }

    /// Clears the file part of the inode: no mode, no links, no owner, no blocks.
    pub fn clean(&mut self)
        ensures
            final(self).i_mode == 0,
            final(self).i_nlink == 0,
            final(self).i_uid == -1,
            final(self).i_gid == -1,
            final(self).i_size == 0,
            final(self).i_lastr == -1,
            forall|i: int| 0 <= i < I_ADDR_SIZE ==> #[trigger] final(self).i_addr@[i] == PhysicalBlock(0),
            final(self).i_flag == old(self).i_flag,
            final(self).i_count == old(self).i_count,
            final(self).i_dev == old(self).i_dev,
            final(self).i_number == old(self).i_number,
    {
        self.i_mode = 0;
        self.i_nlink = 0;
        self.i_uid = -1;
        self.i_gid = -1;
        self.i_size = 0;
        self.i_lastr = -1;
        self.i_addr = [PhysicalBlock(0); I_ADDR_SIZE];
    }

    /// Loads the file part of the inode from its disk inode.
    pub fn i_copy(&mut self, d: &DiskInode)
        ensures
            *final(self) == (Inode {
                i_mode: d.d_mode,
                i_nlink: d.d_nlink,
                i_uid: d.d_uid,
                i_gid: d.d_gid,
                i_size: d.d_size,
                i_addr: d.d_addr,
                ..*old(self)
            }),
    {
        self.i_mode = d.d_mode;
        self.i_nlink = d.d_nlink;
        self.i_uid = d.d_uid;
        self.i_gid = d.d_gid;
        self.i_size = d.d_size;
        self.i_addr = d.d_addr;
    }
}

} // verus!
