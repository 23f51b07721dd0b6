use vstd::prelude::*;

use crate::constants::PosixError;
use crate::fs::file::{File, FileFlags, OpenFiles, lowest_free};
use crate::fs::inode::{disk_inode_of, nonzero_blocks_reversed, DevId, DiskInode, Inode, InodeFlag, InodeMode, PhysicalBlock, I_ADDR_SIZE};

verus! {

/// The system open file table.
pub struct OpenFileTable {
    m_file: Vec<File>,
}

impl View for OpenFileTable {
    type V = Seq<File>;

    closed spec fn view(&self) -> Seq<File> {
        self.m_file@
    }
}

/// `s` is the first unused entry of table `t`.
pub open spec fn first_free_file(t: Seq<File>, s: int) -> bool {
    &&& 0 <= s < t.len()
    &&& t[s].f_count <= 0
    &&& forall|j: int| 0 <= j < s ==> #[trigger] t[j].f_count > 0
}

/// Every descriptor of `o` is in use.
pub open spec fn all_fds_used(o: Seq<Option<usize>>) -> bool {
    forall|j: int| 0 <= j < o.len() ==> #[trigger] o[j] is Some
}

/// Every entry of table `t` is in use.
pub open spec fn all_files_used(t: Seq<File>) -> bool {
    forall|j: int| 0 <= j < t.len() ==> #[trigger] t[j].f_count > 0
}

/// Opening a file on descriptors `o` and table `t` fails.
pub open spec fn alloc_fails(o: Seq<Option<usize>>, t: Seq<File>) -> bool {
    all_fds_used(o) || all_files_used(t)
}

/// The error of a failed open: `EMFILE` when the process has no free descriptor,
/// `ENFILE` otherwise.
pub open spec fn alloc_error(o: Seq<Option<usize>>) -> PosixError {
    if all_fds_used(o) { PosixError::EMFILE } else { PosixError::ENFILE }
}

/// Table `t` once its entry `s` is taken: reset, with one more reference.
pub open spec fn file_taken(t: Seq<File>, s: int) -> Seq<File> {
    t.update(s, File { f_flag: 0, f_count: (t[s].f_count + 1) as i32, f_inode: None, f_offset: 0 })
}

/// The lowest free descriptor of `o`, where there is one.
pub open spec fn lowest_free_fd(o: Seq<Option<usize>>) -> int {
    choose|fd: int| lowest_free(o, fd)
}

/// The first unused entry of `t`, where there is one.
pub open spec fn first_free_slot(t: Seq<File>) -> int {
    choose|s: int| first_free_file(t, s)
}

/// There is one lowest free descriptor.
pub proof fn lemma_lowest_free_unique(o: Seq<Option<usize>>, fd: int)
    requires
        lowest_free(o, fd),
    ensures
        lowest_free_fd(o) == fd,
{
    let c = lowest_free_fd(o);
    assert(lowest_free(o, c));
    if c < fd {
        assert(o[c] is Some);
    } else if fd < c {
        assert(o[fd] is Some);
    }
}

/// There is one first unused entry.
pub proof fn lemma_first_free_unique(t: Seq<File>, s: int)
    requires
        first_free_file(t, s),
    ensures
        first_free_slot(t) == s,
{
    let c = first_free_slot(t);
    assert(first_free_file(t, c));
    if c < s {
        assert(t[c].f_count > 0);
    } else if s < c {
        assert(t[s].f_count > 0);
    }
}

/// What closing a reference to an open file leaves for the caller to do.
#[derive(Debug)]
pub struct FilePut {
    /// The file was a pipe: its readers and writers must be woken.
    pub wake_pipe: bool,
    /// The last reference went away: the inode slot whose reference must be put.
    pub release_inode: Option<usize>,
}

impl OpenFileTable {
    /// Number of entries of the table.
    pub const NFILE: usize = 100;

    pub open spec fn wf(&self) -> bool {
        self@.len() == Self::NFILE
    }

    /// All entries unused.
    pub fn new() -> (r: Self)
        ensures
            r.wf(),
            forall|i: int| 0 <= i < Self::NFILE ==> #[trigger] r@[i] == File::new_spec(),
    {
        let mut m_file: Vec<File> = Vec::new();
        let mut i: usize = 0;
        while i < Self::NFILE
            invariant
                i <= Self::NFILE,
                m_file@.len() == i,
                forall|j: int| 0 <= j < i ==> #[trigger] m_file@[j] == File::new_spec(),
            decreases Self::NFILE - i,
        {
            m_file.push(File::new());
            i = i + 1;
        }
        OpenFileTable { m_file }
    }

    /// The entry in slot `i`.
    pub fn file(&self, i: usize) -> (r: File)
        requires
            i < self@.len(),
        ensures
            r == self@[i as int],
    {
        self.m_file[i]
    }

    /// The first unused entry.
    fn find_free(&self) -> (r: Option<usize>)
        requires
            self.wf(),
        ensures
            match r {
                Some(i) => i < Self::NFILE && self@[i as int].f_count <= 0 && forall|j: int| 0 <= j < i ==> #[trigger] self@[j].f_count > 0,
                None => forall|j: int| 0 <= j < Self::NFILE ==> #[trigger] self@[j].f_count > 0,
            },
    {
        let mut i: usize = 0;
        while i < Self::NFILE
            invariant
                self.wf(),
                i <= Self::NFILE,
                forall|j: int| 0 <= j < i ==> #[trigger] self@[j].f_count > 0,
            decreases Self::NFILE - i,
        {
            if self.m_file[i].is_free() {
                return Some(i);
            }
            i = i + 1;
        }
        None
    }

    /// Opens a file: takes the lowest free descriptor of the process (`EMFILE` when there
    /// is none) and the first unused entry of the table (`ENFILE` when there is none),
    /// resets the entry with one reference, and makes the descriptor name it.
    pub fn f_alloc(&mut self, open_files: &mut OpenFiles) -> (r: Result<(usize, usize), PosixError>)
        requires
            old(self).wf(),
            old(open_files).wf(),
        ensures
            final(self).wf(),
            final(open_files).wf(),
            match r {
                Ok((fd, slot)) => {
                    &&& lowest_free(old(open_files)@, fd as int)
                    &&& slot < Self::NFILE && old(self)@[slot as int].f_count <= 0
                    &&& forall|j: int| 0 <= j < slot ==> #[trigger] old(self)@[j].f_count > 0
                    &&& final(self)@ == old(self)@.update(slot as int, File { f_flag: 0, f_count: (old(self)@[slot as int].f_count + 1) as i32, f_inode: None, f_offset: 0 })
                    &&& final(open_files)@ == old(open_files)@.update(fd as int, Some(slot))
                },
                Err(e) => {
                    &&& final(self)@ == old(self)@
                    &&& final(open_files)@ == old(open_files)@
                    &&& (forall|j: int| 0 <= j < OpenFiles::NOFILES ==> #[trigger] old(open_files)@[j] is Some) ==> e == PosixError::EMFILE
                    &&& !(forall|j: int| 0 <= j < OpenFiles::NOFILES ==> #[trigger] old(open_files)@[j] is Some) ==> e == PosixError::ENFILE
                        && forall|j: int| 0 <= j < Self::NFILE ==> #[trigger] old(self)@[j].f_count > 0
                },
            },
    {
        let fd = match open_files.alloc_free_slot() {
            Ok(fd) => fd,
            Err(e) => return Err(e),
        };
        let slot = match self.find_free() {
            Some(s) => s,
            None => return Err(PosixError::ENFILE),
        };
        let old_count = self.m_file[slot].f_count;
        self.m_file.set(slot, File { f_flag: 0, f_count: old_count + 1, f_inode: None, f_offset: 0 });
        open_files.set_f(fd, slot);
        Ok((fd, slot))
    }

    /// Adds a reference to the entry in `slot`.
    pub fn f_dup(&mut self, slot: usize)
        requires
            old(self).wf(),
            slot < Self::NFILE,
            old(self)@[slot as int].f_count < i32::MAX,
        ensures
            final(self).wf(),
            final(self)@ == old(self)@.update(slot as int, File { f_count: (old(self)@[slot as int].f_count + 1) as i32, ..old(self)@[slot as int] }),
    {
        let f = self.m_file[slot];
        self.m_file.set(slot, File { f_count: f.f_count + 1, ..f });
    }

    /// Drops a reference to the entry in `slot`. Closing a pipe end clears the pipe's
    /// waiting bits in `inodes` (its readers and writers must then be woken); the last
    /// reference detaches the inode, which the caller must put.
    pub fn f_put_slot(&mut self, slot: usize, inodes: &mut InodeTable) -> (r: FilePut)
        requires
            old(self).wf(),
            old(inodes).wf(),
            slot < Self::NFILE,
            old(self)@[slot as int].f_count > i32::MIN,
            old(self)@[slot as int].f_flag & FileFlags::FPIPE != 0 ==> (old(self)@[slot as int].f_inode matches Some(i) && i < InodeTable::NINODE),
        ensures
            final(self).wf(),
            final(inodes).wf(),
            ({
                let f = old(self)@[slot as int];
                let pipe = f.f_flag & FileFlags::FPIPE != 0;
                let last = f.f_count <= 1;
                &&& r.wake_pipe == pipe
                &&& r.release_inode == (if last { f.f_inode } else { None })
                &&& final(self)@ == old(self)@.update(slot as int, File {
                    f_count: (f.f_count - 1) as i32,
                    f_inode: if last { None } else { f.f_inode },
                    ..f
                })
                &&& pipe ==> final(inodes)@ == old(inodes)@.update(f.f_inode->0 as int, Inode {
                    i_mode: old(inodes)@[f.f_inode->0 as int].i_mode & !(InodeMode::IREAD | InodeMode::IWRITE),
                    ..old(inodes)@[f.f_inode->0 as int]
                })
                &&& !pipe ==> final(inodes)@ == old(inodes)@
            }),
    {
        let f = self.m_file[slot];
        let pipe = f.f_flag & FileFlags::FPIPE != 0;
        if pipe {
            let i = f.f_inode.unwrap();
            inodes.clear_pipe_wait(i);
        }
        let last = f.f_count <= 1;
        let release = if last { f.f_inode } else { None };
        self.m_file.set(slot, File { f_count: f.f_count - 1, f_inode: if last { None } else { f.f_inode }, ..f });
        FilePut { wake_pipe: pipe, release_inode: release }
    }

    /// Attaches inode slot `inode` with flags `flag` to the entry in `slot`.
    pub fn set_file(&mut self, slot: usize, flag: u32, inode: Option<usize>)
        requires
            old(self).wf(),
            slot < Self::NFILE,
        ensures
            final(self).wf(),
            final(self)@ == old(self)@.update(slot as int, File { f_flag: flag, f_inode: inode, ..old(self)@[slot as int] }),
    {
        let f = self.m_file[slot];
        self.m_file.set(slot, File { f_flag: flag, f_inode: inode, ..f });
    }

    /// Sets the read/write offset of the entry in `slot`.
    pub fn set_offset(&mut self, slot: usize, offset: i32)
        requires
            old(self).wf(),
            slot < Self::NFILE,
        ensures
            final(self).wf(),
            final(self)@ == old(self)@.update(slot as int, File { f_offset: offset, ..old(self)@[slot as int] }),
    {
        let f = self.m_file[slot];
        self.m_file.set(slot, File { f_offset: offset, ..f });
    }
}

impl File {
    pub open spec fn new_spec() -> File {
        File { f_flag: 0, f_count: 0, f_inode: None, f_offset: 0 }
    }
}

/// The inode is referenced and not locked: a sync writes it back.
pub open spec fn syncable(o: Inode) -> bool {
    !(o.i_flag & InodeFlag::ILOCK != 0 || o.i_count == 0)
}

/// The inodes of `s`, in slot order, whose disk inodes a sync writes: referenced,
/// unlocked, and accessed or updated.
pub open spec fn to_write_back(s: Seq<Inode>) -> Seq<Inode>
    decreases s.len(),
{
    if s.len() == 0 {
        Seq::empty()
    } else {
        let rest = to_write_back(s.drop_last());
        let o = s.last();
        if syncable(o) && o.i_flag & (InodeFlag::IUPD | InodeFlag::IACC) != 0 { rest.push(o) } else { rest }
    }
}

/// The slots of `s`, in order, whose waiters a sync wakes: referenced, unlocked, and
/// wanted.
pub open spec fn waiting_slots(s: Seq<Inode>) -> Seq<usize>
    decreases s.len(),
{
    if s.len() == 0 {
        Seq::empty()
    } else {
        let rest = waiting_slots(s.drop_last());
        let o = s.last();
        if syncable(o) && o.i_flag & InodeFlag::IWANT != 0 { rest.push((s.len() - 1) as usize) } else { rest }
    }
}

/// What `InodeTable::i_get` found.
#[derive(Debug, Clone, Copy, PartialEq, Eq, Structural)]
pub enum IGet {
    /// The inode is in core in this slot; it is now referenced and locked.
    Found(usize),
    /// The inode is in core in this slot but locked: the want flag is set and the caller
    /// must sleep on the inode and try again.
    Locked(usize),
    /// The inode was not in core: this slot was taken for it (referenced, locked); the
    /// caller must read the disk inode into it (see `Inode::i_copy`).
    Load(usize),
}

/// What releasing the last reference to an inode leaves for the caller to do.
#[derive(Debug)]
pub struct IPut {
    /// A process waits for the inode: wake it.
    pub wake: bool,
    /// The inode has no links left and was freed: return its number to its file system
    /// (see `FileSystem::i_free`) and free these blocks.
    pub freed: Option<(DevId, i32)>,
    pub blocks: Vec<PhysicalBlock>,
    /// The disk inode to write back, if the inode changed.
    pub update: Option<(DevId, i32, DiskInode)>,
}

/// The table of in-core inodes.
pub struct InodeTable {
    m_inode: Vec<Inode>,
}

impl View for InodeTable {
    type V = Seq<Inode>;

    closed spec fn view(&self) -> Seq<Inode> {
        self.m_inode@
    }
}

/// Slot `i` holds inode `ino` of `dev` and is referenced.
pub open spec fn holds(t: Seq<Inode>, i: int, dev: DevId, ino: i32) -> bool {
    t[i].i_dev == dev && t[i].i_number == ino && t[i].i_count > 0
}

impl InodeTable {
    /// Number of in-core inodes.
    pub const NINODE: usize = 100;

    pub open spec fn wf(&self) -> bool {
        self@.len() == Self::NINODE
    }

    /// All slots free.
    pub fn new() -> (r: Self)
        ensures
            r.wf(),
            forall|i: int| 0 <= i < Self::NINODE ==> (#[trigger] r@[i]).is_blank(),
    {
        let mut m_inode: Vec<Inode> = Vec::new();
        let mut i: usize = 0;
        while i < Self::NINODE
            invariant
                i <= Self::NINODE,
                m_inode@.len() == i,
                forall|j: int| 0 <= j < i ==> (#[trigger] m_inode@[j]).is_blank(),
            decreases Self::NINODE - i,
        {
            m_inode.push(Inode::new());
            i = i + 1;
        }
        InodeTable { m_inode }
    }

    /// The inode in slot `i`.
    pub fn inode(&self, i: usize) -> (r: Inode)
        requires
            i < self@.len(),
        ensures
            r == self@[i as int],
    {
        self.m_inode[i]
    }

    /// Replaces the inode in slot `i`.
    pub fn set_inode(&mut self, i: usize, inode: Inode)
        requires
            old(self).wf(),
            i < Self::NINODE,
        ensures
            final(self).wf(),
            final(self)@ == old(self)@.update(i as int, inode),
    {
        self.m_inode.set(i, inode);
    }

    fn clear_pipe_wait(&mut self, i: usize)
        requires
            old(self).wf(),
            i < Self::NINODE,
        ensures
            final(self).wf(),
            final(self)@ == old(self)@.update(i as int, Inode { i_mode: old(self)@[i as int].i_mode & !(InodeMode::IREAD | InodeMode::IWRITE), ..old(self)@[i as int] }),
    {
        let ino = self.m_inode[i];
        self.m_inode.set(i, Inode { i_mode: ino.i_mode & !(InodeMode::IREAD | InodeMode::IWRITE), ..ino });
    }

    /// The slot that holds inode `ino` of `dev`, if it is in core.
    pub fn get(&self, dev: DevId, ino: i32) -> (r: Option<usize>)
        requires
            self.wf(),
        ensures
            match r {
                Some(i) => i < Self::NINODE && holds(self@, i as int, dev, ino) && forall|j: int| 0 <= j < i ==> !#[trigger] holds(self@, j, dev, ino),
                None => forall|j: int| 0 <= j < Self::NINODE ==> !#[trigger] holds(self@, j, dev, ino),
            },
    {
        let mut i: usize = 0;
        while i < Self::NINODE
            invariant
                self.wf(),
                i <= Self::NINODE,
                forall|j: int| 0 <= j < i ==> !#[trigger] holds(self@, j, dev, ino),
            decreases Self::NINODE - i,
        {
            let inode = &self.m_inode[i];
            if inode.i_dev == dev && inode.i_number == ino && inode.i_count > 0 {
                return Some(i);
            }
            i = i + 1;
        }
        None
    }

    /// Takes the first unreferenced slot for inode `ino` of `dev`: referenced once,
    /// locked, no read-ahead history.
    pub fn alloc_free(&mut self, dev: DevId, ino: i32) -> (r: Option<usize>)
        requires
            old(self).wf(),
        ensures
            final(self).wf(),
            match r {
                Some(i) => i < Self::NINODE && old(self)@[i as int].i_count == 0
                    && (forall|j: int| 0 <= j < i ==> #[trigger] old(self)@[j].i_count != 0)
                    && final(self)@ == old(self)@.update(i as int, Inode {
                        i_dev: dev, i_number: ino, i_flag: InodeFlag::ILOCK, i_count: 1i32, i_lastr: -1i32, ..old(self)@[i as int]
                    }),
                None => final(self)@ == old(self)@ && forall|j: int| 0 <= j < Self::NINODE ==> #[trigger] old(self)@[j].i_count != 0,
            },
    {
        let mut i: usize = 0;
        while i < Self::NINODE
            invariant
                self.wf(),
                self@ == old(self)@,
                i <= Self::NINODE,
                forall|j: int| 0 <= j < i ==> #[trigger] self@[j].i_count != 0,
            decreases Self::NINODE - i,
        {
            let inode = self.m_inode[i];
            if inode.i_count == 0 {
                self.m_inode.set(i, Inode { i_dev: dev, i_number: ino, i_flag: InodeFlag::ILOCK, i_count: 1, i_lastr: -1, ..inode });
                return Some(i);
            }
            i = i + 1;
        }
        None
    }

    /// Looks up inode `ino` of `dev` (see `IGet`); `ENFILE` when it is not in core and
    /// no slot is free.
    pub fn i_get(&mut self, dev: DevId, ino: i32) -> (r: Result<IGet, PosixError>)
        requires
            old(self).wf(),
            forall|j: int| 0 <= j < Self::NINODE && #[trigger] holds(old(self)@, j, dev, ino) ==> old(self)@[j].i_flag & InodeFlag::IMOUNT == 0
                && old(self)@[j].i_count < i32::MAX,
        ensures
            final(self).wf(),
            match r {
                Ok(IGet::Found(i)) => i < Self::NINODE && holds(old(self)@, i as int, dev, ino)
                    && (forall|j: int| 0 <= j < i ==> !#[trigger] holds(old(self)@, j, dev, ino))
                    && old(self)@[i as int].i_flag & InodeFlag::ILOCK == 0
                    && final(self)@ == old(self)@.update(i as int, Inode {
                        i_count: (old(self)@[i as int].i_count + 1) as i32,
                        i_flag: old(self)@[i as int].i_flag | InodeFlag::ILOCK,
                        ..old(self)@[i as int]
                    }),
                Ok(IGet::Locked(i)) => i < Self::NINODE && holds(old(self)@, i as int, dev, ino)
                    && (forall|j: int| 0 <= j < i ==> !#[trigger] holds(old(self)@, j, dev, ino))
                    && old(self)@[i as int].i_flag & InodeFlag::ILOCK != 0
                    && final(self)@ == old(self)@.update(i as int, Inode { i_flag: old(self)@[i as int].i_flag | InodeFlag::IWANT, ..old(self)@[i as int] }),
                Ok(IGet::Load(i)) => (forall|j: int| 0 <= j < Self::NINODE ==> !#[trigger] holds(old(self)@, j, dev, ino))
                    && i < Self::NINODE && old(self)@[i as int].i_count == 0
                    && (forall|j: int| 0 <= j < i ==> #[trigger] old(self)@[j].i_count != 0)
                    && final(self)@ == old(self)@.update(i as int, Inode {
                        i_dev: dev, i_number: ino, i_flag: InodeFlag::ILOCK, i_count: 1i32, i_lastr: -1i32, ..old(self)@[i as int]
                    }),
                Err(e) => e == PosixError::ENFILE && final(self)@ == old(self)@
                    && (forall|j: int| 0 <= j < Self::NINODE ==> !#[trigger] holds(old(self)@, j, dev, ino))
                    && forall|j: int| 0 <= j < Self::NINODE ==> #[trigger] old(self)@[j].i_count != 0,
            },
    {
        match self.get(dev, ino) {
            None => match self.alloc_free(dev, ino) {
                Some(i) => Ok(IGet::Load(i)),
                None => Err(PosixError::ENFILE),
            },
            Some(i) => {
                let inode = self.m_inode[i];
                if inode.i_flag & InodeFlag::ILOCK != 0 {
                    self.m_inode.set(i, Inode { i_flag: inode.i_flag | InodeFlag::IWANT, ..inode });
                    return Ok(IGet::Locked(i));
                }
                self.m_inode.set(i, Inode { i_count: inode.i_count + 1, i_flag: inode.i_flag | InodeFlag::ILOCK, ..inode });
                Ok(IGet::Found(i))
            },
        }
    }

    /// Adds a reference to the inode in slot `i`.
    pub fn i_dup(&mut self, i: usize)
        requires
            old(self).wf(),
            i < Self::NINODE,
            old(self)@[i as int].i_count < i32::MAX,
        ensures
            final(self).wf(),
            final(self)@ == old(self)@.update(i as int, Inode { i_count: (old(self)@[i as int].i_count + 1) as i32, ..old(self)@[i as int] }),
    {
        let inode = self.m_inode[i];
        self.m_inode.set(i, Inode { i_count: inode.i_count + 1, ..inode });
    }

    /// Drops a reference to the inode in slot `i` (which the caller holds locked) at
    /// time `time`. While references remain the inode is just unlocked. The last
    /// reference writes the inode back (see `Inode::i_update`) and frees the slot; an
    /// inode without links is first truncated and freed (its mode cleared).
    pub fn i_put_slot(&mut self, i: usize, time: i32) -> (r: IPut)
        requires
            old(self).wf(),
            i < Self::NINODE,
            old(self)@[i as int].i_count > i32::MIN,
        ensures
            final(self).wf(),
            ({
                let old_ino = old(self)@[i as int];
                let new_ino = final(self)@[i as int];
                let c = (old_ino.i_count - 1) as i32;
                &&& final(self)@ == old(self)@.update(i as int, new_ino)
                &&& new_ino.i_count == c
                &&& c != 0 ==> {
                    &&& r.wake == (old_ino.i_flag & InodeFlag::IWANT != 0)
                    &&& new_ino.i_flag == old_ino.i_flag & !InodeFlag::ILOCK & !(if r.wake { InodeFlag::IWANT } else { 0 })
                    &&& r.freed is None && r.update is None && r.blocks@.len() == 0
                    &&& new_ino.i_number == old_ino.i_number
                }
                &&& c == 0 ==> {
                    &&& new_ino.i_flag == 0
                    &&& new_ino.i_number == -1
                    &&& new_ino.i_dev == old_ino.i_dev
                    &&& r.wake == (old_ino.i_flag & InodeFlag::IWANT != 0)
                    &&& (old_ino.i_nlink <= 0 ==> {
                        let dev_file = old_ino.i_mode & (InodeMode::IFCHR | InodeMode::IFBLK) != 0;
                        &&& r.freed == Some((old_ino.i_dev, old_ino.i_number))
                        &&& new_ino.i_mode == 0
                        &&& new_ino.i_size == (if dev_file { old_ino.i_size } else { 0 })
                        &&& new_ino.i_nlink == (if dev_file { old_ino.i_nlink } else { 1 })
                        &&& new_ino.i_addr@ == (if dev_file { old_ino.i_addr@ } else { Seq::new(I_ADDR_SIZE as nat, |k: int| PhysicalBlock(0)) })
                        &&& r.blocks@ == (if dev_file { Seq::<PhysicalBlock>::empty() } else { nonzero_blocks_reversed(old_ino.i_addr@, I_ADDR_SIZE as int) })
                        &&& (r.update is Some <==> (!dev_file || old_ino.i_flag & (InodeFlag::IUPD | InodeFlag::IACC) != 0))
                        &&& (r.update matches Some((d, n, di)) ==> d == old_ino.i_dev && n == old_ino.i_number
                            && di.d_mode == 0 && di.d_uid == old_ino.i_uid && di.d_gid == old_ino.i_gid
                            && di.d_nlink == new_ino.i_nlink && di.d_size == new_ino.i_size && di.d_addr@ == new_ino.i_addr@
                            && di.d_atime == (if old_ino.i_flag & InodeFlag::IACC != 0 { time } else { 0 })
                            && di.d_mtime == (if !dev_file || old_ino.i_flag & InodeFlag::IUPD != 0 { time } else { 0 }))
                    })
                    &&& (old_ino.i_nlink > 0 ==> r.freed is None && r.blocks@.len() == 0 && new_ino.i_mode == old_ino.i_mode
                        && new_ino.i_size == old_ino.i_size && new_ino.i_addr == old_ino.i_addr
                        && (r.update is Some <==> old_ino.i_flag & (InodeFlag::IUPD | InodeFlag::IACC) != 0)
                        && (r.update matches Some((d, n, di)) ==> d == old_ino.i_dev && n == old_ino.i_number
                            && disk_inode_of(di, old_ino, time)))
                }
            }),
    {
        let mut inode = self.m_inode[i];
        inode.i_count = inode.i_count - 1;
        if inode.i_count != 0 {
            let wake = inode.prele();
            self.m_inode.set(i, inode);
            return IPut { wake, freed: None, blocks: Vec::new(), update: None };
        }
        let f0 = inode.i_flag;
        inode.i_flag = f0 | InodeFlag::ILOCK;
        assert((f0 | 1u32) & (2u32 | 4u32) == f0 & (2u32 | 4u32) && (f0 | 1u32) & 0x10u32 == f0 & 0x10u32
            && ((f0 | 1u32) | 2u32) & 0x10u32 == f0 & 0x10u32
            && (f0 | 1u32) & 4u32 == f0 & 4u32 && (f0 | 1u32) & 2u32 == f0 & 2u32
            && ((f0 | 1u32) | 2u32) & (2u32 | 4u32) != 0 && ((f0 | 1u32) | 2u32) & 2u32 != 0
            && ((f0 | 1u32) | 2u32) & 4u32 == f0 & 4u32) by (bit_vector);
        let mut freed = None;
        let mut blocks = Vec::new();
        if inode.i_nlink <= 0 {
            let ghost before = inode;
            blocks = inode.i_trunc();
            inode.i_mode = 0;
            freed = Some((inode.i_dev, inode.i_number));
        }
        let update = match inode.i_update(time) {
            Some(d) => Some((inode.i_dev, inode.i_number, d)),
            None => None,
        };
        let wake = inode.prele();
        inode.i_flag = 0;
        inode.i_number = -1;
        self.m_inode.set(i, inode);
        IPut { wake, freed, blocks, update }
    }

    /// Writes back the referenced, unlocked inodes at time `time`: returns the disk inodes
    /// to write with their devices and numbers, and the slots whose waiters must be woken.
    pub fn update_inode_table(&mut self, time: i32) -> (r: (Vec<(DevId, i32, DiskInode)>, Vec<usize>))
        requires
            old(self).wf(),
        ensures
            final(self).wf(),
            r.0@.len() == to_write_back(old(self)@).len(),
            forall|k: int| 0 <= k < r.0@.len() ==> {
                let o = #[trigger] to_write_back(old(self)@)[k];
                &&& r.0@[k].0 == o.i_dev
                &&& r.0@[k].1 == o.i_number
                &&& disk_inode_of(r.0@[k].2, o, time)
            },
            r.1@ == waiting_slots(old(self)@),
            forall|j: int| 0 <= j < Self::NINODE ==> {
                let o = #[trigger] old(self)@[j];
                &&& (o.i_flag & InodeFlag::ILOCK != 0 || o.i_count == 0) ==> final(self)@[j] == o
                &&& !(o.i_flag & InodeFlag::ILOCK != 0 || o.i_count == 0) ==> final(self)@[j] == Inode {
                    i_flag: (o.i_flag | InodeFlag::ILOCK) & !InodeFlag::ILOCK & !(if o.i_flag & InodeFlag::IWANT != 0 { InodeFlag::IWANT } else { 0 }),
                    ..o
                }
            },
    {
        let mut updates: Vec<(DevId, i32, DiskInode)> = Vec::new();
        let mut wakes: Vec<usize> = Vec::new();
        let mut i: usize = 0;
        while i < Self::NINODE
            invariant
                self.wf(),
                old(self).wf(),
                old(self)@.len() == Self::NINODE,
                i <= Self::NINODE,
                updates@.len() == to_write_back(old(self)@.take(i as int)).len(),
                forall|k: int| 0 <= k < updates@.len() ==> {
                    let o = #[trigger] to_write_back(old(self)@.take(i as int))[k];
                    &&& updates@[k].0 == o.i_dev
                    &&& updates@[k].1 == o.i_number
                    &&& disk_inode_of(updates@[k].2, o, time)
                },
                wakes@ == waiting_slots(old(self)@.take(i as int)),
                forall|j: int| i <= j < Self::NINODE ==> #[trigger] self@[j] == old(self)@[j],
                forall|j: int| 0 <= j < i ==> {
                    let o = #[trigger] old(self)@[j];
                    &&& (o.i_flag & InodeFlag::ILOCK != 0 || o.i_count == 0) ==> self@[j] == o
                    &&& !(o.i_flag & InodeFlag::ILOCK != 0 || o.i_count == 0) ==> self@[j] == Inode {
                        i_flag: (o.i_flag | InodeFlag::ILOCK) & !InodeFlag::ILOCK & !(if o.i_flag & InodeFlag::IWANT != 0 { InodeFlag::IWANT } else { 0 }),
                        ..o
                    }
                },
            decreases Self::NINODE - i,
        {
            assert(old(self)@.take(i as int + 1).drop_last() =~= old(self)@.take(i as int));
            let mut inode = self.m_inode[i];
            if !(inode.i_flag & InodeFlag::ILOCK != 0 || inode.i_count == 0) {
                let f0 = inode.i_flag;
                inode.i_flag = inode.i_flag | InodeFlag::ILOCK;
                assert((f0 | 1u32) & 0x10u32 == f0 & 0x10u32 && (f0 | 1u32) & (2u32 | 4u32) == f0 & (2u32 | 4u32)
                    && (f0 | 1u32) & 4u32 == f0 & 4u32 && (f0 | 1u32) & 2u32 == f0 & 2u32) by (bit_vector);
                match inode.i_update(time) {
                    Some(d) => updates.push((inode.i_dev, inode.i_number, d)),
                    None => {},
                }
                if inode.prele() {
                    wakes.push(i);
                }
                self.m_inode.set(i, inode);
            }
            i = i + 1;
        }
        assert(old(self)@.take(Self::NINODE as int) =~= old(self)@);
        (updates, wakes)
    }
}

} // verus!
