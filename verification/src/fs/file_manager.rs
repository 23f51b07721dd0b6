use vstd::prelude::*;

use crate::constants::PosixError;
use crate::fs::file::{File, FileFlags, IOParameter, OpenFiles, lowest_free};
use crate::fs::inode::{disk_inode_of, DevId, DiskInode, Inode, InodeFlag, InodeMode, PhysicalBlock, I_ADDR_SIZE, nonzero_blocks_reversed};
use crate::fs::open_file_manager::{
    alloc_error, alloc_fails, file_taken, first_free_file, first_free_slot, lemma_first_free_unique,
    lemma_lowest_free_unique, lowest_free_fd, FilePut, InodeTable, OpenFileTable,
};

verus! {

/// First sector of the super block.
pub const SUPERBLOCK_SECTOR_OFF: usize = 200;
/// First sector of the inode zone.
pub const INODE_SECTOR_OFF: usize = 202;
/// Disk inodes per sector.
pub const INODE_NUMBER_PER_SECTOR: usize = 8;
/// Size of a disk inode in bytes.
pub const DISK_INODE_SIZE: usize = 64;
/// Inode number of the root directory.
pub const ROOTINO: i32 = 1;

/// How a path name is looked up.
#[derive(Debug, Clone, Copy, PartialEq, Eq, Structural)]
pub enum DirSearchMode {
    Open,
    Create,
    Delete,
}

/// A directory entry: an inode number (0 for a free entry) and a NUL-padded name.
#[derive(Clone, Copy, Debug)]
pub struct DirectoryEntry {
    pub m_ino: i32,
    pub m_name: [u8; 28],
}

/// The name stored in a NUL-padded field: the bytes before the first NUL.
pub open spec fn name_of(field: Seq<u8>) -> Seq<u8> {
    field.take(first_zero(field) as int)
}

/// Index of the first NUL of `s`, or its length.
pub open spec fn first_zero(s: Seq<u8>) -> nat
    decreases s.len(),
{
    if s.len() == 0 {
        0
    } else if s[0] == 0 {
        0
    } else {
        1 + first_zero(s.drop_first())
    }
}

proof fn lemma_first_zero(s: Seq<u8>)
    ensures
        first_zero(s) <= s.len(),
        forall|j: int| 0 <= j < first_zero(s) ==> #[trigger] s[j] != 0,
        first_zero(s) < s.len() ==> s[first_zero(s) as int] == 0,
    decreases s.len(),
{
    if s.len() > 0 && s[0] != 0 {
        lemma_first_zero(s.drop_first());
        assert forall|j: int| 0 <= j < first_zero(s) implies #[trigger] s[j] != 0 by {
            if j > 0 {
                assert(s[j] == s.drop_first()[j - 1]);
            }
        }
    }
}

proof fn lemma_first_zero_at(s: Seq<u8>, k: int)
    requires
        0 <= k < s.len(),
        s[k] == 0,
        forall|j: int| 0 <= j < k ==> #[trigger] s[j] != 0,
    ensures
        first_zero(s) == k,
    decreases k,
{
    if k > 0 {
        assert forall|j: int| 0 <= j < k - 1 implies #[trigger] s.drop_first()[j] != 0 by {
            assert(s.drop_first()[j] == s[j + 1]);
        }
        lemma_first_zero_at(s.drop_first(), k - 1);
    }
}

impl DirectoryEntry {
    /// Length of the name field.
    pub const DIRSIZ: usize = 28;

    /// A free entry.
    pub fn new() -> (r: Self)
        ensures
            r.m_ino == 0,
            forall|i: int| 0 <= i < Self::DIRSIZ ==> #[trigger] r.m_name@[i] == 0,
    {
        DirectoryEntry { m_ino: 0, m_name: [0u8; 28] }
    }

    /// The name of the entry (the name field must hold a NUL).
    pub fn name(&self) -> (r: Vec<u8>)
        requires
            exists|i: int| 0 <= i < Self::DIRSIZ && #[trigger] self.m_name@[i] == 0,
        ensures
            r@ == name_of(self.m_name@),
    {
        let mut r: Vec<u8> = Vec::new();
        let mut i: usize = 0;
        while i < Self::DIRSIZ && self.m_name[i] != 0
            invariant
                i <= Self::DIRSIZ,
                self.m_name@.len() == Self::DIRSIZ,
                r@ == self.m_name@.take(i as int),
                forall|j: int| 0 <= j < i ==> #[trigger] self.m_name@[j] != 0,
            decreases Self::DIRSIZ - i,
        {
            r.push(self.m_name[i]);
            i = i + 1;
            assert(r@ =~= self.m_name@.take(i as int));
        }
        proof {
            if i == Self::DIRSIZ {
                let k = choose|k: int| 0 <= k < Self::DIRSIZ && #[trigger] self.m_name@[k] == 0;
                assert(self.m_name@[k] != 0);
            }
            lemma_first_zero_at(self.m_name@, i as int);
        }
        r
    }

    /// The entry holds `ino` and is named `name`.
    pub open spec fn matches_name(&self, name: Seq<u8>) -> bool {
        self.m_ino != 0 && name_of(self.m_name@) == name
    }

    /// The entry's name is `name` (compared up to the entry's NUL).
    pub fn name_is(&self, name: &[u8]) -> (r: bool)
        requires
            exists|i: int| 0 <= i < Self::DIRSIZ && #[trigger] self.m_name@[i] == 0,
        ensures
            r == (name_of(self.m_name@) == name@),
    {
        let n = self.name();
        if n.len() != name.len() {
            assert(n@.len() != name@.len());
            return false;
        }
        let mut i: usize = 0;
        while i < n.len()
            invariant
                n@ == name_of(self.m_name@),
                n@.len() == name@.len(),
                i <= n@.len(),
                forall|j: int| 0 <= j < i ==> #[trigger] n@[j] == name@[j],
            decreases n@.len() - i,
        {
            if n[i] != name[i] {
                assert(n@[i as int] != name@[i as int]);
                return false;
            }
            i = i + 1;
        }
        assert(n@ =~= name@);
        true
    }
}

/// An entry whose name field holds a NUL.
pub open spec fn entry_ok(e: DirectoryEntry) -> bool {
    exists|i: int| 0 <= i < DirectoryEntry::DIRSIZ && #[trigger] e.m_name@[i] == 0
}

/// What a scan of a directory found.
#[derive(Debug, Clone, Copy)]
pub struct DirScan {
    /// The first live entry with the wanted name.
    pub found: Option<usize>,
    /// The first free entry before it (or before the end).
    pub free: Option<usize>,
    /// Number of entries examined.
    pub examined: usize,
}

/// The outcome of looking a name up in a directory.
#[derive(Debug, Clone, Copy, PartialEq, Eq, Structural)]
pub enum SearchOutcome {
    /// The name is in entry `index`, holding inode `ino`: open it.
    Found { index: usize, ino: i32 },
    /// The name is in entry `index`, to be removed by the caller.
    Remove { index: usize },
    /// The name is not there: create it in entry `index`; `append` when it extends
    /// the directory (which is then marked updated).
    Create { index: usize, append: bool },
}

/// `r` is the scan of the first `count` entries for `name`: the first live entry with
/// that name, and the first free entry before it.
pub open spec fn scan_ok(entries: Seq<DirectoryEntry>, count: usize, name: Seq<u8>, r: DirScan) -> bool {
    &&& r.examined <= count
    &&& match r.found {
        Some(k) => k < count && k == r.examined && entries[k as int].matches_name(name)
            && forall|j: int| 0 <= j < k ==> !(#[trigger] entries[j]).matches_name(name),
        None => r.examined == count && forall|j: int| 0 <= j < count ==> !(#[trigger] entries[j]).matches_name(name),
    }
    &&& match r.free {
        Some(k) => k < r.examined && entries[k as int].m_ino == 0 && forall|j: int| 0 <= j < k ==> (#[trigger] entries[j]).m_ino != 0,
        None => forall|j: int| 0 <= j < r.examined ==> (#[trigger] entries[j]).m_ino != 0,
    }
}

/// A lookup in a directory: the scan, its outcome, and where the directory transfer
/// stands after it (the byte offset of the entry found or to fill, and the entries left
/// from there).
#[derive(Debug, Clone, Copy)]
pub struct SearchResult {
    pub scan: DirScan,
    pub outcome: Result<SearchOutcome, PosixError>,
    pub offset: usize,
    pub count: usize,
}

/// The outcome of a lookup, given the scan of the directory.
pub open spec fn search_outcome_spec(entries: Seq<DirectoryEntry>, scan: DirScan, count: usize, create: bool, remove: bool, can_write: bool) -> Result<SearchOutcome, PosixError> {
    match scan.found {
        None => if !create {
            Err(PosixError::ENOENT)
        } else if !can_write {
            Err(PosixError::EACCES)
        } else {
            match scan.free {
                Some(k) => Ok(SearchOutcome::Create { index: k, append: false }),
                None => Ok(SearchOutcome::Create { index: count, append: true }),
            }
        },
        Some(k) => if remove {
            if can_write { Ok(SearchOutcome::Remove { index: k }) } else { Err(PosixError::EACCES) }
        } else {
            Ok(SearchOutcome::Found { index: k, ino: entries[k as int].m_ino })
        },
    }
}

pub struct FileManager;

impl FileManager {
    /// The lookup mode of a `namei` argument: 1 creates, 2 deletes, anything else opens.
    pub fn mode(m: u32) -> (r: DirSearchMode)
        ensures
            r == (if m == 1 { DirSearchMode::Create } else if m == 2 { DirSearchMode::Delete } else { DirSearchMode::Open }),
    {
        match m {
            1 => DirSearchMode::Create,
            2 => DirSearchMode::Delete,
            _ => DirSearchMode::Open,
        }
    }

    /// Scans the first `count` entries of a directory for `name`: the first live entry
    /// with that name, and the first free entry met before it.
    pub fn scan_entries(entries: &[DirectoryEntry], count: usize, name: &[u8]) -> (r: DirScan)
        requires
            count <= entries@.len(),
            forall|i: int| 0 <= i < entries@.len() ==> entry_ok(#[trigger] entries@[i]),
        ensures
            scan_ok(entries@, count, name@, r),
    {
        let mut free: Option<usize> = None;
        let mut i: usize = 0;
        while i < count
            invariant
                count <= entries@.len(),
                forall|i: int| 0 <= i < entries@.len() ==> entry_ok(#[trigger] entries@[i]),
                i <= count,
                forall|j: int| 0 <= j < i ==> !(#[trigger] entries@[j]).matches_name(name@),
                match free {
                    Some(k) => k < i && entries@[k as int].m_ino == 0 && forall|j: int| 0 <= j < k ==> (#[trigger] entries@[j]).m_ino != 0,
                    None => forall|j: int| 0 <= j < i ==> (#[trigger] entries@[j]).m_ino != 0,
                },
            decreases count - i,
        {
            let e = &entries[i];
            assert(entry_ok(entries@[i as int]));
            if e.m_ino == 0 && free.is_none() {
                free = Some(i);
            }
            if e.m_ino != 0 && e.name_is(name) {
                return DirScan { found: Some(i), free, examined: i };
            }
            i = i + 1;
        }
        DirScan { found: None, free, examined: count }
    }

    /// What a lookup does after the scan: a missing name is `ENOENT` unless creating,
    /// and creating or removing needs write access to the directory (`EACCES`).
    pub fn search_outcome(entries: &[DirectoryEntry], scan: DirScan, count: usize, create: bool, remove: bool, can_write: bool) -> (r: Result<SearchOutcome, PosixError>)
        requires
            scan.found matches Some(k) ==> k < entries@.len(),
        ensures
            r == search_outcome_spec(entries@, scan, count, create, remove, can_write),
    {
        match scan.found {
            None => {
                if !create {
                    return Err(PosixError::ENOENT);
                }
                if !can_write {
                    return Err(PosixError::EACCES);
                }
                match scan.free {
                    Some(k) => Ok(SearchOutcome::Create { index: k, append: false }),
                    None => Ok(SearchOutcome::Create { index: count, append: true }),
                }
            },
            Some(k) => {
                if remove {
                    if !can_write {
                        return Err(PosixError::EACCES);
                    }
                    return Ok(SearchOutcome::Remove { index: k });
                }
                Ok(SearchOutcome::Found { index: k, ino: entries[k].m_ino })
            },
        }
    }

    /// Looks `name` up among the first `count` entries of a directory (see `scan_ok` and
    /// `search_outcome_spec`). The transfer offset is that of the entry found, or of the
    /// entry to fill when creating, or the end of the directory.
    pub fn search(entries: &[DirectoryEntry], count: usize, name: &[u8], create: bool, remove: bool, can_write: bool) -> (r: SearchResult)
        requires
            count <= entries@.len(),
            count * 32 <= usize::MAX,
            forall|i: int| 0 <= i < entries@.len() ==> entry_ok(#[trigger] entries@[i]),
        ensures
            scan_ok(entries@, count, name@, r.scan),
            r.outcome == search_outcome_spec(entries@, r.scan, count, create, remove, can_write),
            r.scan.found matches Some(k) ==> r.offset == k * 32 && r.count == count - k,
            r.scan.found is None ==> r.count == 0 && r.offset == (if create && can_write && r.scan.free is Some { r.scan.free->0 * 32 } else { count * 32 }),
    {
        let scan = Self::scan_entries(entries, count, name);
        let outcome = Self::search_outcome(entries, scan, count, create, remove, can_write);
        match scan.found {
            Some(k) => SearchResult { scan, outcome, offset: k * 32, count: count - k },
            None => {
                let offset = match scan.free {
                    Some(k) => if create && can_write { k * 32 } else { count * 32 },
                    None => count * 32,
                };
                SearchResult { scan, outcome, offset, count: 0 }
            },
        }
    }

    /// The next component of a path at `start`: its end, and where the component after
    /// it starts (past the slashes). `EINVAL` when the component is 28 bytes or longer.
    pub fn next_component(path: &[u8], start: usize) -> (r: Result<(usize, usize), PosixError>)
        requires
            start <= path@.len(),
        ensures
            match r {
                Ok((end, next)) => start <= end <= next <= path@.len() && end - start < DirectoryEntry::DIRSIZ
                    && (forall|j: int| start <= j < end ==> #[trigger] path@[j] != 47)
                    && (end < path@.len() ==> path@[end as int] == 47)
                    && (forall|j: int| end <= j < next ==> #[trigger] path@[j] == 47)
                    && (next < path@.len() ==> path@[next as int] != 47),
                Err(e) => e == PosixError::EINVAL && start + DirectoryEntry::DIRSIZ <= path@.len()
                    && forall|j: int| start <= j < start + DirectoryEntry::DIRSIZ ==> #[trigger] path@[j] != 47,
            },
    {
        let mut end = start;
        while end < path.len() && path[end] != 47
            invariant
                start <= end <= path@.len(),
                forall|j: int| start <= j < end ==> #[trigger] path@[j] != 47,
            decreases path@.len() - end,
        {
            end = end + 1;
        }
        if end - start >= DirectoryEntry::DIRSIZ {
            return Err(PosixError::EINVAL);
        }
        let mut next = end;
        while next < path.len() && path[next] == 47
            invariant
                end <= next <= path@.len(),
                forall|j: int| end <= j < next ==> #[trigger] path@[j] == 47,
            decreases path@.len() - next,
        {
            next = next + 1;
        }
        Ok((end, next))
    }

    /// The component of `path` at `start` has 28 bytes or more (no room for its null).
    pub open spec fn component_too_long(path: Seq<u8>, start: int) -> bool {
        start + DirectoryEntry::DIRSIZ <= path.len() && forall|j: int| start <= j < start + DirectoryEntry::DIRSIZ ==> #[trigger] path[j] != 47
    }

    /// One step of a path lookup from directory `dir` at `start` of `path`: `dir` must
    /// be a directory (`ENOTDIR`) the caller may search (`EACCES`); the next component
    /// (see `next_component`) is then looked up in it, creating or removing it when it is
    /// the last one and `mode` says so. Returns the component's end, where the next one
    /// starts, and the create and remove flags of the search.
    pub fn find_step(dir: &Inode, path: &[u8], start: usize, mode: DirSearchMode, uid: i16, gid: i16) -> (r: Result<(usize, usize, bool, bool), PosixError>)
        requires
            start <= path@.len(),
        ensures
            dir.i_mode & InodeMode::IFMT != InodeMode::IFDIR ==> r == Err::<(usize, usize, bool, bool), PosixError>(PosixError::ENOTDIR),
            dir.i_mode & InodeMode::IFMT == InodeMode::IFDIR && access_spec(*dir, InodeMode::IEXEC, uid, gid, Some(false)) is Err ==>
                r == Err::<(usize, usize, bool, bool), PosixError>(PosixError::EACCES),
            r matches Ok((end, next, create, remove)) ==> dir.i_mode & InodeMode::IFMT == InodeMode::IFDIR
                && start <= end <= next <= path@.len() && end - start < DirectoryEntry::DIRSIZ
                && (forall|j: int| start <= j < end ==> #[trigger] path@[j] != 47)
                && (end < path@.len() ==> path@[end as int] == 47)
                && (forall|j: int| end <= j < next ==> #[trigger] path@[j] == 47)
                && (next < path@.len() ==> path@[next as int] != 47)
                && create == (mode == DirSearchMode::Create && next == path@.len())
                && remove == (mode == DirSearchMode::Delete && next == path@.len()),
            r is Err ==> r == Err::<(usize, usize, bool, bool), PosixError>(PosixError::ENOTDIR) || r == Err::<(usize, usize, bool, bool), PosixError>(PosixError::EACCES)
                || r == Err::<(usize, usize, bool, bool), PosixError>(PosixError::EINVAL),
            r == Err::<(usize, usize, bool, bool), PosixError>(PosixError::EINVAL) ==> Self::component_too_long(path@, start as int),
            dir.i_mode & InodeMode::IFMT == InodeMode::IFDIR && access_spec(*dir, InodeMode::IEXEC, uid, gid, Some(false)) is Ok ==>
                (r is Err <==> Self::component_too_long(path@, start as int)),
            dir.i_mode & InodeMode::IFMT == InodeMode::IFDIR && access_spec(*dir, InodeMode::IEXEC, uid, gid, Some(false)) is Ok
                && Self::component_too_long(path@, start as int) ==> r == Err::<(usize, usize, bool, bool), PosixError>(PosixError::EINVAL),
    {
        if dir.i_mode & InodeMode::IFMT != InodeMode::IFDIR {
            return Err(PosixError::ENOTDIR);
        }
        match access_inode(dir, InodeMode::IEXEC, uid, gid, Some(false)) {
            Err(e) => return Err(e),
            Ok(()) => {},
        }
        let (end, next) = match Self::next_component(path, start) {
            Ok(v) => v,
            Err(e) => return Err(e),
        };
        let last = next == path.len();
        Ok((end, next, mode == DirSearchMode::Create && last, mode == DirSearchMode::Delete && last))
    }

    /// Where a path name starts being looked up: past its leading slashes; `true` when it
    /// is absolute (starts at the root), `false` when it starts at the current directory.
    pub fn path_start(path: &[u8]) -> (r: (bool, usize))
        ensures
            r.0 == (path@.len() > 0 && path@[0] == 47),
            r.1 <= path@.len(),
            forall|j: int| 0 <= j < r.1 ==> #[trigger] path@[j] == 47,
            r.1 < path@.len() ==> path@[r.1 as int] != 47,
    {
        let abs = path.len() > 0 && path[0] == 47;
        let mut i: usize = 0;
        while i < path.len() && path[i] == 47
            invariant
                i <= path@.len(),
                forall|j: int| 0 <= j < i ==> #[trigger] path@[j] == 47,
            decreases path@.len() - i,
        {
            i = i + 1;
        }
        (abs, i)
    }

    /// Starts looking `path` up: from the root directory (inode slot `root`) for an
    /// absolute path, from the current directory (slot `cwd`) otherwise, past the leading
    /// slashes (see `path_start`). The lookup is over, at `dir`, when `pos` is the end of
    /// the path: a path of slashes only, such as `/`, names the root.
    pub fn find_begin(path: &[u8], root: usize, cwd: usize) -> (r: FindWalk)
        ensures
            r.dir == (if path@.len() > 0 && path@[0] == 47 { root } else { cwd }),
            r.pos <= path@.len(),
            forall|j: int| 0 <= j < r.pos ==> #[trigger] path@[j] == 47,
            r.pos < path@.len() ==> path@[r.pos as int] != 47,
            (path@.len() > 0 && forall|j: int| 0 <= j < path@.len() ==> #[trigger] path@[j] == 47)
                ==> r.dir == root && r.pos == path@.len(),
    {
        let (abs, pos) = Self::path_start(path);
        if abs {
            FindWalk { dir: root, pos }
        } else {
            FindWalk { dir: cwd, pos }
        }
    }
}

/// Where a path lookup stands: the directory reached (its inode slot) and where the rest
/// of the path starts.
#[derive(Debug, Clone, Copy, PartialEq, Eq, Structural)]
pub struct FindWalk {
    pub dir: usize,
    pub pos: usize,
}

/// The permission bits that apply to a user: the owner's, the group's or the others'.
pub open spec fn applicable_bits(inode: Inode, mode: u32, uid: i16, gid: i16) -> u32 {
    if uid != inode.i_uid {
        if gid != inode.i_gid { (mode >> 3u32) >> 3u32 } else { mode >> 3u32 }
    } else {
        mode
    }
}

/// The outcome of an access check (see `access_inode`).
pub open spec fn access_spec(inode: Inode, mode: u32, uid: i16, gid: i16, fs_readonly: Option<bool>) -> Result<(), PosixError> {
    if mode == InodeMode::IWRITE && fs_readonly is None {
        Err(PosixError::EIO)
    } else if mode == InodeMode::IWRITE && fs_readonly == Some(true) {
        Err(PosixError::EROFS)
    } else if uid == 0 {
        if mode == InodeMode::IEXEC && inode.i_mode & (0x40u32 | 0x8u32 | 0x1u32) == 0 { Err(PosixError::EACCES) } else { Ok(()) }
    } else {
        if inode.i_mode & applicable_bits(inode, mode, uid, gid) != 0 { Ok(()) } else { Err(PosixError::EACCES) }
    }
}

/// Checks that a user may access `inode` for `mode` (one of IREAD, IWRITE, IEXEC).
///
/// Writing needs the inode's file system mounted (`EIO` otherwise; `fs_readonly` is
/// `None` when it is not) and writable (`EROFS`). The super-user may do anything but
/// execute a file without any execute bit (`EACCES`). Others need the owner's, group's
/// or others' bit for `mode` (`EACCES`).
pub fn access_inode(inode: &Inode, mode: u32, uid: i16, gid: i16, fs_readonly: Option<bool>) -> (r: Result<(), PosixError>)
    ensures
        r == access_spec(*inode, mode, uid, gid, fs_readonly),
{
    if mode == InodeMode::IWRITE {
        match fs_readonly {
            None => return Err(PosixError::EIO),
            Some(true) => return Err(PosixError::EROFS),
            Some(false) => {},
        }
    }
    if uid == 0 {
        let exec_bits = InodeMode::IEXEC | (InodeMode::IEXEC >> 3u32) | (InodeMode::IEXEC >> 6u32);
        assert(exec_bits == 0x40u32 | 0x8u32 | 0x1u32) by (bit_vector)
            requires
                exec_bits == 0x40u32 | (0x40u32 >> 3u32) | (0x40u32 >> 6u32),
        ;
        let has_exec = inode.i_mode & exec_bits != 0;
        if mode == InodeMode::IEXEC && !has_exec {
            return Err(PosixError::EACCES);
        }
        return Ok(());
    }
    let mut mode_bits = mode;
    if uid != inode.i_uid {
        mode_bits = mode_bits >> 3u32;
        if gid != inode.i_gid {
            mode_bits = mode_bits >> 3u32;
        }
    }
    if inode.i_mode & mode_bits != 0 {
        return Ok(());
    }
    Err(PosixError::EACCES)
}

/// Who may do what to a file, by its mode bits. The super-user may read any file, write
/// any file of a writable file system, and execute a file exactly when one of its
/// execute bits is set (owner 0o100, group 0o010, others 0o001). Any other user is
/// judged by the owner's bits (read 0o400, write 0o200, execute 0o100) when it owns the
/// file, else by the group's (0o040, 0o020, 0o010) when it is in the file's group, else
/// by the others' (0o004, 0o002, 0o001). Nobody writes to a read-only file system.
pub proof fn law_access_by_mode_bits(inode: Inode, uid: i16, gid: i16, ro: Option<bool>)
    ensures
        access_spec(inode, InodeMode::IEXEC, 0, gid, ro) is Ok
            <==> (inode.i_mode & 0o100 != 0 || inode.i_mode & 0o010 != 0 || inode.i_mode & 0o001 != 0),
        access_spec(inode, InodeMode::IREAD, 0, gid, ro) is Ok,
        access_spec(inode, InodeMode::IWRITE, 0, gid, Some(false)) is Ok,
        access_spec(inode, InodeMode::IWRITE, uid, gid, Some(true)) == Err::<(), PosixError>(PosixError::EROFS),
        uid != 0 && uid == inode.i_uid ==> {
            &&& (access_spec(inode, InodeMode::IREAD, uid, gid, ro) is Ok <==> inode.i_mode & 0o400 != 0)
            &&& (access_spec(inode, InodeMode::IWRITE, uid, gid, Some(false)) is Ok <==> inode.i_mode & 0o200 != 0)
            &&& (access_spec(inode, InodeMode::IEXEC, uid, gid, ro) is Ok <==> inode.i_mode & 0o100 != 0)
        },
        uid != 0 && uid != inode.i_uid && gid == inode.i_gid ==> {
            &&& (access_spec(inode, InodeMode::IREAD, uid, gid, ro) is Ok <==> inode.i_mode & 0o040 != 0)
            &&& (access_spec(inode, InodeMode::IWRITE, uid, gid, Some(false)) is Ok <==> inode.i_mode & 0o020 != 0)
            &&& (access_spec(inode, InodeMode::IEXEC, uid, gid, ro) is Ok <==> inode.i_mode & 0o010 != 0)
        },
        uid != 0 && uid != inode.i_uid && gid != inode.i_gid ==> {
            &&& (access_spec(inode, InodeMode::IREAD, uid, gid, ro) is Ok <==> inode.i_mode & 0o004 != 0)
            &&& (access_spec(inode, InodeMode::IWRITE, uid, gid, Some(false)) is Ok <==> inode.i_mode & 0o002 != 0)
            &&& (access_spec(inode, InodeMode::IEXEC, uid, gid, ro) is Ok <==> inode.i_mode & 0o001 != 0)
        },
{
    let m = inode.i_mode;
    assert((m & (0x40u32 | 0x8u32 | 0x1u32) != 0) == (m & 0o100u32 != 0 || m & 0o010u32 != 0 || m & 0o001u32 != 0)) by (bit_vector);
    assert(0x100u32 >> 3u32 == 0o040u32 && (0x100u32 >> 3u32) >> 3u32 == 0o004u32
        && 0x80u32 >> 3u32 == 0o020u32 && (0x80u32 >> 3u32) >> 3u32 == 0o002u32
        && 0x40u32 >> 3u32 == 0o010u32 && (0x40u32 >> 3u32) >> 3u32 == 0o001u32) by (bit_vector);
}

/// Every open descriptor names an entry of the open file table that holds an inode slot.
pub open spec fn attached(fds: Seq<Option<usize>>, files: Seq<File>) -> bool {
    forall|fd: int| 0 <= fd < fds.len() && (#[trigger] fds[fd]) is Some ==> {
        let slot = fds[fd]->0;
        &&& slot < OpenFileTable::NFILE
        &&& files[slot as int].f_inode matches Some(i) && i < InodeTable::NINODE
        &&& files[slot as int].f_count > 0
    }
}

/// The offset and origin of a `seek` call: origins 3 to 5 count the offset in blocks.
pub open spec fn seek_args(offset: usize, whence: usize) -> (i32, i32) {
    let off = offset as i32;
    let wh = whence as i32;
    if wh > 2 { ((off << 9u32), (wh - 3) as i32) } else { (off, wh) }
}

/// The new offset of a file at `f_offset` and of size `size` after a `seek`; `None`
/// when the origin is unknown and the offset is left alone.
pub open spec fn seek_target(f_offset: i32, size: u64, offset: usize, whence: usize) -> Option<int> {
    let (off, wh) = seek_args(offset, whence);
    if wh == 0 {
        Some(off as int)
    } else if wh == 1 {
        Some(f_offset + off)
    } else if wh == 2 {
        Some((size as i32) + off)
    } else {
        None
    }
}

/// The sector of the inode zone that holds disk inode `ino`, and its byte offset there.
pub open spec fn stat_location_spec(ino: i32) -> (u32, usize) {
    ((INODE_SECTOR_OFF + (ino as u32) / (INODE_NUMBER_PER_SECTOR as u32)) as u32,
     ((ino as usize) % INODE_NUMBER_PER_SECTOR * DISK_INODE_SIZE) as usize)
}

/// `p` is the `stat` plan of inode `ino` at time `time`: its device and number, where
/// its disk inode lives, and the disk inode to write back first when it was accessed or
/// updated (see `Inode::i_update`).
pub open spec fn stat_plan_of(p: StatPlan, ino: Inode, time: i32) -> bool {
    &&& p.dev == ino.i_dev
    &&& p.ino == ino.i_number
    &&& (p.sector, p.offset) == stat_location_spec(ino.i_number)
    &&& ino.i_flag & (InodeFlag::IUPD | InodeFlag::IACC) == 0 ==> p.update is None
    &&& ino.i_flag & (InodeFlag::IUPD | InodeFlag::IACC) != 0 ==> (p.update matches Some(d) && disk_inode_of(d, ino, time))
}

/// What a `stat` needs done: write back the inode if it changed, then copy the disk
/// inode at `offset` of `sector` of `dev` to the user.
#[derive(Debug, Clone, Copy)]
pub struct StatPlan {
    pub update: Option<DiskInode>,
    pub dev: DevId,
    pub ino: i32,
    pub sector: u32,
    pub offset: usize,
}

impl FileManager {
    /// Where disk inode `ino` lives: its sector and its byte offset in the sector.
    pub fn stat_location(ino: i32) -> (r: (u32, usize))
        ensures
            r == stat_location_spec(ino),
    {
        let n = ino as u32;
        let sector = (INODE_SECTOR_OFF as u32) + n / (INODE_NUMBER_PER_SECTOR as u32);
        let off = ((ino as usize) % INODE_NUMBER_PER_SECTOR) * DISK_INODE_SIZE;
        (sector, off)
    }

    /// The `stat` of the inode in slot `i` at time `time` (see `stat_plan_of`).
    pub fn stat1(inodes: &InodeTable, i: usize, time: i32) -> (r: StatPlan)
        requires
            i < inodes@.len(),
        ensures
            stat_plan_of(r, inodes@[i as int], time),
    {
        let ino = inodes.inode(i);
        let update = ino.i_update(time);
        let (sector, offset) = Self::stat_location(ino.i_number);
        StatPlan { update, dev: ino.i_dev, ino: ino.i_number, sector, offset }
    }

    /// `stat` of a path, once the lookup found its inode in slot `i` (see `stat1`).
    pub fn stat(inodes: &InodeTable, i: usize, time: i32) -> (r: StatPlan)
        requires
            i < inodes@.len(),
        ensures
            stat_plan_of(r, inodes@[i as int], time),
    {
        Self::stat1(inodes, i, time)
    }

    /// `fstat` of descriptor `fd` (see `stat1`): `EBADF` when it is not open.
    pub fn fstat(open_files: &OpenFiles, table: &OpenFileTable, inodes: &InodeTable, fd: usize, time: i32) -> (r: Result<StatPlan, PosixError>)
        requires
            open_files.wf(),
            table.wf(),
            inodes.wf(),
            attached(open_files@, table@),
        ensures
            (fd >= OpenFiles::NOFILES || open_files@[fd as int] is None) ==> r == Err::<StatPlan, PosixError>(PosixError::EBADF),
            (fd < OpenFiles::NOFILES && open_files@[fd as int] is Some) ==> (r matches Ok(p)
                && stat_plan_of(p, inodes@[table@[open_files@[fd as int]->0 as int].f_inode->0 as int], time)),
    {
        let slot = match open_files.get_f(fd) {
            Ok(s) => s,
            Err(e) => return Err(e),
        };
        assert(open_files@[fd as int] is Some);
        let f = table.file(slot);
        let i = f.f_inode.unwrap();
        Ok(Self::stat1(inodes, i, time))
    }

    /// `close(fd)`: frees the descriptor and drops its reference to the open file (see
    /// `OpenFileTable::f_put_slot`); `EBADF` when `fd` is not open.
    pub fn close(open_files: &mut OpenFiles, table: &mut OpenFileTable, inodes: &mut InodeTable, fd: usize) -> (r: Result<FilePut, PosixError>)
        requires
            old(open_files).wf(),
            old(table).wf(),
            old(inodes).wf(),
            attached(old(open_files)@, old(table)@),
        ensures
            final(open_files).wf(),
            final(table).wf(),
            final(inodes).wf(),
            (fd >= OpenFiles::NOFILES || old(open_files)@[fd as int] is None) ==> r == Err::<FilePut, PosixError>(PosixError::EBADF)
                && final(open_files)@ == old(open_files)@ && final(table)@ == old(table)@ && final(inodes)@ == old(inodes)@,
            (fd < OpenFiles::NOFILES && old(open_files)@[fd as int] is Some) ==> ({
                let slot = old(open_files)@[fd as int]->0;
                let f = old(table)@[slot as int];
                &&& r matches Ok(put)
                &&& final(open_files)@ == old(open_files)@.update(fd as int, None)
                &&& put.release_inode == (if f.f_count <= 1 { f.f_inode } else { None })
                &&& put.wake_pipe == (f.f_flag & FileFlags::FPIPE != 0)
                &&& final(table)@ == old(table)@.update(slot as int, File {
                    f_count: (f.f_count - 1) as i32,
                    f_inode: if f.f_count <= 1 { None } else { f.f_inode },
                    ..f
                })
            }),
    {
        let slot = match open_files.get_f(fd) {
            Ok(s) => s,
            Err(e) => return Err(e),
        };
        assert(open_files@[fd as int] is Some);
        open_files.clear_f(fd);
        Ok(table.f_put_slot(slot, inodes))
    }

    /// `seek(fd, offset, whence)`: sets the offset of the open file to `offset` from the
    /// start (whence 0), from the current offset (1) or from the end (2); whence 3 to 5 do
    /// the same with the offset counted in 512-byte blocks; other origins leave the offset
    /// alone. `EBADF` when `fd` is not open, `ESPIPE` on a pipe.
    pub fn seek(open_files: &OpenFiles, table: &mut OpenFileTable, inodes: &InodeTable, fd: usize, offset: usize, whence: usize) -> (r: Result<(), PosixError>)
        requires
            open_files.wf(),
            old(table).wf(),
            inodes.wf(),
            attached(open_files@, old(table)@),
            fd < OpenFiles::NOFILES && open_files@[fd as int] is Some ==> ({
                let f = old(table)@[open_files@[fd as int]->0 as int];
                seek_target(f.f_offset, inodes@[f.f_inode->0 as int].i_size, offset, whence) matches Some(v) ==> i32::MIN <= v <= i32::MAX
            }),
        ensures
            final(table).wf(),
            (fd >= OpenFiles::NOFILES || open_files@[fd as int] is None) ==> r == Err::<(), PosixError>(PosixError::EBADF) && final(table)@ == old(table)@,
            (fd < OpenFiles::NOFILES && open_files@[fd as int] is Some) ==> ({
                let slot = open_files@[fd as int]->0;
                let f = old(table)@[slot as int];
                if f.f_flag & FileFlags::FPIPE != 0 {
                    r == Err::<(), PosixError>(PosixError::ESPIPE) && final(table)@ == old(table)@
                } else {
                    r is Ok && match seek_target(f.f_offset, inodes@[f.f_inode->0 as int].i_size, offset, whence) {
                        Some(v) => final(table)@ == old(table)@.update(slot as int, File { f_offset: v as i32, ..f }),
                        None => final(table)@ == old(table)@,
                    }
                }
            }),
    {
        let slot = match open_files.get_f(fd) {
            Ok(s) => s,
            Err(e) => return Err(e),
        };
        assert(open_files@[fd as int] is Some);
        let f = table.file(slot);
        if f.f_flag & FileFlags::FPIPE != 0 {
            return Err(PosixError::ESPIPE);
        }
        let mut off = offset as i32;
        let mut wh = whence as i32;
        if wh > 2 {
            off = off << 9u32;
            wh = wh - 3;
        }
        let size = inodes.inode(f.f_inode.unwrap()).i_size;
        if wh == 0 {
            table.set_offset(slot, off);
        } else if wh == 1 {
            table.set_offset(slot, f.f_offset + off);
        } else if wh == 2 {
            table.set_offset(slot, (size as i32) + off);
        }
        Ok(())
    }

    /// `dup(fd)`: the lowest free descriptor names the open file of `fd` too, which gains a
    /// reference; `EBADF` when `fd` is not open, `EMFILE` when no descriptor is free.
    pub fn dup(open_files: &mut OpenFiles, table: &mut OpenFileTable, fd: usize) -> (r: Result<usize, PosixError>)
        requires
            old(open_files).wf(),
            old(table).wf(),
            attached(old(open_files)@, old(table)@),
            fd < OpenFiles::NOFILES && old(open_files)@[fd as int] is Some ==> old(table)@[old(open_files)@[fd as int]->0 as int].f_count < i32::MAX,
        ensures
            final(open_files).wf(),
            final(table).wf(),
            match r {
                Ok(nfd) => {
                    let slot = old(open_files)@[fd as int]->0;
                    &&& fd < OpenFiles::NOFILES && old(open_files)@[fd as int] is Some
                    &&& lowest_free(old(open_files)@, nfd as int)
                    &&& final(open_files)@ == old(open_files)@.update(nfd as int, Some(slot))
                    &&& final(table)@ == old(table)@.update(slot as int, File { f_count: (old(table)@[slot as int].f_count + 1) as i32, ..old(table)@[slot as int] })
                },
                Err(e) => {
                    &&& final(open_files)@ == old(open_files)@ && final(table)@ == old(table)@
                    &&& (fd >= OpenFiles::NOFILES || old(open_files)@[fd as int] is None) ==> e == PosixError::EBADF
                    &&& (fd < OpenFiles::NOFILES && old(open_files)@[fd as int] is Some) ==> e == PosixError::EMFILE
                        && forall|j: int| 0 <= j < OpenFiles::NOFILES ==> #[trigger] old(open_files)@[j] is Some
                },
            },
    {
        let nfd = match open_files.clone_fd(fd) {
            Ok(n) => n,
            Err(e) => return Err(e),
        };
        let slot = open_files.get_f(nfd);
        let slot = match slot {
            Ok(s) => s,
            Err(e) => return Err(e),
        };
        table.f_dup(slot);
        Ok(nfd)
    }

    /// The caller owns the inode (same user) or is the super-user.
    pub fn owner(inode: &Inode, uid: i16) -> (r: bool)
        ensures
            r == (uid == inode.i_uid || uid == 0),
    {
        uid == inode.i_uid || uid == 0
    }

    /// `chmod(path, mode)` once the lookup found the inode: the owner or the super-user
    /// replaces the low 12 mode bits with those of `mode` and marks the inode updated;
    /// returns whether it did.
    pub fn chmod(inode: &mut Inode, uid: i16, mode: usize) -> (r: bool)
        ensures
            r == (uid == old(inode).i_uid || uid == 0),
            r ==> *final(inode) == (Inode {
                i_mode: (old(inode).i_mode & !0xFFFu32) | ((mode as u32) & 0xFFFu32),
                i_flag: old(inode).i_flag | InodeFlag::IUPD,
                ..*old(inode)
            }),
            !r ==> *final(inode) == *old(inode),
    {
        if !Self::owner(inode, uid) {
            return false;
        }
        inode.i_mode = (inode.i_mode & !0xFFFu32) | ((mode as u32) & 0xFFFu32);
        inode.i_flag = inode.i_flag | InodeFlag::IUPD;
        true
    }

    /// `chown(path, uid, gid)` once the lookup found the inode: only the super-user may
    /// give the inode to user `new_uid` and group `new_gid`, which marks it updated;
    /// returns whether it did.
    pub fn chown(inode: &mut Inode, uid: i16, new_uid: usize, new_gid: usize) -> (r: bool)
        ensures
            r == (uid == 0),
            r ==> *final(inode) == (Inode {
                i_uid: new_uid as i16,
                i_gid: new_gid as i16,
                i_flag: old(inode).i_flag | InodeFlag::IUPD,
                ..*old(inode)
            }),
            !r ==> *final(inode) == *old(inode),
    {
        if uid != 0 {
            return false;
        }
        inode.i_uid = new_uid as i16;
        inode.i_gid = new_gid as i16;
        inode.i_flag = inode.i_flag | InodeFlag::IUPD;
        true
    }
}


/// Where a read or write of an open file goes.
#[derive(Debug, Clone, Copy)]
pub struct RdwrPlan {
    /// The open file table entry.
    pub slot: usize,
    /// The inode slot of the file.
    pub inode: usize,
    /// The file is a pipe (see `FileManager::readp` and `FileManager::writep`).
    pub pipe: bool,
    /// The transfer: the user buffer, the byte count, and (for a file) the file offset.
    pub ioparam: IOParameter,
}

/// One step of a pipe transfer.
#[derive(Debug, Clone, Copy, PartialEq, Eq, Structural)]
pub enum PipeAction {
    /// Nothing more to do: the read found an empty pipe without writers, or the write
    /// has no bytes left.
    Done,
    /// The pipe has no reader: `EPIPE`, and the writer gets `SIGPIPE`.
    Broken,
    /// Wait on the pipe's read (for a reader) or write (for a writer) channel, then step again.
    Sleep,
    /// Transfer `count` bytes at `offset` of the pipe with the inode locked, then
    /// finish the step.
    Transfer { offset: usize, count: usize },
}

/// A pipe step and the wake-ups it asks for.
#[derive(Debug, Clone, Copy)]
pub struct PipeStep {
    pub action: PipeAction,
    /// Wake the processes waiting to read the pipe.
    pub wake_readers: bool,
    /// Wake the processes waiting to write the pipe.
    pub wake_writers: bool,
    /// Wake the processes waiting for the pipe's lock.
    pub wake_lockers: bool,
}

/// An open file handed out by `FileManager::open1`, or the error; `freed` holds the
/// blocks of a truncated file, to be freed in that order, and `wake_lockers` says to
/// wake the processes waiting for the inode's lock.
#[derive(Debug)]
pub struct Open1Result {
    pub result: Result<(usize, usize), PosixError>,
    pub freed: Vec<PhysicalBlock>,
    pub wake_lockers: bool,
}

/// The path kept as the current directory after `chdir(path)`.
pub open spec fn setcurdir_spec(cur: Seq<u8>, path: Seq<u8>) -> Seq<u8> {
    if path.len() > 0 && path[0] == 47 {
        let copy = if path.len() < cur.len() - 1 { path.len() as int } else { cur.len() - 1 };
        Seq::new(cur.len(), |k: int| if k < copy { path[k] } else { 0u8 })
    } else {
        let len0 = first_zero(cur) as int;
        let slash = len0 > 0 && cur[len0 - 1] != 47 && len0 < cur.len();
        let len1 = if slash { len0 + 1 } else { len0 };
        let room = if cur.len() >= len1 + 1 { cur.len() - (len1 + 1) } else { 0 };
        let copy = if path.len() < room { path.len() as int } else { room };
        Seq::new(cur.len(), |k: int|
            if slash && k == len0 { 47u8 }
            else if len1 <= k < len1 + copy { path[k - len1] }
            else if k == len1 + copy { 0u8 }
            else { cur[k] })
    }
}

impl FileManager {
    /// Checks access to `inode` for `mode` (see `access_inode`): `true` when it is
    /// denied.
    pub fn access(inode: &Inode, mode: u32, uid: i16, gid: i16, fs_readonly: Option<bool>) -> (r: bool)
        ensures
            r == access_spec(*inode, mode, uid, gid, fs_readonly) is Err,
    {
        access_inode(inode, mode, uid, gid, fs_readonly).is_err()
    }

    /// `read(fd, base, count)` (`mode` `FREAD`) or `write` (`FWRITE`): the descriptor
    /// must be open (`EBADF`) with the flags of `mode` (`EACCES`). A file transfer starts
    /// at the file's offset; a pipe's offset is set by the pipe steps.
    pub fn rdwr(open_files: &OpenFiles, table: &OpenFileTable, fd: usize, mode: u32, base: usize, count: usize) -> (r: Result<RdwrPlan, PosixError>)
        requires
            open_files.wf(),
            table.wf(),
            attached(open_files@, table@),
        ensures
            (fd >= OpenFiles::NOFILES || open_files@[fd as int] is None) ==> r == Err::<RdwrPlan, PosixError>(PosixError::EBADF),
            (fd < OpenFiles::NOFILES && open_files@[fd as int] is Some) ==> ({
                let slot = open_files@[fd as int]->0;
                let f = table@[slot as int];
                let want = mode & (FileFlags::FREAD | FileFlags::FWRITE | FileFlags::FPIPE);
                if f.f_flag & want != want {
                    r == Err::<RdwrPlan, PosixError>(PosixError::EACCES)
                } else {
                    r matches Ok(p) && p.slot == slot && p.inode == f.f_inode->0
                        && p.pipe == (f.f_flag & FileFlags::FPIPE != 0)
                        && p.ioparam.m_base == base && p.ioparam.m_count == count
                        && p.ioparam.m_offset == (if p.pipe { 0 } else { f.f_offset as usize })
                }
            }),
    {
        let slot = match open_files.get_f(fd) {
            Ok(s) => s,
            Err(e) => return Err(e),
        };
        assert(open_files@[fd as int] is Some);
        let f = table.file(slot);
        let want = mode & (FileFlags::FREAD | FileFlags::FWRITE | FileFlags::FPIPE);
        if f.f_flag & want != want {
            return Err(PosixError::EACCES);
        }
        let pipe = f.f_flag & FileFlags::FPIPE != 0;
        let offset: usize = if pipe { 0 } else { f.f_offset as usize };
        Ok(RdwrPlan { slot, inode: f.f_inode.unwrap(), pipe, ioparam: IOParameter { m_base: base, m_offset: offset, m_count: count } })
    }

    /// Ends a read or write of `count` bytes of which `remaining` were not moved: a
    /// file's offset advances by the bytes moved; returns that number (the call's result).
    pub fn rdwr_complete(table: &mut OpenFileTable, plan: RdwrPlan, count: usize, remaining: usize) -> (r: usize)
        requires
            old(table).wf(),
            plan.slot < OpenFileTable::NFILE,
            !plan.pipe ==> ({
                let moved = if count >= remaining { count - remaining } else { 0 };
                moved <= i32::MAX && i32::MIN <= old(table)@[plan.slot as int].f_offset + moved <= i32::MAX
            }),
        ensures
            final(table).wf(),
            r == (if count >= remaining { count - remaining } else { 0 }),
            plan.pipe ==> final(table)@ == old(table)@,
            !plan.pipe ==> final(table)@ == old(table)@.update(plan.slot as int, File {
                f_offset: (old(table)@[plan.slot as int].f_offset + r) as i32,
                ..old(table)@[plan.slot as int]
            }),
    {
        let moved = count.saturating_sub(remaining);
        if !plan.pipe {
            let f = table.file(plan.slot);
            table.set_offset(plan.slot, f.f_offset + moved as i32);
        }
        moved
    }

    /// One step of a pipe read through the open file in `slot`, with the pipe inode
    /// locked. When the reader caught up with the writer the pipe is emptied (its
    /// offset and size reset, waiting writers woken) and unlocked; without a writer
    /// left the read is done, otherwise the reader waits for data. When there is data
    /// the `count` bytes asked for are read from the file's offset (finish with
    /// `readp_complete`).
    pub fn readp(table: &mut OpenFileTable, inodes: &mut InodeTable, slot: usize, count: usize) -> (r: PipeStep)
        requires
            old(table).wf(),
            old(inodes).wf(),
            slot < OpenFileTable::NFILE,
            old(table)@[slot as int].f_inode matches Some(i) && i < InodeTable::NINODE,
        ensures
            final(table).wf(),
            final(inodes).wf(),
            ({
                let f = old(table)@[slot as int];
                let i = f.f_inode->0 as int;
                let ino = old(inodes)@[i];
                if f.f_offset == ino.i_size as i32 {
                    let reset = f.f_offset != 0;
                    let wake_w = reset && ino.i_mode & InodeMode::IWRITE != 0;
                    let mode1 = if wake_w { ino.i_mode & !InodeMode::IWRITE } else { ino.i_mode };
                    let eof = ino.i_count < 2;
                    &&& r.wake_writers == wake_w && !r.wake_readers
                    &&& r.wake_lockers == (ino.i_flag & InodeFlag::IWANT != 0)
                    &&& r.action == (if eof { PipeAction::Done } else { PipeAction::Sleep })
                    &&& final(table)@ == (if reset { old(table)@.update(slot as int, File { f_offset: 0, ..f }) } else { old(table)@ })
                    &&& final(inodes)@ == old(inodes)@.update(i, Inode {
                        i_size: if reset { 0 } else { ino.i_size },
                        i_mode: if eof { mode1 } else { mode1 | InodeMode::IREAD },
                        i_flag: ino.i_flag & !InodeFlag::ILOCK & !(if r.wake_lockers { InodeFlag::IWANT } else { 0 }),
                        ..ino
                    })
                } else {
                    &&& r.action == (PipeAction::Transfer { offset: f.f_offset as usize, count })
                    &&& !r.wake_readers && !r.wake_writers && !r.wake_lockers
                    &&& final(table)@ == old(table)@ && final(inodes)@ == old(inodes)@
                }
            }),
    {
        let f = table.file(slot);
        let i = f.f_inode.unwrap();
        let mut ino = inodes.inode(i);
        if f.f_offset != ino.i_size as i32 {
            return PipeStep { action: PipeAction::Transfer { offset: f.f_offset as usize, count }, wake_readers: false, wake_writers: false, wake_lockers: false };
        }
        let mut wake_writers = false;
        if f.f_offset != 0 {
            table.set_offset(slot, 0);
            ino.i_size = 0;
            if ino.i_mode & InodeMode::IWRITE != 0 {
                ino.i_mode = ino.i_mode & !InodeMode::IWRITE;
                wake_writers = true;
            }
        }
        let wake_lockers = ino.prele();
        if ino.i_count < 2 {
            inodes.set_inode(i, ino);
            return PipeStep { action: PipeAction::Done, wake_readers: false, wake_writers, wake_lockers };
        }
        ino.i_mode = ino.i_mode | InodeMode::IREAD;
        inodes.set_inode(i, ino);
        PipeStep { action: PipeAction::Sleep, wake_readers: false, wake_writers, wake_lockers }
    }

    /// Ends a pipe read that left the transfer at `new_offset`: the file's offset moves
    /// there and the pipe is unlocked; returns whether to wake the processes waiting for
    /// the lock.
    pub fn readp_complete(table: &mut OpenFileTable, inodes: &mut InodeTable, slot: usize, new_offset: usize) -> (r: bool)
        requires
            old(table).wf(),
            old(inodes).wf(),
            slot < OpenFileTable::NFILE,
            old(table)@[slot as int].f_inode matches Some(i) && i < InodeTable::NINODE,
        ensures
            final(table).wf(),
            final(inodes).wf(),
            ({
                let f = old(table)@[slot as int];
                let i = f.f_inode->0 as int;
                let ino = old(inodes)@[i];
                &&& r == (ino.i_flag & InodeFlag::IWANT != 0)
                &&& final(table)@ == old(table)@.update(slot as int, File { f_offset: new_offset as i32, ..f })
                &&& final(inodes)@ == old(inodes)@.update(i, Inode {
                    i_flag: ino.i_flag & !InodeFlag::ILOCK & !(if r { InodeFlag::IWANT } else { 0 }),
                    ..ino
                })
            }),
    {
        let f = table.file(slot);
        let i = f.f_inode.unwrap();
        table.set_offset(slot, new_offset as i32);
        let mut ino = inodes.inode(i);
        let r = ino.prele();
        inodes.set_inode(i, ino);
        r
    }

    /// One step of a pipe write of `count` bytes still to go, with the pipe inode in slot
    /// `i` locked. Nothing left: done. No reader: broken. A full pipe: the writer waits
    /// (and is marked waiting). Otherwise as many bytes as fit are written at the end of
    /// the pipe (finish with `writep_complete`).
    pub fn writep(inodes: &mut InodeTable, i: usize, count: usize) -> (r: PipeStep)
        requires
            old(inodes).wf(),
            i < InodeTable::NINODE,
        ensures
            final(inodes).wf(),
            ({
                let ino = old(inodes)@[i as int];
                let unlocked = Inode { i_flag: ino.i_flag & !InodeFlag::ILOCK & !(if r.wake_lockers { InodeFlag::IWANT } else { 0 }), ..ino };
                &&& !r.wake_readers && !r.wake_writers
                &&& if count == 0 {
                    r.action == PipeAction::Done && r.wake_lockers == (ino.i_flag & InodeFlag::IWANT != 0)
                        && final(inodes)@ == old(inodes)@.update(i as int, unlocked)
                } else if ino.i_count < 2 {
                    r.action == PipeAction::Broken && r.wake_lockers == (ino.i_flag & InodeFlag::IWANT != 0)
                        && final(inodes)@ == old(inodes)@.update(i as int, unlocked)
                } else if ino.i_size == Inode::PIPSIZ {
                    r.action == PipeAction::Sleep && r.wake_lockers == (ino.i_flag & InodeFlag::IWANT != 0)
                        && final(inodes)@ == old(inodes)@.update(i as int, Inode { i_mode: ino.i_mode | InodeMode::IWRITE, ..unlocked })
                } else {
                    r.action == (PipeAction::Transfer { offset: ino.i_size as usize, count: pipe_write_count(ino.i_size, count) })
                        && !r.wake_lockers && final(inodes)@ == old(inodes)@
                }
            }),
    {
        let mut ino = inodes.inode(i);
        if count == 0 || ino.i_count < 2 {
            let w = ino.prele();
            inodes.set_inode(i, ino);
            let action = if count == 0 { PipeAction::Done } else { PipeAction::Broken };
            return PipeStep { action, wake_readers: false, wake_writers: false, wake_lockers: w };
        }
        if ino.i_size == Inode::PIPSIZ as u64 {
            ino.i_mode = ino.i_mode | InodeMode::IWRITE;
            let w = ino.prele();
            inodes.set_inode(i, ino);
            return PipeStep { action: PipeAction::Sleep, wake_readers: false, wake_writers: false, wake_lockers: w };
        }
        let room: u64 = if ino.i_size <= Inode::PIPSIZ as u64 { Inode::PIPSIZ as u64 - ino.i_size } else { 0 };
        let n: usize = if (count as u64) < room { count } else { room as usize };
        PipeStep { action: PipeAction::Transfer { offset: ino.i_size as usize, count: n }, wake_readers: false, wake_writers: false, wake_lockers: false }
    }

    /// Ends a pipe write step: readers waiting for data are woken (and no longer marked
    /// waiting) and the pipe is unlocked.
    pub fn writep_complete(inodes: &mut InodeTable, i: usize) -> (r: PipeStep)
        requires
            old(inodes).wf(),
            i < InodeTable::NINODE,
        ensures
            final(inodes).wf(),
            ({
                let ino = old(inodes)@[i as int];
                &&& r.action == PipeAction::Done && !r.wake_writers
                &&& r.wake_readers == (ino.i_mode & InodeMode::IREAD != 0)
                &&& r.wake_lockers == (ino.i_flag & InodeFlag::IWANT != 0)
                &&& final(inodes)@ == old(inodes)@.update(i as int, Inode {
                    i_mode: ino.i_mode & !InodeMode::IREAD,
                    i_flag: ino.i_flag & !InodeFlag::ILOCK & !(if r.wake_lockers { InodeFlag::IWANT } else { 0 }),
                    ..ino
                })
            }),
    {
        let mut ino = inodes.inode(i);
        let wake_readers = ino.i_mode & InodeMode::IREAD != 0;
        ino.i_mode = ino.i_mode & !InodeMode::IREAD;
        let w = ino.prele();
        inodes.set_inode(i, ino);
        PipeStep { action: PipeAction::Done, wake_readers, wake_writers: false, wake_lockers: w }
    }
}


/// Bytes a pipe write step moves into a pipe holding `size` bytes, `count` being still
/// to go: what fits in the room left.
pub open spec fn pipe_write_count(size: u64, count: usize) -> usize {
    let room = if size <= Inode::PIPSIZ { Inode::PIPSIZ - size } else { 0 };
    if count < room { count } else { room as usize }
}

/// A pipe is never filled past its capacity: a write step into a pipe that holds at most
/// `PIPSIZ` bytes ends at or below `PIPSIZ`, and moves at least one byte when the pipe
/// is not full and some are to go.
pub proof fn law_pipe_never_overfills(size: u64, count: usize)
    requires
        size <= Inode::PIPSIZ,
    ensures
        size + pipe_write_count(size, count) <= Inode::PIPSIZ,
        size < Inode::PIPSIZ && count > 0 ==> pipe_write_count(size, count) > 0,
{
}

/// The access check of `open1` for the open mode `mode`: reading needs read access;
/// writing needs write access and a file that is not a directory (`EISDIR`).
pub open spec fn open_check(inode: Inode, mode: i32, uid: i16, gid: i16, fs_readonly: Option<bool>) -> Result<(), PosixError> {
    if (mode as u32) & FileFlags::FREAD != 0 && access_spec(inode, InodeMode::IREAD, uid, gid, fs_readonly) is Err {
        access_spec(inode, InodeMode::IREAD, uid, gid, fs_readonly)
    } else if (mode as u32) & FileFlags::FWRITE != 0 && access_spec(inode, InodeMode::IWRITE, uid, gid, fs_readonly) is Err {
        access_spec(inode, InodeMode::IWRITE, uid, gid, fs_readonly)
    } else if (mode as u32) & FileFlags::FWRITE != 0 && inode.i_mode & InodeMode::IFMT == InodeMode::IFDIR {
        Err(PosixError::EISDIR)
    } else {
        Ok(())
    }
}

/// `ino` unlocked, the want flag cleared when `wake`.
pub open spec fn unlocked(ino: Inode, wake: bool) -> Inode {
    Inode { i_flag: ino.i_flag & !InodeFlag::ILOCK & !(if wake { InodeFlag::IWANT } else { 0 }), ..ino }
}

/// What `open1` leaves (see `FileManager::open1`): from inode `i0`, open-file table `t0`
/// and descriptors `o0`, the inode `i1`, table `t1`, descriptors `o1` and the result `r`.
/// Pipe ends opened on descriptors `o0` and table `t0`, giving `o1` and `t1`: the read
/// end takes the lowest free descriptor `fd_r` and the first unused entry, then the
/// write end does the same on what is left; both entries name inode slot `islot`.
pub open spec fn pipe_opened(o0: Seq<Option<usize>>, t0: Seq<File>, o1: Seq<Option<usize>>, t1: Seq<File>, fd_r: int, fd_w: int, islot: usize) -> bool {
    let slot_r = first_free_slot(t0);
    let o_mid = o0.update(fd_r, Some(slot_r as usize));
    let t_mid = file_taken(t0, slot_r);
    let slot_w = first_free_slot(t_mid);
    let t_w = file_taken(t_mid, slot_w);
    &&& lowest_free(o0, fd_r)
    &&& first_free_file(t0, slot_r)
    &&& lowest_free(o_mid, fd_w)
    &&& first_free_file(t_mid, slot_w)
    &&& o1 == o_mid.update(fd_w, Some(slot_w as usize))
    &&& t1 == t_w.update(slot_r, File { f_flag: FileFlags::FREAD | FileFlags::FPIPE, f_inode: Some(islot), ..t_w[slot_r] })
        .update(slot_w, File { f_flag: FileFlags::FWRITE | FileFlags::FPIPE, f_inode: Some(islot), ..t_w[slot_w] })
}

/// A refused `pipe()` on descriptors `o0` and table `t0`, leaving `o1` and `t1`, with
/// error `e`: either the read end cannot be opened and nothing changes, or the write end
/// cannot be opened once the read end took its entry, and only that entry stays taken.
pub open spec fn pipe_refused(o0: Seq<Option<usize>>, t0: Seq<File>, o1: Seq<Option<usize>>, t1: Seq<File>, e: PosixError) -> bool {
    if alloc_fails(o0, t0) {
        &&& e == alloc_error(o0)
        &&& o1 == o0
        &&& t1 == t0
    } else {
        let fd_r = lowest_free_fd(o0);
        let slot_r = first_free_slot(t0);
        let o_mid = o0.update(fd_r, Some(slot_r as usize));
        let t_mid = file_taken(t0, slot_r);
        &&& alloc_fails(o_mid, t_mid)
        &&& e == alloc_error(o_mid)
        &&& o1 == o0
        &&& t1 == t_mid
    }
}

pub open spec fn open1_post(
    i0: Inode,
    t0: Seq<File>,
    o0: Seq<Option<usize>>,
    i1: Inode,
    t1: Seq<File>,
    o1: Seq<Option<usize>>,
    r: Open1Result,
    islot: usize,
    mode: i32,
    trf: i32,
    uid: i16,
    gid: i16,
    fs_readonly: Option<bool>,
) -> bool {
    let check = open_check(i0, mode, uid, gid, fs_readonly);
    if trf != 2 && check is Err {
        &&& r.result == Err::<(usize, usize), PosixError>(check->Err_0)
        &&& i1 == i0 && t1 == t0 && o1 == o0
        &&& r.freed@.len() == 0 && !r.wake_lockers
    } else {
        let wake = i0.i_flag & InodeFlag::IWANT != 0;
        let truncates = trf == 1 && i0.i_mode & (InodeMode::IFCHR | InodeMode::IFBLK) == 0;
        &&& r.wake_lockers == wake
        &&& truncates ==> {
            &&& r.freed@ == nonzero_blocks_reversed(i0.i_addr@, I_ADDR_SIZE as int)
            &&& i1 == unlocked(Inode {
                i_size: 0,
                i_nlink: 1,
                i_flag: i0.i_flag | InodeFlag::IUPD,
                i_mode: i0.i_mode & !(InodeMode::ILARG | InodeMode::IRWXU | InodeMode::IRWXG | InodeMode::IRWXO),
                i_addr: i1.i_addr,
                ..i0
            }, wake)
            &&& forall|k: int| 0 <= k < I_ADDR_SIZE ==> #[trigger] i1.i_addr@[k] == PhysicalBlock(0)
        }
        &&& !truncates ==> i1 == unlocked(i0, wake) && r.freed@.len() == 0
        &&& match r.result {
            Ok((fd, slot)) => {
                &&& lowest_free(o0, fd as int)
                &&& slot < OpenFileTable::NFILE && t0[slot as int].f_count <= 0
                &&& forall|j: int| 0 <= j < slot ==> #[trigger] t0[j].f_count > 0
                &&& o1 == o0.update(fd as int, Some(slot))
                &&& t1 == t0.update(slot as int, File {
                    f_flag: (mode as u32) & (FileFlags::FREAD | FileFlags::FWRITE),
                    f_count: (t0[slot as int].f_count + 1) as i32,
                    f_inode: Some(islot),
                    f_offset: 0,
                })
            },
            Err(e) => {
                &&& t1 == t0 && o1 == o0
                &&& (forall|j: int| 0 <= j < OpenFiles::NOFILES ==> #[trigger] o0[j] is Some) ==> e == PosixError::EMFILE
                &&& !(forall|j: int| 0 <= j < OpenFiles::NOFILES ==> #[trigger] o0[j] is Some) ==> e == PosixError::ENFILE
                    && forall|j: int| 0 <= j < OpenFileTable::NFILE ==> #[trigger] t0[j].f_count > 0
            },
        }
    }
}

impl FileManager {
    /// Opens the inode in slot `islot` (the in-core inode `inode`, locked by the lookup)
    /// for `mode`. Unless `trf` is 2 (a file just created) the access rights are checked
    /// (see `open_check`); `trf` 1 truncates the file. The inode is unlocked, a
    /// descriptor and an open file are taken (see `OpenFileTable::f_alloc`), and the open
    /// file gets the read and write bits of `mode` and the inode. On an error the caller
    /// still holds its reference to the inode.
    pub fn open1(inode: &mut Inode, table: &mut OpenFileTable, open_files: &mut OpenFiles, islot: usize, mode: i32, trf: i32, uid: i16, gid: i16, fs_readonly: Option<bool>) -> (r: Open1Result)
        requires
            old(table).wf(),
            old(open_files).wf(),
        ensures
            final(table).wf(),
            final(open_files).wf(),
            open1_post(*old(inode), old(table)@, old(open_files)@, *final(inode), final(table)@, final(open_files)@, r, islot, mode, trf, uid, gid, fs_readonly),
            !(trf != 2 && open_check(*old(inode), mode, uid, gid, fs_readonly) is Err) ==> final(inode).i_flag & InodeFlag::ILOCK == 0,
    {
        if trf != 2 {
            let m = mode as u32;
            if m & FileFlags::FREAD != 0 {
                match access_inode(inode, InodeMode::IREAD, uid, gid, fs_readonly) {
                    Err(e) => return Open1Result { result: Err(e), freed: Vec::new(), wake_lockers: false },
                    Ok(()) => {},
                }
            }
            if m & FileFlags::FWRITE != 0 {
                match access_inode(inode, InodeMode::IWRITE, uid, gid, fs_readonly) {
                    Err(e) => return Open1Result { result: Err(e), freed: Vec::new(), wake_lockers: false },
                    Ok(()) => {},
                }
                if inode.i_mode & InodeMode::IFMT == InodeMode::IFDIR {
                    return Open1Result { result: Err(PosixError::EISDIR), freed: Vec::new(), wake_lockers: false };
                }
            }
        }
        let mut freed: Vec<PhysicalBlock> = Vec::new();
        if trf == 1 {
            freed = inode.i_trunc();
        }
        let ghost before = *inode;
        let wake = inode.prele();
        assert(before.i_flag & InodeFlag::IWANT == old(inode).i_flag & InodeFlag::IWANT) by {
            if trf == 1 && old(inode).i_mode & (InodeMode::IFCHR | InodeMode::IFBLK) == 0 {
                let f0 = old(inode).i_flag;
                assert((f0 | 2u32) & 0x10u32 == f0 & 0x10u32) by (bit_vector);
            }
        }
        proof {
            let f1 = before.i_flag;
            assert(f1 & !1u32 & !(if wake { 0x10u32 } else { 0u32 }) & 1u32 == 0) by (bit_vector);
        }
        let (fd, slot) = match table.f_alloc(open_files) {
            Ok(v) => v,
            Err(e) => return Open1Result { result: Err(e), freed, wake_lockers: wake },
        };
        table.set_file(slot, (mode as u32) & (FileFlags::FREAD | FileFlags::FWRITE), Some(islot));
        assert(table@ =~= old(table)@.update(slot as int, File {
            f_flag: (mode as u32) & (FileFlags::FREAD | FileFlags::FWRITE),
            f_count: (old(table)@[slot as int].f_count + 1) as i32,
            f_inode: Some(islot),
            f_offset: 0,
        }));
        Open1Result { result: Ok((fd, slot)), freed, wake_lockers: wake }
    }

    /// The mode given to a file made by `creat(path, mode)`: its permission bits, without
    /// the sticky bit.
    pub fn creat_mode(mode: usize) -> (r: u32)
        ensures
            r == (mode as u32) & (InodeMode::IRWXU | InodeMode::IRWXG | InodeMode::IRWXO) & !InodeMode::ISVTX,
    {
        (mode as u32) & (InodeMode::IRWXU | InodeMode::IRWXG | InodeMode::IRWXO) & !InodeMode::ISVTX
    }

    /// `creat(path, mode)` once the lookup ran: an existing file (`existed`) is opened
    /// for writing and truncated, and gains the permission bits of `mode`; a new one
    /// (made by `maknode` with `creat_mode(mode)`) is opened for writing without checks.
    pub fn creat(inode: &mut Inode, table: &mut OpenFileTable, open_files: &mut OpenFiles, islot: usize, mode: usize, existed: bool, uid: i16, gid: i16, fs_readonly: Option<bool>) -> (r: Open1Result)
        requires
            old(table).wf(),
            old(open_files).wf(),
        ensures
            final(table).wf(),
            final(open_files).wf(),
            !existed ==> open1_post(*old(inode), old(table)@, old(open_files)@, *final(inode), final(table)@, final(open_files)@,
                r, islot, FileFlags::FWRITE as i32, 2, uid, gid, fs_readonly),
            existed ==> exists|mid: Inode| {
                &&& open1_post(*old(inode), old(table)@, old(open_files)@, mid, final(table)@, final(open_files)@,
                    r, islot, FileFlags::FWRITE as i32, 1, uid, gid, fs_readonly)
                &&& *final(inode) == (Inode { i_mode: mid.i_mode | ((mode as u32) & (InodeMode::IRWXU | InodeMode::IRWXG | InodeMode::IRWXO)), ..mid })
            },
    {
        let acc = (mode as u32) & (InodeMode::IRWXU | InodeMode::IRWXG | InodeMode::IRWXO);
        if existed {
            let r = Self::open1(inode, table, open_files, islot, FileFlags::FWRITE as i32, 1, uid, gid, fs_readonly);
            let ghost mid = *inode;
            inode.i_mode = inode.i_mode | acc;
            assert(open1_post(*old(inode), old(table)@, old(open_files)@, mid, table@, open_files@,
                r, islot, FileFlags::FWRITE as i32, 1, uid, gid, fs_readonly));
            r
        } else {
            Self::open1(inode, table, open_files, islot, FileFlags::FWRITE as i32, 2, uid, gid, fs_readonly)
        }
    }

    /// Fills the fresh inode of a file being made with mode `mode`: allocated, accessed
    /// and updated, one link, owned by the caller.
    pub fn maknode(inode: &mut Inode, mode: u32, uid: i16, gid: i16)
        ensures
            *final(inode) == (Inode {
                i_flag: old(inode).i_flag | InodeFlag::IACC | InodeFlag::IUPD,
                i_mode: mode | InodeMode::IALLOC,
                i_nlink: 1,
                i_uid: uid,
                i_gid: gid,
                ..*old(inode)
            }),
    {
        inode.i_flag = inode.i_flag | InodeFlag::IACC | InodeFlag::IUPD;
        inode.i_mode = mode | InodeMode::IALLOC;
        inode.i_nlink = 1;
        inode.i_uid = uid;
        inode.i_gid = gid;
    }

    /// The directory entry naming inode `ino` `name`, to be written into the parent
    /// directory where the lookup stopped.
    pub fn writedir(ino: i32, name: &[u8; 28]) -> (r: DirectoryEntry)
        ensures
            r.m_ino == ino && r.m_name == *name,
    {
        DirectoryEntry { m_ino: ino, m_name: *name }
    }

    /// `chdir(path)` once the lookup found the inode `inode`, in slot `slot` of the inode
    /// table: it must be a directory (`ENOTDIR`) the caller may search (see
    /// `access_inode`; `EACCES`); then it is unlocked and becomes the current directory
    /// `cwd`. Returns whether to wake the processes waiting for its lock, and the slot of
    /// the previous current directory, whose reference the caller puts.
    pub fn chdir(inode: &mut Inode, slot: usize, cwd: &mut Option<usize>, uid: i16, gid: i16) -> (r: Result<(bool, Option<usize>), PosixError>)
        ensures
            old(inode).i_mode & InodeMode::IFMT != InodeMode::IFDIR ==> r == Err::<(bool, Option<usize>), PosixError>(PosixError::ENOTDIR)
                && *final(inode) == *old(inode) && *final(cwd) == *old(cwd),
            old(inode).i_mode & InodeMode::IFMT == InodeMode::IFDIR && access_spec(*old(inode), InodeMode::IEXEC, uid, gid, Some(false)) is Err ==>
                r == Err::<(bool, Option<usize>), PosixError>(PosixError::EACCES) && *final(inode) == *old(inode) && *final(cwd) == *old(cwd),
            old(inode).i_mode & InodeMode::IFMT == InodeMode::IFDIR && access_spec(*old(inode), InodeMode::IEXEC, uid, gid, Some(false)) is Ok ==>
                r == Ok::<(bool, Option<usize>), PosixError>((old(inode).i_flag & InodeFlag::IWANT != 0, *old(cwd)))
                && *final(inode) == unlocked(*old(inode), old(inode).i_flag & InodeFlag::IWANT != 0)
                && *final(cwd) == Some(slot),
    {
        if inode.i_mode & InodeMode::IFMT != InodeMode::IFDIR {
            return Err(PosixError::ENOTDIR);
        }
        match access_inode(inode, InodeMode::IEXEC, uid, gid, Some(false)) {
            Err(e) => return Err(e),
            Ok(()) => {},
        }
        let previous = *cwd;
        *cwd = Some(slot);
        Ok((inode.prele(), previous))
    }

    /// Records `path` as the current directory's name in `cur` after a `chdir(path)`:
    /// an absolute path replaces it, a relative one is appended after a slash, both cut
    /// to fit and ended with a NUL where there is room.
    pub fn setcurdir(cur: &mut [u8], path: &[u8])
        requires
            old(cur)@.len() > 0,
        ensures
            final(cur)@ == setcurdir_spec(old(cur)@, path@),
    {
        let n = cur.len();
        if path.len() > 0 && path[0] == 47 {
            let copy = if path.len() < n - 1 { path.len() } else { n - 1 };
            let mut k: usize = 0;
            while k < n
                invariant
                    cur@.len() == n,
                    k <= n,
                    copy <= path@.len(),
                    copy < n,
                    forall|j: int| 0 <= j < k ==> #[trigger] cur@[j] == (if j < copy { path@[j] } else { 0u8 }),
                decreases n - k,
            {
                if k < copy {
                    cur[k] = path[k];
                } else {
                    cur[k] = 0;
                }
                k = k + 1;
            }
            assert(cur@ =~= setcurdir_spec(old(cur)@, path@));
        } else {
            let mut len0: usize = 0;
            while len0 < n && cur[len0] != 0
                invariant
                    cur@ == old(cur)@,
                    cur@.len() == n,
                    len0 <= n,
                    forall|j: int| 0 <= j < len0 ==> #[trigger] cur@[j] != 0,
                decreases n - len0,
            {
                len0 = len0 + 1;
            }
            proof {
                lemma_first_zero(old(cur)@);
                if len0 < n {
                    lemma_first_zero_at(old(cur)@, len0 as int);
                } else {
                    assert(first_zero(old(cur)@) == n) by {
                        if first_zero(old(cur)@) < n {
                            assert(old(cur)@[first_zero(old(cur)@) as int] == 0);
                        }
                    }
                }
            }
            let slash = len0 > 0 && cur[len0 - 1] != 47 && len0 < n;
            let len1 = if slash { len0 + 1 } else { len0 };
            let room = if n > len1 { n - len1 - 1 } else { 0 };
            let copy = if path.len() < room { path.len() } else { room };
            if slash {
                cur[len0] = 47;
            }
            let ghost c1 = cur@;
            let mut k: usize = 0;
            while k < copy
                invariant
                    cur@.len() == n,
                    c1.len() == n,
                    len1 + copy <= n,
                    copy <= path@.len(),
                    k <= copy,
                    forall|j: int| 0 <= j < len1 ==> #[trigger] cur@[j] == c1[j],
                    forall|j: int| len1 + k <= j < n ==> #[trigger] cur@[j] == c1[j],
                    forall|j: int| len1 <= j < len1 + k ==> #[trigger] cur@[j] == path@[j - len1],
                decreases copy - k,
            {
                cur[len1 + k] = path[k];
                k = k + 1;
            }
            if len1 + copy < n {
                cur[len1 + copy] = 0;
            }
            assert(cur@ =~= setcurdir_spec(old(cur)@, path@));
        }
    }

    /// `link(old, new)` once the lookup found `old` (locked): `EMLINK` when it has 255
    /// links or more; only the super-user may link a directory (others get `Ok(false)`,
    /// nothing done). Otherwise the inode is unlocked without waking anyone and the link
    /// goes on (`Ok(true)`, see `link_finish`).
    pub fn link(inode: &mut Inode, uid: i16) -> (r: Result<bool, PosixError>)
        ensures
            old(inode).i_nlink >= 255 ==> r == Err::<bool, PosixError>(PosixError::EMLINK) && *final(inode) == *old(inode),
            old(inode).i_nlink < 255 && old(inode).i_mode & InodeMode::IFMT == InodeMode::IFDIR && uid != 0 ==> r == Ok::<bool, PosixError>(false) && *final(inode) == *old(inode),
            old(inode).i_nlink < 255 && !(old(inode).i_mode & InodeMode::IFMT == InodeMode::IFDIR && uid != 0) ==>
                r == Ok::<bool, PosixError>(true) && *final(inode) == (Inode { i_flag: old(inode).i_flag & !InodeFlag::ILOCK, ..*old(inode) }),
    {
        if inode.i_nlink >= 255 {
            return Err(PosixError::EMLINK);
        }
        if inode.i_mode & InodeMode::IFMT == InodeMode::IFDIR && uid != 0 {
            return Ok(false);
        }
        inode.i_flag = inode.i_flag & !InodeFlag::ILOCK;
        Ok(true)
    }

    /// Ends `link(old, new)` once the lookup of `new` ran: `EEXIST` when `new` exists,
    /// `EXDEV` when its directory is on another device than `old`; otherwise `old` gains a
    /// link (and is marked updated) and the returned entry names it `name`.
    pub fn link_finish(inode: &mut Inode, target_exists: bool, parent_dev: DevId, name: &[u8; 28]) -> (r: Result<DirectoryEntry, PosixError>)
        requires
            old(inode).i_nlink < 255,
        ensures
            target_exists ==> r == Err::<DirectoryEntry, PosixError>(PosixError::EEXIST) && *final(inode) == *old(inode),
            !target_exists && parent_dev != old(inode).i_dev ==> r == Err::<DirectoryEntry, PosixError>(PosixError::EXDEV) && *final(inode) == *old(inode),
            !target_exists && parent_dev == old(inode).i_dev ==> (r matches Ok(e) && e.m_ino == old(inode).i_number && e.m_name == *name)
                && *final(inode) == (Inode { i_nlink: (old(inode).i_nlink + 1) as i32, i_flag: old(inode).i_flag | InodeFlag::IUPD, ..*old(inode) }),
    {
        if target_exists {
            return Err(PosixError::EEXIST);
        }
        if parent_dev != inode.i_dev {
            return Err(PosixError::EXDEV);
        }
        let e = Self::writedir(inode.i_number, name);
        inode.i_nlink = inode.i_nlink + 1;
        inode.i_flag = inode.i_flag | InodeFlag::IUPD;
        Ok(e)
    }

    /// `unlink(path)` once the lookup found the name in entry `index` of its directory
    /// (`SearchOutcome::Remove { index }` of `search`), the entry being `entry`, and the
    /// entry's inode `inode`: only the super-user may unlink a directory (`None`
    /// otherwise, nothing done). Otherwise the inode loses a link and is marked updated,
    /// and the returned transfer writes the returned entry (the same name, inode 0: a
    /// free entry) over entry `index`.
    pub fn unlink(inode: &mut Inode, uid: i16, entry: &DirectoryEntry, index: usize) -> (r: Option<(IOParameter, DirectoryEntry)>)
        requires
            index * (DirectoryEntry::DIRSIZ + 4) <= usize::MAX,
            old(inode).i_nlink > i32::MIN,
        ensures
            old(inode).i_mode & InodeMode::IFMT == InodeMode::IFDIR && uid != 0 ==> r is None && *final(inode) == *old(inode),
            !(old(inode).i_mode & InodeMode::IFMT == InodeMode::IFDIR && uid != 0) ==> r == Some((
                IOParameter { m_base: 0, m_offset: (index * 32) as usize, m_count: 32 },
                DirectoryEntry { m_ino: 0, m_name: entry.m_name },
            ))
                && *final(inode) == (Inode { i_nlink: (old(inode).i_nlink - 1) as i32, i_flag: old(inode).i_flag | InodeFlag::IUPD, ..*old(inode) }),
    {
        if inode.i_mode & InodeMode::IFMT == InodeMode::IFDIR && uid != 0 {
            return None;
        }
        inode.i_nlink = inode.i_nlink - 1;
        inode.i_flag = inode.i_flag | InodeFlag::IUPD;
        let size = DirectoryEntry::DIRSIZ + 4;
        Some((IOParameter { m_base: 0, m_offset: index * size, m_count: size }, DirectoryEntry { m_ino: 0, m_name: entry.m_name }))
    }

    /// The checks of `mknod(path, mode, dev)` before the node is made: only the
    /// super-user may make one (`EPERM`), and the path must not name a file already
    /// (`existed`: `EEXIST`).
    pub fn mknod_check(uid: i16, existed: bool) -> (r: Result<(), PosixError>)
        ensures
            r == (if uid != 0 { Err::<(), PosixError>(PosixError::EPERM) } else if existed { Err(PosixError::EEXIST) } else { Ok(()) }),
    {
        if uid != 0 {
            return Err(PosixError::EPERM);
        }
        if existed {
            return Err(PosixError::EEXIST);
        }
        Ok(())
    }

    /// `mknod(path, mode, dev)` on the fresh inode: made with `mode` (see `maknode`); a
    /// device node records device `dev` in its first block address.
    pub fn mknod(inode: &mut Inode, mode: usize, dev: usize, uid: i16, gid: i16)
        ensures
            final(inode).i_mode == (mode as u32) | InodeMode::IALLOC,
            final(inode).i_nlink == 1 && final(inode).i_uid == uid && final(inode).i_gid == gid,
            final(inode).i_flag == old(inode).i_flag | InodeFlag::IACC | InodeFlag::IUPD,
            final(inode).i_addr@ == (if final(inode).i_mode & (InodeMode::IFBLK | InodeMode::IFCHR) != 0 {
                old(inode).i_addr@.update(0, PhysicalBlock(dev as u32))
            } else {
                old(inode).i_addr@
            }),
            final(inode).i_size == old(inode).i_size && final(inode).i_number == old(inode).i_number && final(inode).i_dev == old(inode).i_dev,
    {
        Self::maknode(inode, mode as u32, uid, gid);
        if inode.i_mode & (InodeMode::IFBLK | InodeMode::IFCHR) != 0 {
            inode.i_addr[0] = PhysicalBlock(dev as u32);
        }
    }

    /// `pipe()` once an inode was allocated for it (slot `islot`): a read end and a write
    /// end are opened on it (descriptors returned in that order) and the inode is
    /// marked allocated, accessed and updated. When the write end cannot be opened the
    /// read end's descriptor is closed again; its table entry keeps the reference taken.
    pub fn pipe(inode: &mut Inode, table: &mut OpenFileTable, open_files: &mut OpenFiles, islot: usize) -> (r: Result<(usize, usize), PosixError>)
        requires
            old(table).wf(),
            forall|j: int| 0 <= j < OpenFileTable::NFILE ==> #[trigger] old(table)@[j].f_count >= 0,
            old(open_files).wf(),
        ensures
            final(table).wf(),
            final(open_files).wf(),
            match r {
                Ok((fd_r, fd_w)) => pipe_opened(old(open_files)@, old(table)@, final(open_files)@, final(table)@, fd_r as int, fd_w as int, islot)
                    && *final(inode) == (Inode { i_flag: InodeFlag::IACC | InodeFlag::IUPD, i_mode: InodeMode::IALLOC, ..*old(inode) }),
                Err(e) => pipe_refused(old(open_files)@, old(table)@, final(open_files)@, final(table)@, e)
                    && *final(inode) == *old(inode),
            },
    {
        let ghost o0 = open_files@;
        let ghost t0 = table@;
        let (fd_r, slot_r) = match table.f_alloc(open_files) {
            Ok(v) => v,
            Err(e) => return Err(e),
        };
        proof {
            lemma_lowest_free_unique(o0, fd_r as int);
            lemma_first_free_unique(t0, slot_r as int);
            assert(!alloc_fails(o0, t0)) by {
                assert(o0[fd_r as int] is None);
                assert(t0[slot_r as int].f_count <= 0);
            }
        }
        let ghost o_mid = open_files@;
        let ghost t_mid = table@;
        let (fd_w, slot_w) = match table.f_alloc(open_files) {
            Ok(v) => v,
            Err(e) => {
                open_files.clear_f(fd_r);
                assert(open_files@ =~= o0);
                return Err(e);
            },
        };
        proof {
            lemma_first_free_unique(t_mid, slot_w as int);
        }
        table.set_file(slot_r, FileFlags::FREAD | FileFlags::FPIPE, Some(islot));
        table.set_file(slot_w, FileFlags::FWRITE | FileFlags::FPIPE, Some(islot));
        inode.i_flag = InodeFlag::IACC | InodeFlag::IUPD;
        inode.i_mode = InodeMode::IALLOC;
        Ok((fd_r, fd_w))
    }
}

} // verus!
