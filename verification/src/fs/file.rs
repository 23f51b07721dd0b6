use vstd::prelude::*;

use crate::constants::PosixError;

verus! {

/// Flags of an open file.
pub struct FileFlags;

impl FileFlags {
    /// Open for reading.
    pub const FREAD: u32 = 0x1;
    /// Open for writing.
    pub const FWRITE: u32 = 0x2;
    /// The file is a pipe.
    pub const FPIPE: u32 = 0x4;
}

/// An entry of the system open file table.
#[derive(Clone, Copy, Debug)]
pub struct File {
    pub f_flag: u32,
    /// Number of descriptors that refer to the entry.
    pub f_count: i32,
    /// The slot of the inode in the inode table.
    pub f_inode: Option<usize>,
    /// Read/write offset.
    pub f_offset: i32,
}

impl File {
    /// An unused entry.
    pub fn new_const() -> (r: Self)
        ensures
            r == (File { f_flag: 0, f_count: 0, f_inode: None, f_offset: 0 }),
    {
        File { f_flag: 0, f_count: 0, f_inode: None, f_offset: 0 }
    }

    /// An unused entry.
    pub fn new() -> (r: Self)
        ensures
            r == (File { f_flag: 0, f_count: 0, f_inode: None, f_offset: 0 }),
    {
        Self::new_const()
    }

    /// No descriptor refers to the entry.
    pub fn is_free(&self) -> (r: bool)
        ensures
            r == (self.f_count <= 0),
    {
        self.f_count <= 0
    }
}

/// A process's table of open file descriptors: descriptor `fd` names an entry of
/// the system open file table.
pub struct OpenFiles {
    table: Vec<Option<usize>>,
}

impl View for OpenFiles {
    type V = Seq<Option<usize>>;

    closed spec fn view(&self) -> Seq<Option<usize>> {
        self.table@
    }
}

/// The lowest free descriptor of `t`, if any.
pub open spec fn lowest_free(t: Seq<Option<usize>>, fd: int) -> bool {
    &&& 0 <= fd < t.len()
    &&& t[fd] is None
    &&& forall|j: int| 0 <= j < fd ==> #[trigger] t[j] is Some
}

impl OpenFiles {
    /// Number of descriptors of a process.
    pub const NOFILES: usize = 15;

    /// No descriptor open.
    pub fn new() -> (r: Self)
        ensures
            r@ == Seq::new(Self::NOFILES as nat, |i: int| None::<usize>),
    {
        let mut table: Vec<Option<usize>> = Vec::new();
        let mut i: usize = 0;
        while i < Self::NOFILES
            invariant
                i <= Self::NOFILES,
                table@ == Seq::new(i as nat, |j: int| None::<usize>),
            decreases Self::NOFILES - i,
        {
            table.push(None);
            i = i + 1;
            assert(table@ =~= Seq::new(i as nat, |j: int| None::<usize>));
        }
        OpenFiles { table }
    }

    pub open spec fn wf(&self) -> bool {
        self@.len() == Self::NOFILES
    }

    /// The lowest free descriptor; `EMFILE` when all are in use.
    pub fn alloc_free_slot(&self) -> (r: Result<usize, PosixError>)
        requires
            self.wf(),
        ensures
            match r {
                Ok(fd) => lowest_free(self@, fd as int),
                Err(e) => e == PosixError::EMFILE && forall|j: int| 0 <= j < self@.len() ==> #[trigger] self@[j] is Some,
            },
    {
        let mut i: usize = 0;
        while i < self.table.len()
            invariant
                i <= self@.len(),
                forall|j: int| 0 <= j < i ==> #[trigger] self@[j] is Some,
            decreases self@.len() - i,
        {
            if self.table[i].is_none() {
                return Ok(i);
            }
            i = i + 1;
        }
        Err(PosixError::EMFILE)
    }

    /// The open file of descriptor `fd`; `EBADF` when `fd` is out of range or not open.
    pub fn get_f(&self, fd: usize) -> (r: Result<usize, PosixError>)
        requires
            self.wf(),
        ensures
            fd >= Self::NOFILES ==> r == Err::<usize, PosixError>(PosixError::EBADF),
            fd < Self::NOFILES ==> match self@[fd as int] {
                Some(f) => r == Ok::<usize, PosixError>(f),
                None => r == Err::<usize, PosixError>(PosixError::EBADF),
            },
    {
        if fd >= Self::NOFILES {
            return Err(PosixError::EBADF);
        }
        match self.table[fd] {
            Some(f) => Ok(f),
            None => Err(PosixError::EBADF),
        }
    }

    /// Makes descriptor `fd` name `file`; nothing happens for `fd` out of range.
    pub fn set_f(&mut self, fd: usize, file: usize)
        requires
            old(self).wf(),
        ensures
            final(self).wf(),
            fd < Self::NOFILES ==> final(self)@ == old(self)@.update(fd as int, Some(file)),
            fd >= Self::NOFILES ==> final(self)@ == old(self)@,
    {
        if fd < Self::NOFILES {
            self.table.set(fd, Some(file));
        }
    }

    /// Closes descriptor `fd`; nothing happens for `fd` out of range.
    pub fn clear_f(&mut self, fd: usize)
        requires
            old(self).wf(),
        ensures
            final(self).wf(),
            fd < Self::NOFILES ==> final(self)@ == old(self)@.update(fd as int, None),
            fd >= Self::NOFILES ==> final(self)@ == old(self)@,
    {
        if fd < Self::NOFILES {
            self.table.set(fd, None);
        }
    }

    /// Duplicates descriptor `fd` onto the lowest free one, which it returns; the caller
    /// adds the reference to the open file (see `OpenFileTable::f_dup`).
    pub fn clone_fd(&mut self, fd: usize) -> (r: Result<usize, PosixError>)
        requires
            old(self).wf(),
        ensures
            final(self).wf(),
            match r {
                Ok(nfd) => fd < Self::NOFILES && old(self)@[fd as int] is Some && lowest_free(old(self)@, nfd as int)
                    && final(self)@ == old(self)@.update(nfd as int, old(self)@[fd as int]),
                Err(e) => final(self)@ == old(self)@ && ((fd >= Self::NOFILES || old(self)@[fd as int] is None) ==> e == PosixError::EBADF)
                    && (fd < Self::NOFILES && old(self)@[fd as int] is Some ==> e == PosixError::EMFILE
                        && forall|j: int| 0 <= j < Self::NOFILES ==> #[trigger] old(self)@[j] is Some),
            },
    {
        let file = match self.get_f(fd) {
            Ok(f) => f,
            Err(e) => return Err(e),
        };
        let new_fd = match self.alloc_free_slot() {
            Ok(n) => n,
            Err(e) => return Err(e),
        };
        self.table.set(new_fd, Some(file));
        Ok(new_fd)
    }
}

/// After a descriptor is set, reading it gives back the file set.
pub proof fn law_set_then_get(t: Seq<Option<usize>>, fd: int, file: usize)
    requires
        0 <= fd < t.len(),
    ensures
        t.update(fd, Some(file))[fd] == Some(file),
        forall|j: int| 0 <= j < t.len() && j != fd ==> #[trigger] t.update(fd, Some(file))[j] == t[j],
{
}

/// The parameters of a transfer between a file and a user buffer.
#[derive(Clone, Copy, Debug)]
pub struct IOParameter {
    /// Address of the user buffer.
    pub m_base: usize,
    /// Byte offset in the file.
    pub m_offset: usize,
    /// Bytes left to transfer.
    pub m_count: usize,
}

impl IOParameter {
    /// No transfer.
    pub fn new() -> (r: Self)
        ensures
            r.m_base == 0 && r.m_offset == 0 && r.m_count == 0,
    {
        IOParameter { m_base: 0, m_offset: 0, m_count: 0 }
    }

    /// Accounts for `n` bytes transferred.
    pub fn advance(&mut self, n: usize)
        requires
            n <= old(self).m_count,
            old(self).m_base + n <= usize::MAX,
            old(self).m_offset + n <= usize::MAX,
        ensures
            final(self).m_count == old(self).m_count - n,
            final(self).m_base == old(self).m_base + n,
            final(self).m_offset == old(self).m_offset + n,
    {
        self.m_count = self.m_count - n;
        self.m_base = self.m_base + n;
        self.m_offset = self.m_offset + n;
    }
}

} // verus!
