use vstd::prelude::*;

use crate::constants::platform::RAM_BASE;
use crate::machine::page_table::{
    entry_flags, entry_frame, entry_of, leaf_bits, EntryFlags, PageTable, ENTRY_COUNT_PER_PAGE_TABLE, PAGE_SIZE,
    PTE_V, USER_PAGE_TABLE_COUNT,
};

verus! {

broadcast use vstd::seq_lib::group_to_multiset_ensures;

pub const ELF_CLASS_64: u8 = 2;
pub const ELF_DATA_LSB: u8 = 1;
pub const ELF_ET_EXEC: u16 = 2;
pub const ELF_EM_RISCV: u16 = 243;
pub const ELF_PT_LOAD: u32 = 1;
/// Segment flag: executable.
pub const PF_X: u32 = 0x1;
/// Segment flag: writable.
pub const PF_W: u32 = 0x2;
/// Bytes of the file header.
pub const ELF_HEADER_SIZE: usize = 64;
/// Bytes of a program header.
pub const PROGRAM_HEADER_SIZE: usize = 56;
/// Stack given to a loaded program.
pub const DEFAULT_STACK_SIZE: usize = 0x10000;

/// The little-endian 16-bit value at `off` of `s`.
pub open spec fn le16(s: Seq<u8>, off: int) -> u16 {
    (s[off] as u16) | ((s[off + 1] as u16) << 8u16)
}

/// The little-endian 32-bit value at `off` of `s`.
pub open spec fn le32(s: Seq<u8>, off: int) -> u32 {
    (s[off] as u32) | ((s[off + 1] as u32) << 8u32) | ((s[off + 2] as u32) << 16u32) | ((s[off + 3] as u32) << 24u32)
}

/// The little-endian 64-bit value at `off` of `s`.
pub open spec fn le64(s: Seq<u8>, off: int) -> u64 {
    (le32(s, off) as u64) | ((le32(s, off + 4) as u64) << 32u64)
}

fn read_u16(b: &[u8], off: usize) -> (r: u16)
    requires
        off + 2 <= b@.len(),
    ensures
        r == le16(b@, off as int),
{
    (b[off] as u16) | ((b[off + 1] as u16) << 8u16)
}

fn read_u32(b: &[u8], off: usize) -> (r: u32)
    requires
        off + 4 <= b@.len(),
    ensures
        r == le32(b@, off as int),
{
    (b[off] as u32) | ((b[off + 1] as u32) << 8u32) | ((b[off + 2] as u32) << 16u32) | ((b[off + 3] as u32) << 24u32)
}

fn read_u64(b: &[u8], off: usize) -> (r: u64)
    requires
        off + 8 <= b@.len(),
    ensures
        r == le64(b@, off as int),
{
    let _n = b.len();
    (read_u32(b, off) as u64) | ((read_u32(b, off + 4) as u64) << 32u64)
}

/// The fields of the ELF file header that the loader reads.
#[derive(Debug, Clone, Copy)]
pub struct ElfHeader64 {
    pub ident: [u8; 16],
    pub elf_type: u16,
    pub machine: u16,
    pub entry: u64,
    pub phoff: u64,
    pub phentsize: u16,
    pub phnum: u16,
}

/// A program header.
#[derive(Debug, Clone, Copy)]
pub struct ProgramHeader64 {
    pub p_type: u32,
    pub p_flags: u32,
    pub p_offset: u64,
    pub p_vaddr: u64,
    pub p_filesz: u64,
    pub p_memsz: u64,
}

/// The file header held in the first 64 bytes of `s`.
pub open spec fn header_of(s: Seq<u8>) -> ElfHeader64 {
    ElfHeader64 {
        ident: arbitrary(),
        elf_type: le16(s, 16),
        machine: le16(s, 18),
        entry: le64(s, 24),
        phoff: le64(s, 32),
        phentsize: le16(s, 54),
        phnum: le16(s, 56),
    }
}

/// Program header `k` of the table `s`.
pub open spec fn phdr_of(s: Seq<u8>, k: int) -> ProgramHeader64 {
    let o = k * 56;
    ProgramHeader64 {
        p_type: le32(s, o),
        p_flags: le32(s, o + 4),
        p_offset: le64(s, o + 8),
        p_vaddr: le64(s, o + 16),
        p_filesz: le64(s, o + 32),
        p_memsz: le64(s, o + 40),
    }
}

/// The header is that of a 64-bit little-endian RISC-V executable whose program
/// headers have the expected size, and it has some.
pub open spec fn header_ok(s: Seq<u8>) -> bool {
    &&& s[0] == 0x7f && s[1] == 0x45 && s[2] == 0x4c && s[3] == 0x46
    &&& s[4] == ELF_CLASS_64 && s[5] == ELF_DATA_LSB
    &&& le16(s, 16) == ELF_ET_EXEC && le16(s, 18) == ELF_EM_RISCV
    &&& le16(s, 54) == PROGRAM_HEADER_SIZE && le16(s, 56) != 0
}

/// A loadable segment.
#[derive(Debug, Clone, Copy)]
pub struct LoadSegment {
    pub offset: usize,
    pub vaddr: usize,
    pub filesz: usize,
    pub memsz: usize,
    pub flags: u32,
}

impl LoadSegment {
    pub open spec fn writable(self) -> bool {
        self.flags & PF_W != 0
    }

    pub open spec fn end_spec(self) -> int {
        self.vaddr + self.memsz
    }

    pub fn is_writable(&self) -> (r: bool)
        ensures
            r == self.writable(),
    {
        self.flags & PF_W != 0
    }

    pub fn end(&self) -> (r: usize)
        requires
            self.vaddr + self.memsz <= usize::MAX,
        ensures
            r == self.end_spec(),
    {
        self.vaddr + self.memsz
    }
}

/// The loadable segments of the first `n` program headers of `s`, in file order.
pub open spec fn loads_of(s: Seq<u8>, n: int) -> Seq<LoadSegment>
    decreases n,
{
    if n <= 0 {
        Seq::empty()
    } else {
        let rest = loads_of(s, n - 1);
        let p = phdr_of(s, n - 1);
        if p.p_type == ELF_PT_LOAD {
            rest.push(LoadSegment { offset: p.p_offset as usize, vaddr: p.p_vaddr as usize, filesz: p.p_filesz as usize, memsz: p.p_memsz as usize, flags: p.p_flags })
        } else {
            rest
        }
    }
}

/// Some loadable one of the first `n` program headers of `s` has more bytes in the file
/// than in memory.
pub open spec fn some_load_too_big(s: Seq<u8>, n: int) -> bool {
    exists|k: int| 0 <= k < n && (#[trigger] phdr_of(s, k)).p_type == ELF_PT_LOAD && phdr_of(s, k).p_filesz as usize > phdr_of(s, k).p_memsz as usize
}

/// The smallest start of the segments (of the writable ones with `w`), if any.
pub open spec fn min_vaddr(s: Seq<LoadSegment>, w: bool) -> Option<usize>
    decreases s.len(),
{
    if s.len() == 0 {
        None
    } else {
        let rest = min_vaddr(s.drop_last(), w);
        let x = s.last();
        if w && !x.writable() {
            rest
        } else {
            match rest {
                Some(m) => Some(if x.vaddr < m { x.vaddr } else { m }),
                None => Some(x.vaddr),
            }
        }
    }
}

/// The largest end of the segments (of the writable ones with `w`), if any.
pub open spec fn max_end(s: Seq<LoadSegment>, w: bool) -> Option<int>
    decreases s.len(),
{
    if s.len() == 0 {
        None
    } else {
        let rest = max_end(s.drop_last(), w);
        let x = s.last();
        if w && !x.writable() {
            rest
        } else {
            match rest {
                Some(m) => Some(if x.end_spec() > m { x.end_spec() } else { m }),
                None => Some(x.end_spec()),
            }
        }
    }
}

/// The segments are sorted by start address.
pub open spec fn sorted_by_vaddr(s: Seq<LoadSegment>) -> bool {
    forall|a: int, b: int| 0 <= a < b < s.len() ==> #[trigger] s[a].vaddr <= #[trigger] s[b].vaddr
}

/// The segments of `s` that start at `v`, in their order in `s`.
pub open spec fn at_vaddr(s: Seq<LoadSegment>, v: usize) -> Seq<LoadSegment> {
    s.filter(|x: LoadSegment| x.vaddr == v)
}

/// Appending a segment appends it to those at its address only.
proof fn lemma_at_vaddr_push(t: Seq<LoadSegment>, x: LoadSegment, v: usize)
    ensures
        at_vaddr(t.push(x), v) == (if x.vaddr == v { at_vaddr(t, v).push(x) } else { at_vaddr(t, v) }),
{
    reveal(Seq::filter);
    assert(t.push(x).drop_last() =~= t);
}

/// No segment of `t` starts at `v`: none is kept.
proof fn lemma_at_vaddr_none(t: Seq<LoadSegment>, v: usize)
    requires
        forall|j: int| 0 <= j < t.len() ==> (#[trigger] t[j]).vaddr != v,
    ensures
        at_vaddr(t, v).len() == 0,
{
    let f = at_vaddr(t, v);
    if f.len() > 0 {
        t.lemma_filter_pred(|x: LoadSegment| x.vaddr == v, 0);
        assert(f.contains(f[0]));
        t.lemma_filter_contains_rev(|x: LoadSegment| x.vaddr == v, f[0]);
    }
}

/// Inserting `x` into sorted `before` after everything at or below its address and
/// before everything above it puts `x` last among the segments at its address.
proof fn lemma_insert_after_equals(before: Seq<LoadSegment>, pos: int, x: LoadSegment, v: usize)
    requires
        sorted_by_vaddr(before),
        0 <= pos <= before.len(),
        forall|j: int| 0 <= j < pos ==> (#[trigger] before[j]).vaddr <= x.vaddr,
        pos < before.len() ==> before[pos].vaddr > x.vaddr,
    ensures
        at_vaddr(before.insert(pos, x), v) == (if x.vaddr == v { at_vaddr(before, v).push(x) } else { at_vaddr(before, v) }),
{
    let p = |y: LoadSegment| y.vaddr == v;
    let head = before.take(pos);
    let tail = before.skip(pos);
    assert(before.insert(pos, x) =~= head + seq![x] + tail);
    assert(before =~= head + tail);
    Seq::filter_distributes_over_add(head + seq![x], tail, p);
    Seq::filter_distributes_over_add(head, seq![x], p);
    Seq::filter_distributes_over_add(head, tail, p);
    lemma_at_vaddr_push(Seq::empty(), x, v);
    assert(seq![x] =~= Seq::<LoadSegment>::empty().push(x));
    assert(at_vaddr(Seq::<LoadSegment>::empty(), v) =~= Seq::<LoadSegment>::empty()) by {
        reveal(Seq::filter);
    }
    if x.vaddr == v {
        assert forall|j: int| 0 <= j < tail.len() implies (#[trigger] tail[j]).vaddr != v by {
            assert(tail[j] == before[pos + j]);
            if j > 0 {
                assert(before[pos].vaddr <= before[pos + j].vaddr);
            }
        }
        lemma_at_vaddr_none(tail, v);
        assert(at_vaddr(tail, v) =~= Seq::<LoadSegment>::empty());
        assert(at_vaddr(head, v).push(x) =~= at_vaddr(head, v) + seq![x]);
    }
}

/// What the loader learned of a program.
#[derive(Debug)]
pub struct ELFParser {
    pub entry: usize,
    pub text: usize,
    pub text_len: usize,
    pub data: usize,
    pub data_len: usize,
    pub stack_size: usize,
    pub heap_size: usize,
    /// The loadable segments, by start address.
    pub segments: Option<Vec<LoadSegment>>,
}

impl ELFParser {
    /// Nothing loaded; the default stack.
    pub fn new() -> (r: Self)
        ensures
            r.entry == 0 && r.text == 0 && r.text_len == 0 && r.data == 0 && r.data_len == 0,
            r.stack_size == DEFAULT_STACK_SIZE && r.heap_size == 0 && r.segments is None,
    {
        ELFParser { entry: 0, text: 0, text_len: 0, data: 0, data_len: 0, stack_size: DEFAULT_STACK_SIZE, heap_size: 0, segments: None }
    }

    /// Reads the file header from `bytes` (the first bytes of the file): `None` when
    /// fewer than 64 bytes could be read or it is not one the loader accepts (see
    /// `header_ok`).
    pub fn parse_header(bytes: &[u8]) -> (r: Option<ElfHeader64>)
        ensures
            bytes@.len() < ELF_HEADER_SIZE ==> r is None,
            bytes@.len() >= ELF_HEADER_SIZE ==> (r is Some <==> header_ok(bytes@)),
            r matches Some(h) ==> h.elf_type == header_of(bytes@).elf_type && h.machine == header_of(bytes@).machine
                && h.entry == header_of(bytes@).entry && h.phoff == header_of(bytes@).phoff
                && h.phentsize == header_of(bytes@).phentsize && h.phnum == header_of(bytes@).phnum,
    {
        if bytes.len() < ELF_HEADER_SIZE {
            return None;
        }
        let mut ident = [0u8; 16];
        let mut k: usize = 0;
        while k < 16
            invariant
                k <= 16,
                bytes@.len() >= ELF_HEADER_SIZE,
            decreases 16 - k,
        {
            ident[k] = bytes[k];
            k = k + 1;
        }
        let h = ElfHeader64 {
            ident,
            elf_type: read_u16(bytes, 16),
            machine: read_u16(bytes, 18),
            entry: read_u64(bytes, 24),
            phoff: read_u64(bytes, 32),
            phentsize: read_u16(bytes, 54),
            phnum: read_u16(bytes, 56),
        };
        if !(bytes[0] == 0x7f && bytes[1] == 0x45 && bytes[2] == 0x4c && bytes[3] == 0x46)
            || bytes[4] != ELF_CLASS_64 || bytes[5] != ELF_DATA_LSB
            || h.elf_type != ELF_ET_EXEC || h.machine != ELF_EM_RISCV
            || h.phentsize as usize != PROGRAM_HEADER_SIZE || h.phnum == 0
        {
            return None;
        }
        Some(h)
    }

    /// Program header `k` of the table `b`.
    pub fn parse_phdr(b: &[u8], k: usize) -> (r: ProgramHeader64)
        requires
            (k + 1) * 56 <= b@.len(),
        ensures
            r == phdr_of(b@, k as int),
    {
        let n = b.len();
        assert(k * 56 + 56 == (k + 1) * 56) by (nonlinear_arith);
        let o = k * 56;
        ProgramHeader64 {
            p_type: read_u32(b, o),
            p_flags: read_u32(b, o + 4),
            p_offset: read_u64(b, o + 8),
            p_vaddr: read_u64(b, o + 16),
            p_filesz: read_u64(b, o + 32),
            p_memsz: read_u64(b, o + 40),
        }
    }

    /// The loadable segments of the `n` program headers of `b`, in file order; `None`
    /// when one has more bytes in the file than in memory.
    pub fn collect_loads(b: &[u8], n: usize) -> (r: Option<Vec<LoadSegment>>)
        requires
            n * 56 <= b@.len(),
        ensures
            some_load_too_big(b@, n as int) ==> r is None,
            !some_load_too_big(b@, n as int) ==> (r matches Some(v) && v@ == loads_of(b@, n as int)),
    {
        let mut v: Vec<LoadSegment> = Vec::new();
        let mut k: usize = 0;
        while k < n
            invariant
                k <= n,
                n * 56 <= b@.len(),
                v@ == loads_of(b@, k as int),
                !some_load_too_big(b@, k as int),
            decreases n - k,
        {
            assert((k + 1) * 56 <= n * 56) by (nonlinear_arith)
                requires k < n;
            let p = Self::parse_phdr(b, k);
            if p.p_type == ELF_PT_LOAD {
                let filesz = p.p_filesz as usize;
                let memsz = p.p_memsz as usize;
                if filesz > memsz {
                    return None;
                }
                v.push(LoadSegment { offset: p.p_offset as usize, vaddr: p.p_vaddr as usize, filesz, memsz, flags: p.p_flags });
            }
            k = k + 1;
            assert(!some_load_too_big(b@, k as int)) by {
                assert forall|j: int| 0 <= j < k implies !((#[trigger] phdr_of(b@, j)).p_type == ELF_PT_LOAD
                    && phdr_of(b@, j).p_filesz as usize > phdr_of(b@, j).p_memsz as usize) by {
                    if j < k - 1 {
                        assert(!some_load_too_big(b@, k - 1));
                    }
                }
            }
        }
        Some(v)
    }

    /// The smallest start and the largest end of the segments (of the writable ones
    /// with `w`).
    pub fn bounds(s: &Vec<LoadSegment>, w: bool) -> (r: (Option<usize>, Option<usize>))
        requires
            forall|k: int| 0 <= k < s@.len() ==> (#[trigger] s@[k]).vaddr + s@[k].memsz <= usize::MAX,
        ensures
            r.0 == min_vaddr(s@, w),
            match r.1 {
                Some(e) => max_end(s@, w) == Some(e as int),
                None => max_end(s@, w) is None,
            },
    {
        let mut lo: Option<usize> = None;
        let mut hi: Option<usize> = None;
        let mut k: usize = 0;
        while k < s.len()
            invariant
                k <= s@.len(),
                forall|k: int| 0 <= k < s@.len() ==> (#[trigger] s@[k]).vaddr + s@[k].memsz <= usize::MAX,
                lo == min_vaddr(s@.take(k as int), w),
                match hi {
                    Some(e) => max_end(s@.take(k as int), w) == Some(e as int),
                    None => max_end(s@.take(k as int), w) is None,
                },
            decreases s@.len() - k,
        {
            assert(s@.take(k as int + 1).drop_last() =~= s@.take(k as int));
            let x = s[k];
            if !w || x.is_writable() {
                lo = match lo {
                    Some(m) => Some(if x.vaddr < m { x.vaddr } else { m }),
                    None => Some(x.vaddr),
                };
                let e = x.end();
                hi = match hi {
                    Some(m) => Some(if e > m { e } else { m }),
                    None => Some(e),
                };
            }
            k = k + 1;
        }
        assert(s@.take(s@.len() as int) =~= s@);
        (lo, hi)
    }

    /// Sorts the segments by start address, keeping the order of equal ones.
    pub fn sort_segments(s: Vec<LoadSegment>) -> (r: Vec<LoadSegment>)
        ensures
            sorted_by_vaddr(r@),
            r@.to_multiset() == s@.to_multiset(),
            r@.len() == s@.len(),
            forall|v: usize| #[trigger] at_vaddr(r@, v) == at_vaddr(s@, v),
    {
        let mut r: Vec<LoadSegment> = Vec::new();
        let mut k: usize = 0;
        while k < s.len()
            invariant
                k <= s@.len(),
                sorted_by_vaddr(r@),
                r@.to_multiset() == s@.take(k as int).to_multiset(),
                r@.len() == k,
                forall|v: usize| #[trigger] at_vaddr(r@, v) == at_vaddr(s@.take(k as int), v),
            decreases s@.len() - k,
        {
            let x = s[k];
            let mut pos: usize = 0;
            while pos < r.len() && r[pos].vaddr <= x.vaddr
                invariant
                    pos <= r@.len(),
                    forall|j: int| 0 <= j < pos ==> (#[trigger] r@[j]).vaddr <= x.vaddr,
                decreases r@.len() - pos,
            {
                pos = pos + 1;
            }
            let ghost before = r@;
            r.insert(pos, x);
            proof {
                vstd::seq_lib::to_multiset_insert(before, pos as int, x);
                vstd::seq_lib::to_multiset_build(s@.take(k as int), x);
                assert(s@.take(k as int + 1) =~= s@.take(k as int).push(x));
                assert(r@ == before.insert(pos as int, x));
                assert forall|v: usize| #[trigger] at_vaddr(r@, v) == at_vaddr(s@.take(k as int + 1), v) by {
                    lemma_insert_after_equals(before, pos as int, x, v);
                    lemma_at_vaddr_push(s@.take(k as int), x, v);
                }
                assert forall|a: int, b: int| 0 <= a < b < r@.len() implies #[trigger] r@[a].vaddr <= #[trigger] r@[b].vaddr by {
                    if b < pos {
                        assert(r@[a] == before[a] && r@[b] == before[b]);
                    } else if b == pos {
                        assert(r@[a] == before[a]);
                    } else if a == pos {
                        assert(r@[b] == before[b - 1]);
                        if pos < before.len() {
                            assert(before[pos as int].vaddr > x.vaddr);
                            assert(before[pos as int].vaddr <= before[b - 1].vaddr || pos as int == b - 1);
                        }
                    } else if a < pos {
                        assert(r@[a] == before[a] && r@[b] == before[b - 1]);
                    } else {
                        assert(r@[a] == before[a - 1] && r@[b] == before[b - 1]);
                    }
                }
            }
            k = k + 1;
        }
        assert(s@.take(s@.len() as int) =~= s@);
        r
    }

    /// Loads the description of the program whose file starts with `header_bytes` and
    /// whose program header table is `phdr_bytes` (`phnum` entries read at `phoff`; a
    /// short read fails): the loadable segments, which must fit in memory and have no
    /// more bytes in the file than in memory, and of which there must be one. The text
    /// runs from the lowest segment to the first writable one (or to the end of the
    /// segments), the data from there to the end of the writable ones. Both must lie
    /// below `user_space_end`, as must the program's entry point. Returns whether it
    /// loaded; nothing changes when it did not.
    pub fn load(&mut self, header_bytes: &[u8], phdr_bytes: &[u8], user_space_end: usize) -> (r: bool)
        requires
            header_bytes@.len() >= ELF_HEADER_SIZE && header_ok(header_bytes@)
                && phdr_bytes@.len() >= header_of(header_bytes@).phnum * 56 ==>
                forall|k: int| 0 <= k < loads_of(phdr_bytes@, header_of(header_bytes@).phnum as int).len() ==>
                    (#[trigger] loads_of(phdr_bytes@, header_of(header_bytes@).phnum as int)[k]).vaddr
                        + loads_of(phdr_bytes@, header_of(header_bytes@).phnum as int)[k].memsz <= usize::MAX,
        ensures
            !r ==> final(self).entry == old(self).entry && final(self).text == old(self).text
                && final(self).text_len == old(self).text_len && final(self).data == old(self).data
                && final(self).data_len == old(self).data_len && final(self).segments == old(self).segments,
            r ==> header_bytes@.len() >= ELF_HEADER_SIZE && header_ok(header_bytes@),
            (header_bytes@.len() >= ELF_HEADER_SIZE && header_ok(header_bytes@) && ({
                let n = header_of(header_bytes@).phnum as int;
                let loads = loads_of(phdr_bytes@, n);
                let text = min_vaddr(loads, false)->0;
                let data = match min_vaddr(loads, true) { Some(v) => v as int, None => max_end(loads, false)->0 };
                let data_end = match max_end(loads, true) { Some(e) => e, None => data };
                &&& phdr_bytes@.len() >= n * 56
                &&& !some_load_too_big(phdr_bytes@, n)
                &&& loads.len() > 0
                &&& text < user_space_end && data_end <= user_space_end && header_of(header_bytes@).entry < user_space_end
            })) ==> r,
            r ==> ({
                let n = header_of(header_bytes@).phnum as int;
                let loads = loads_of(phdr_bytes@, n);
                let text = min_vaddr(loads, false)->0;
                let data = match min_vaddr(loads, true) { Some(v) => v as int, None => max_end(loads, false)->0 };
                let data_end = match max_end(loads, true) { Some(e) => e, None => data };
                &&& phdr_bytes@.len() >= n * 56
                &&& !some_load_too_big(phdr_bytes@, n)
                &&& loads.len() > 0
                &&& text < user_space_end && data_end <= user_space_end && header_of(header_bytes@).entry < user_space_end
                &&& final(self).entry == header_of(header_bytes@).entry as usize
                &&& final(self).text == text
                &&& final(self).text_len == (if data >= text { data - text } else { 0 })
                &&& final(self).data == data
                &&& final(self).data_len == (if data_end >= data { data_end - data } else { 0 })
                &&& final(self).heap_size == 0 && final(self).stack_size == DEFAULT_STACK_SIZE
                &&& final(self).segments matches Some(v) && sorted_by_vaddr(v@) && v@.to_multiset() == loads.to_multiset()
            }),
    {
        let h = match Self::parse_header(header_bytes) {
            Some(h) => h,
            None => return false,
        };
        let n = h.phnum as usize;
        if phdr_bytes.len() < n * PROGRAM_HEADER_SIZE {
            return false;
        }
        let loads = match Self::collect_loads(phdr_bytes, n) {
            Some(v) => v,
            None => return false,
        };
        if loads.len() == 0 {
            return false;
        }
        let (text_start, max_load_end) = Self::bounds(&loads, false);
        let (first_writable, data_end_w) = Self::bounds(&loads, true);
        let text_start = text_start.unwrap();
        let max_load_end = max_load_end.unwrap();
        let data_start = match first_writable {
            Some(v) => v,
            None => max_load_end,
        };
        let data_end = match data_end_w {
            Some(e) => e,
            None => data_start,
        };
        if text_start >= user_space_end || data_end > user_space_end || h.entry >= user_space_end as u64 {
            return false;
        }
        self.entry = h.entry as usize;
        self.text = text_start;
        self.text_len = data_start.saturating_sub(text_start);
        self.data = data_start;
        self.data_len = data_end.saturating_sub(data_start);
        self.heap_size = 0;
        self.stack_size = DEFAULT_STACK_SIZE;
        self.segments = Some(Self::sort_segments(loads));
        true
    }

    /// The segments `relocate` copies into memory, in order: all of them, or only the
    /// writable ones when the text is shared with another process (none before a
    /// successful `load`). For each, `memsz` bytes at `vaddr` are zeroed and then
    /// `filesz` bytes read from the file at `offset`; the text is writable meanwhile
    /// unless it is shared (see `set_text_write`).
    pub fn relocate_segments(&self, shared_text: bool) -> (r: Vec<LoadSegment>)
        ensures
            match self.segments {
                Some(v) => r@ == v@.filter(|seg: LoadSegment| !shared_text || seg.writable()),
                None => r@.len() == 0,
            },
    {
        let mut out: Vec<LoadSegment> = Vec::new();
        match &self.segments {
            None => {},
            Some(v) => {
                let ghost f = |seg: LoadSegment| !shared_text || seg.writable();
                let mut i: usize = 0;
                while i < v.len()
                    invariant
                        i <= v@.len(),
                        f == (|seg: LoadSegment| !shared_text || seg.writable()),
                        out@ == v@.take(i as int).filter(f),
                    decreases v@.len() - i,
                {
                    proof {
                        assert(v@.take(i as int + 1).drop_last() =~= v@.take(i as int));
                        reveal(Seq::filter);
                    }
                    let seg = v[i];
                    if !shared_text || seg.is_writable() {
                        out.push(seg);
                    }
                    i = i + 1;
                }
                assert(v@.take(v@.len() as int) =~= v@);
            },
        }
        out
    }

    /// Makes the pages of the program's text writable (or read-only again) in the user
    /// page tables `tables`, page `p` being entry `p % 512` of table `p / 512`: each
    /// present entry keeps its frame and gets its flags with `WRITE` added (or removed);
    /// the other entries are kept. Nothing changes for an empty text.
    pub fn set_text_write(&self, tables: &mut [PageTable; 4], writable: bool)
        requires
            self.text_len != 0 ==> self.text_len + PAGE_SIZE - 1 <= usize::MAX
                && text_pages(self.text, self.text_len).0 + text_pages(self.text, self.text_len).1 <= 4 * 512,
            forall|page: int| #![trigger user_entry(old(tables)@, page)]
                in_text(self.text, self.text_len, page) && user_entry(old(tables)@, page) & PTE_V != 0
                ==> RAM_BASE + entry_frame(user_entry(old(tables)@, page)) * PAGE_SIZE <= usize::MAX,
        ensures
            forall|page: int| #![trigger user_entry(final(tables)@, page)] 0 <= page < 4 * 512 ==>
                user_entry(final(tables)@, page) == (if in_text(self.text, self.text_len, page) && user_entry(old(tables)@, page) & PTE_V != 0 {
                    with_write(user_entry(old(tables)@, page), writable)
                } else {
                    user_entry(old(tables)@, page)
                }),
    {
        if self.text_len == 0 {
            return;
        }
        let start = self.text / PAGE_SIZE;
        let count = (self.text_len + (PAGE_SIZE - 1)) / PAGE_SIZE;
        let ghost t0 = tables@;
        let mut page = start;
        while page < start + count
            invariant
                self.text_len != 0,
                (start as int, count as int) == text_pages(self.text, self.text_len),
                start + count <= 4 * 512,
                start <= page <= start + count,
                forall|q: int| #![trigger user_entry(t0, q)]
                    in_text(self.text, self.text_len, q) && user_entry(t0, q) & PTE_V != 0
                    ==> RAM_BASE + entry_frame(user_entry(t0, q)) * PAGE_SIZE <= usize::MAX,
                forall|q: int| #![trigger user_entry(tables@, q)] 0 <= q < 4 * 512 ==>
                    user_entry(tables@, q) == (if start <= q < page && user_entry(t0, q) & PTE_V != 0 {
                        with_write(user_entry(t0, q), writable)
                    } else {
                        user_entry(t0, q)
                    }),
            decreases start + count - page,
        {
            let t = page / ENTRY_COUNT_PER_PAGE_TABLE;
            let i = page % ENTRY_COUNT_PER_PAGE_TABLE;
            let mut e = tables[t].entries[i];
            assert(e.0 == user_entry(tables@, page as int));
            if e.0 & PTE_V != 0 {
                assert(user_entry(t0, page as int) == e.0);
                let (pfn, flags) = e.get();
                let nf = if writable { flags | EntryFlags::WRITE } else { flags & !EntryFlags::WRITE };
                e.set(Some(pfn), nf);
                let ghost before = tables@;
                tables[t].entries[i] = e;
                assert forall|q: int| #![trigger user_entry(tables@, q)] 0 <= q < 4 * 512 && q != page implies
                    user_entry(tables@, q) == user_entry(before, q) by {
                    if q / 512 == page / 512 {
                        assert(q % 512 != page % 512);
                    }
                }
            }
            page = page + 1;
        }
    }
}

/// The first user page of a text at `text`, and the number of pages its `text_len`
/// bytes span from there.
pub open spec fn text_pages(text: usize, text_len: usize) -> (int, int) {
    (text as int / PAGE_SIZE as int, (text_len + PAGE_SIZE - 1) / PAGE_SIZE as int)
}

/// User page `page` lies in the text at `text` of `text_len` bytes.
pub open spec fn in_text(text: usize, text_len: usize, page: int) -> bool {
    let (start, count) = text_pages(text, text_len);
    text_len != 0 && start <= page < start + count
}

/// A present leaf entry made writable (or read-only): same frame, and the kernel flags
/// it reads back as with `WRITE` added (or removed).
pub open spec fn with_write(entry: u64, writable: bool) -> u64 {
    let f = entry_flags(entry);
    let nf = if writable { f | EntryFlags::WRITE } else { f & !EntryFlags::WRITE };
    entry_of(((RAM_BASE + entry_frame(entry) * PAGE_SIZE) as usize >> 12usize) as u64, leaf_bits(nf))
}

/// The entry for user page `page` in the user page tables `tables`.
pub open spec fn user_entry(tables: Seq<PageTable>, page: int) -> u64 {
    tables[page / 512].entries@[page % 512].0
}

/// Rounds `value` up to a multiple of `align`, a power of two (0 stays 0).
pub fn align_up(value: usize, align: usize) -> (r: usize)
    requires
        align > 0,
        value + align - 1 <= usize::MAX,
        align & ((align - 1) as usize) == 0,
    ensures
        value == 0 ==> r == 0,
        value != 0 ==> r == ((value + align - 1) as usize) & !((align - 1) as usize),
{
    if value == 0 {
        0
    } else {
        (value + (align - 1)) & !(align - 1)
    }
}

} // verus!
