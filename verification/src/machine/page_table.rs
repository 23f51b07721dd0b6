use vstd::prelude::*;

use crate::constants::platform::RAM_BASE;

verus! {

pub const PAGE_SIZE: usize = 0x1000;
pub const ENTRY_COUNT_PER_PAGE_TABLE: usize = 512;
/// Bytes mapped by a large (second-level leaf) entry.
pub const SIZE_PER_KERNEL_ENTRY_MAP: usize = 0x20_0000;
pub const KERNEL_PAGED_WINDOW_BASE: usize = 0x0020_0000;
/// The kernel entry mapped by a page table rather than a large page.
pub const KERNEL_PAGED_WINDOW_INDEX: usize = 1;
/// Bytes of physical memory mapped for the kernel.
pub const PHYS_MEM_SIZE: usize = 0x400_0000;
pub const USER_PAGE_TABLE_COUNT: usize = 4;
/// The machine page frame number of the start of RAM.
pub const MACHINE_PFN_BASE: usize = 0x80000;
pub const PPN_SHIFT: u64 = 10;
pub const UART0_L1_INDEX: usize = 128;
pub const PLIC_L1_INDEX: usize = 96;

/// Hardware bits of an entry.
pub const PTE_V: u64 = 0x1;
pub const PTE_R: u64 = 0x2;
pub const PTE_W: u64 = 0x4;
pub const PTE_X: u64 = 0x8;
pub const PTE_U: u64 = 0x10;
pub const PTE_G: u64 = 0x20;
pub const PTE_A: u64 = 0x40;
pub const PTE_D: u64 = 0x80;

/// The kernel's entry flags.
pub struct EntryFlags;

impl EntryFlags {
    pub const PRESENT: u64 = 0x1;
    pub const WRITE: u64 = 0x2;
    pub const USER: u64 = 0x4;
    pub const LARGE: u64 = 0x80;
    pub const EXECUTE: u64 = 0x100;
}

/// The hardware bits of a leaf entry with kernel flags `flags`: nothing for an absent
/// page; otherwise valid, readable and accessed, writable and dirty when writable,
/// user-accessible for user pages (executable unless writable and not marked
/// executable), executable for executable kernel pages, global for large pages.
pub open spec fn leaf_bits(flags: u64) -> u64 {
    if flags & EntryFlags::PRESENT == 0 {
        0
    } else {
        let w = flags & EntryFlags::WRITE != 0;
        let u = flags & EntryFlags::USER != 0;
        let x = flags & EntryFlags::EXECUTE != 0;
        let l = flags & EntryFlags::LARGE != 0;
        (PTE_V | PTE_R | PTE_A) | (if w { PTE_W | PTE_D } else { 0 })
            | (if u { PTE_U | (if !w || x { PTE_X } else { 0 }) } else if x { PTE_X } else { 0 })
            | (if l { PTE_G } else { 0 })
    }
}

/// The kernel flags an entry reads back as.
pub open spec fn entry_flags(entry: u64) -> u64 {
    (if entry & PTE_V != 0 { EntryFlags::PRESENT } else { 0 })
        | (if entry & PTE_W != 0 { EntryFlags::WRITE } else { 0 })
        | (if entry & PTE_U != 0 { EntryFlags::USER } else { 0 })
        | (if entry & PTE_X != 0 { EntryFlags::EXECUTE } else { 0 })
}

/// The hardware bits of a leaf with kernel flags `flags`.
pub fn encode_leaf_flags(flags: u64) -> (r: u64)
    ensures
        r == leaf_bits(flags),
{
    if flags & EntryFlags::PRESENT == 0 {
        return 0;
    }
    let w = flags & EntryFlags::WRITE != 0;
    let u = flags & EntryFlags::USER != 0;
    let x = flags & EntryFlags::EXECUTE != 0;
    let l = flags & EntryFlags::LARGE != 0;
    (PTE_V | PTE_R | PTE_A) | (if w { PTE_W | PTE_D } else { 0 })
        | (if u { PTE_U | (if !w || x { PTE_X } else { 0 }) } else if x { PTE_X } else { 0 })
        | (if l { PTE_G } else { 0 })
}

/// The kernel flags of an entry.
pub fn decode_entry_flags(entry: u64) -> (r: u64)
    ensures
        r == entry_flags(entry),
{
    (if entry & PTE_V != 0 { EntryFlags::PRESENT } else { 0 })
        | (if entry & PTE_W != 0 { EntryFlags::WRITE } else { 0 })
        | (if entry & PTE_U != 0 { EntryFlags::USER } else { 0 })
        | (if entry & PTE_X != 0 { EntryFlags::EXECUTE } else { 0 })
}

/// An entry naming machine frame `pfn` with bits `bits`.
pub open spec fn entry_of(pfn: u64, bits: u64) -> u64 {
    (pfn << PPN_SHIFT) | bits
}

/// A leaf for physical address `paddr` with kernel flags `flags`.
pub fn encode_large_leaf_raw(paddr: usize, flags: u64) -> (r: u64)
    ensures
        r == entry_of((paddr >> 12usize) as u64, leaf_bits(flags)),
{
    let pfn = paddr >> 12usize;
    ((pfn as u64) << PPN_SHIFT) | encode_leaf_flags(flags)
}

/// A leaf for the kernel's physical address `paddr` (counted from the start of RAM).
pub fn encode_leaf_entry_pseudo(paddr: usize, flags: u64) -> (r: u64)
    requires
        RAM_BASE + paddr <= usize::MAX,
    ensures
        r == entry_of(((RAM_BASE + paddr) as usize >> 12usize) as u64, leaf_bits(flags)),
{
    encode_large_leaf_raw(RAM_BASE + paddr, flags)
}

/// A pointer entry to the table at address `table`.
pub fn encode_table_ptr(table: usize) -> (r: u64)
    ensures
        r == entry_of((table >> 12usize) as u64, PTE_V),
{
    let pfn = table >> 12usize;
    ((pfn as u64) << PPN_SHIFT) | PTE_V
}

/// The frame a leaf entry names, counted from the start of RAM (0 for an absent page
/// or one below RAM).
pub open spec fn entry_frame(entry: u64) -> int {
    if entry & PTE_V != 0 {
        let m = (entry >> PPN_SHIFT) as usize;
        if m >= MACHINE_PFN_BASE { (m - MACHINE_PFN_BASE) as int } else { 0 }
    } else {
        0
    }
}

/// A leaf entry of a page table.
#[derive(Debug, Clone, Copy, PartialEq, Eq, Structural)]
pub struct PageTableEntry(pub u64);

impl PageTableEntry {
    /// An absent page.
    pub fn new() -> (r: Self)
        ensures
            r.0 == 0,
    {
        PageTableEntry(0)
    }

    /// Maps frame `pfn` (counted from the start of RAM) with kernel flags `flags`, or
    /// nothing.
    pub fn set(&mut self, pfn: Option<usize>, flags: u64)
        requires
            pfn matches Some(p) ==> RAM_BASE + p * PAGE_SIZE <= usize::MAX,
        ensures
            final(self).0 == (match pfn {
                Some(p) => entry_of(((RAM_BASE + p * PAGE_SIZE) as usize >> 12usize) as u64, leaf_bits(flags)),
                None => 0,
            }),
    {
        match pfn {
            Some(p) => {
                self.0 = encode_leaf_entry_pseudo(p * PAGE_SIZE, flags);
            },
            None => {
                self.0 = 0;
            },
        }
    }

    /// The frame (counted from the start of RAM; 0 for an absent page) and the kernel
    /// flags of the entry.
    pub fn get(&self) -> (r: (usize, u64))
        ensures
            r.1 == entry_flags(self.0),
            r.0 == entry_frame(self.0),
    {
        let flags = decode_entry_flags(self.0);
        let pfn = if self.0 & PTE_V != 0 {
            let m = (self.0 >> PPN_SHIFT) as usize;
            m.saturating_sub(MACHINE_PFN_BASE)
        } else {
            0
        };
        (pfn, flags)
    }
}

/// An entry of a page directory: a pointer to a lower table or a large leaf.
#[derive(Debug, Clone, Copy, PartialEq, Eq, Structural)]
pub struct PageDirectoryEntry(pub u64);

impl PageDirectoryEntry {
    pub fn new() -> (r: Self)
        ensures
            r.0 == 0,
    {
        PageDirectoryEntry(0)
    }

    pub fn clear(&mut self)
        ensures
            final(self).0 == 0,
    {
        self.0 = 0;
    }

    /// Points the entry at the table at address `table`.
    pub fn set_table_ptr(&mut self, table: usize)
        ensures
            final(self).0 == entry_of((table >> 12usize) as u64, PTE_V),
    {
        self.0 = encode_table_ptr(table);
    }

    /// Makes the entry a large leaf for physical address `paddr` with flags `flags`.
    pub fn set_large_identity_raw(&mut self, paddr: usize, flags: u64)
        ensures
            final(self).0 == entry_of((paddr >> 12usize) as u64, leaf_bits(flags)),
    {
        self.0 = encode_large_leaf_raw(paddr, flags);
    }
}

/// A page table: 512 leaf entries.
pub struct PageTable {
    pub entries: [PageTableEntry; 512],
}

impl PageTable {
    /// All pages absent.
    pub fn new() -> (r: Self)
        ensures
            forall|i: int| 0 <= i < 512 ==> (#[trigger] r.entries@[i]).0 == 0,
    {
        PageTable { entries: [PageTableEntry(0); 512] }
    }
}

/// A page directory: 512 entries.
pub struct PageDirectory {
    pub entries: [PageDirectoryEntry; 512],
}

impl PageDirectory {
    /// All entries empty.
    pub fn new() -> (r: Self)
        ensures
            forall|i: int| 0 <= i < 512 ==> (#[trigger] r.entries@[i]).0 == 0,
    {
        PageDirectory { entries: [PageDirectoryEntry(0); 512] }
    }
}

/// Leaf `i` of the kernel's paged window: page `i` of the window, present, writable
/// and executable.
pub open spec fn window_leaf(i: int) -> u64 {
    let pfn = (KERNEL_PAGED_WINDOW_BASE as int + i * (PAGE_SIZE as int)) / (PAGE_SIZE as int);
    entry_of(((RAM_BASE as int + pfn * (PAGE_SIZE as int)) as usize >> 12usize) as u64,
        leaf_bits(EntryFlags::PRESENT | EntryFlags::WRITE | EntryFlags::EXECUTE))
}

/// Number of kernel directory entries mapping physical memory.
pub const KERNEL_MAP_ENTRIES: usize = 32;

/// Maps physical memory for the kernel: entry `KERNEL_PAGED_WINDOW_INDEX` points at
/// the page table `leaf` (at address `leaf_addr`), whose pages map the window from
/// `KERNEL_PAGED_WINDOW_BASE` (present, writable, executable); the other entries of the
/// first `KERNEL_MAP_ENTRIES` are large identity leaves from `RAM_BASE` (present,
/// writable, large, executable). Other entries are kept.
pub fn init_kernel_linear_map(kernel: &mut PageDirectory, leaf: &mut PageTable, leaf_addr: usize)
    ensures
        forall|i: int| 0 <= i < 512 ==> #[trigger] final(leaf).entries@[i].0 == window_leaf(i),
        final(kernel).entries@[KERNEL_PAGED_WINDOW_INDEX as int].0 == entry_of((leaf_addr >> 12usize) as u64, PTE_V),
        forall|i: int| 0 <= i < KERNEL_MAP_ENTRIES && i != KERNEL_PAGED_WINDOW_INDEX ==> #[trigger] final(kernel).entries@[i].0 == entry_of(
            ((RAM_BASE + i * SIZE_PER_KERNEL_ENTRY_MAP) as usize >> 12usize) as u64,
            leaf_bits(EntryFlags::PRESENT | EntryFlags::WRITE | EntryFlags::LARGE | EntryFlags::EXECUTE)),
        forall|i: int| KERNEL_MAP_ENTRIES <= i < 512 ==> #[trigger] final(kernel).entries@[i] == old(kernel).entries@[i],
{
    let mut index: usize = 0;
    while index < KERNEL_MAP_ENTRIES
        invariant
            index <= KERNEL_MAP_ENTRIES,
            index > KERNEL_PAGED_WINDOW_INDEX ==> forall|i: int| 0 <= i < 512 ==> #[trigger] leaf.entries@[i].0 == window_leaf(i),
            index > KERNEL_PAGED_WINDOW_INDEX ==> kernel.entries@[KERNEL_PAGED_WINDOW_INDEX as int].0 == entry_of((leaf_addr >> 12usize) as u64, PTE_V),
            forall|i: int| 0 <= i < index && i != KERNEL_PAGED_WINDOW_INDEX ==> #[trigger] kernel.entries@[i].0 == entry_of(
                ((RAM_BASE + i * SIZE_PER_KERNEL_ENTRY_MAP) as usize >> 12usize) as u64,
                leaf_bits(EntryFlags::PRESENT | EntryFlags::WRITE | EntryFlags::LARGE | EntryFlags::EXECUTE)),
            forall|i: int| index <= i < 512 ==> #[trigger] kernel.entries@[i] == old(kernel).entries@[i],
        decreases KERNEL_MAP_ENTRIES - index,
    {
        if index == KERNEL_PAGED_WINDOW_INDEX {
            let mut k: usize = 0;
            while k < ENTRY_COUNT_PER_PAGE_TABLE
                invariant
                    k <= ENTRY_COUNT_PER_PAGE_TABLE,
                    forall|i: int| 0 <= i < k ==> #[trigger] leaf.entries@[i].0 == window_leaf(i),
                decreases ENTRY_COUNT_PER_PAGE_TABLE - k,
            {
                let paddr = KERNEL_PAGED_WINDOW_BASE + k * PAGE_SIZE;
                let mut e = leaf.entries[k];
                e.set(Some(paddr / PAGE_SIZE), EntryFlags::PRESENT | EntryFlags::WRITE | EntryFlags::EXECUTE);
                leaf.entries[k] = e;
                k = k + 1;
            }
            let mut d = kernel.entries[index];
            d.set_table_ptr(leaf_addr);
            kernel.entries[index] = d;
        } else {
            let paddr = RAM_BASE + index * SIZE_PER_KERNEL_ENTRY_MAP;
            let mut d = kernel.entries[index];
            d.set_large_identity_raw(paddr, EntryFlags::PRESENT | EntryFlags::WRITE | EntryFlags::LARGE | EntryFlags::EXECUTE);
            kernel.entries[index] = d;
        }
        index = index + 1;
    }
}

/// Maps the interrupt controller and the UART with large identity leaves (present,
/// writable, large).
pub fn init_low_mmio_map(low: &mut PageDirectory)
    ensures
        final(low).entries@[PLIC_L1_INDEX as int].0 == entry_of((0x0c00_0000usize >> 12usize) as u64, leaf_bits(EntryFlags::PRESENT | EntryFlags::WRITE | EntryFlags::LARGE)),
        final(low).entries@[UART0_L1_INDEX as int].0 == entry_of((0x1000_0000usize >> 12usize) as u64, leaf_bits(EntryFlags::PRESENT | EntryFlags::WRITE | EntryFlags::LARGE)),
        forall|i: int| 0 <= i < 512 && i != PLIC_L1_INDEX && i != UART0_L1_INDEX ==> #[trigger] final(low).entries@[i] == old(low).entries@[i],
{
    let mut d = low.entries[PLIC_L1_INDEX];
    d.set_large_identity_raw(0x0c00_0000, EntryFlags::PRESENT | EntryFlags::WRITE | EntryFlags::LARGE);
    low.entries[PLIC_L1_INDEX] = d;
    let mut d = low.entries[UART0_L1_INDEX];
    d.set_large_identity_raw(0x1000_0000, EntryFlags::PRESENT | EntryFlags::WRITE | EntryFlags::LARGE);
    low.entries[UART0_L1_INDEX] = d;
}

/// Root directory entry that maps the low gigabyte (devices and user space).
pub const ROOT_INDEX_LOW: usize = 0;
/// Root directory entry that maps the kernel's identity window at `RAM_BASE`.
pub const ROOT_INDEX_KERNEL_IDENTITY: usize = 2;
/// Root directory entry that maps the kernel's high window.
pub const ROOT_INDEX_KERNEL_HIGH: usize = 3;
/// Entry of the kernel's page table that maps the current process's user structure.
pub const KERNEL_UAREA_PTE_INDEX: usize = 511;

fn clear_directory(d: &mut PageDirectory)
    ensures
        forall|i: int| 0 <= i < 512 ==> (#[trigger] final(d).entries@[i]).0 == 0,
{
    let mut i: usize = 0;
    while i < ENTRY_COUNT_PER_PAGE_TABLE
        invariant
            i <= ENTRY_COUNT_PER_PAGE_TABLE,
            forall|k: int| 0 <= k < i ==> (#[trigger] d.entries@[k]).0 == 0,
        decreases ENTRY_COUNT_PER_PAGE_TABLE - i,
    {
        d.entries[i] = PageDirectoryEntry::new();
        i = i + 1;
    }
}

/// The directories and the kernel's page table as the kernel starts paging with them.
pub open spec fn initial_paging(
    root: PageDirectory,
    low: PageDirectory,
    kernel: PageDirectory,
    leaf: PageTable,
    low_addr: usize,
    kernel_addr: usize,
    leaf_addr: usize,
) -> bool {
    &&& forall|i: int| 0 <= i < 512 ==> #[trigger] root.entries@[i].0 == (
        if i == ROOT_INDEX_LOW { entry_of((low_addr >> 12usize) as u64, PTE_V) }
        else if i == ROOT_INDEX_KERNEL_IDENTITY || i == ROOT_INDEX_KERNEL_HIGH { entry_of((kernel_addr >> 12usize) as u64, PTE_V) }
        else { 0 })
    &&& low.entries@[PLIC_L1_INDEX as int].0 == entry_of((0x0c00_0000usize >> 12usize) as u64, leaf_bits(EntryFlags::PRESENT | EntryFlags::WRITE | EntryFlags::LARGE))
    &&& low.entries@[UART0_L1_INDEX as int].0 == entry_of((0x1000_0000usize >> 12usize) as u64, leaf_bits(EntryFlags::PRESENT | EntryFlags::WRITE | EntryFlags::LARGE))
    &&& forall|i: int| 0 <= i < 512 && i != PLIC_L1_INDEX && i != UART0_L1_INDEX ==> #[trigger] low.entries@[i].0 == 0
    &&& forall|i: int| 0 <= i < 512 ==> #[trigger] leaf.entries@[i].0 == window_leaf(i)
    &&& kernel.entries@[KERNEL_PAGED_WINDOW_INDEX as int].0 == entry_of((leaf_addr >> 12usize) as u64, PTE_V)
    &&& forall|i: int| 0 <= i < KERNEL_MAP_ENTRIES && i != KERNEL_PAGED_WINDOW_INDEX ==> #[trigger] kernel.entries@[i].0 == entry_of(
            ((RAM_BASE + i * SIZE_PER_KERNEL_ENTRY_MAP) as usize >> 12usize) as u64,
            leaf_bits(EntryFlags::PRESENT | EntryFlags::WRITE | EntryFlags::LARGE | EntryFlags::EXECUTE))
    &&& forall|i: int| KERNEL_MAP_ENTRIES <= i < 512 ==> #[trigger] kernel.entries@[i].0 == 0
}

/// Builds the kernel's address space: every entry of the root directory `root`, the
/// low directory `low` (at `low_addr`), the kernel directory `kernel` (at
/// `kernel_addr`) and the kernel's page table `leaf` (at `leaf_addr`) is cleared; the
/// root then points at the low directory for the low gigabyte and at the kernel
/// directory for both kernel windows; the kernel directory maps physical memory (see
/// `init_kernel_linear_map`) and the low directory the devices (see
/// `init_low_mmio_map`).
pub fn init_page_directory(
    root: &mut PageDirectory,
    low: &mut PageDirectory,
    kernel: &mut PageDirectory,
    leaf: &mut PageTable,
    low_addr: usize,
    kernel_addr: usize,
    leaf_addr: usize,
)
    ensures
        initial_paging(*final(root), *final(low), *final(kernel), *final(leaf), low_addr, kernel_addr, leaf_addr),
{
    clear_directory(root);
    clear_directory(low);
    clear_directory(kernel);
    *leaf = PageTable::new();
    let mut d = root.entries[ROOT_INDEX_LOW];
    d.set_table_ptr(low_addr);
    root.entries[ROOT_INDEX_LOW] = d;
    let mut d = root.entries[ROOT_INDEX_KERNEL_IDENTITY];
    d.set_table_ptr(kernel_addr);
    root.entries[ROOT_INDEX_KERNEL_IDENTITY] = d;
    let mut d = root.entries[ROOT_INDEX_KERNEL_HIGH];
    d.set_table_ptr(kernel_addr);
    root.entries[ROOT_INDEX_KERNEL_HIGH] = d;
    init_kernel_linear_map(kernel, leaf, leaf_addr);
    init_low_mmio_map(low);
}

/// Gives user space its page tables: each of `tables` gets no page mapped, and entry
/// `i` of the low directory `low` points at table `i` (at `table_addrs[i]`); the other
/// entries of `low` are kept.
pub fn init_user_page_table(low: &mut PageDirectory, tables: &mut [PageTable; 4], table_addrs: [usize; 4])
    ensures
        forall|t: int, i: int| 0 <= t < 4 && 0 <= i < 512 ==> (#[trigger] final(tables)@[t].entries@[i]).0 == 0,
        forall|t: int| 0 <= t < 4 ==> #[trigger] final(low).entries@[t].0 == entry_of((table_addrs@[t] >> 12usize) as u64, PTE_V),
        forall|i: int| 4 <= i < 512 ==> #[trigger] final(low).entries@[i] == old(low).entries@[i],
{
    let mut idx: usize = 0;
    while idx < USER_PAGE_TABLE_COUNT
        invariant
            idx <= USER_PAGE_TABLE_COUNT,
            forall|t: int, i: int| 0 <= t < idx && 0 <= i < 512 ==> (#[trigger] tables@[t].entries@[i]).0 == 0,
            forall|t: int| 0 <= t < idx ==> #[trigger] low.entries@[t].0 == entry_of((table_addrs@[t] >> 12usize) as u64, PTE_V),
            forall|i: int| idx <= i < 512 ==> #[trigger] low.entries@[i] == old(low).entries@[i],
        decreases USER_PAGE_TABLE_COUNT - idx,
    {
        tables[idx] = PageTable::new();
        let mut d = low.entries[idx];
        d.set_table_ptr(table_addrs[idx]);
        low.entries[idx] = d;
        idx = idx + 1;
    }
}

/// Maps the user structure at physical address `user_struct_addr` (counted from the
/// start of RAM) into the kernel's page table `leaf`, present and writable; the other
/// entries are kept.
pub fn switch_user_struct(leaf: &mut PageTable, user_struct_addr: usize)
    requires
        RAM_BASE + (user_struct_addr >> 12usize) * PAGE_SIZE <= usize::MAX,
    ensures
        final(leaf).entries@[KERNEL_UAREA_PTE_INDEX as int].0 == entry_of(
            ((RAM_BASE + (user_struct_addr >> 12usize) * PAGE_SIZE) as usize >> 12usize) as u64,
            leaf_bits(EntryFlags::PRESENT | EntryFlags::WRITE)),
        forall|i: int| 0 <= i < 512 && i != KERNEL_UAREA_PTE_INDEX ==> #[trigger] final(leaf).entries@[i] == old(leaf).entries@[i],
{
    let mut e = leaf.entries[KERNEL_UAREA_PTE_INDEX];
    e.set(Some(user_struct_addr >> 12usize), EntryFlags::PRESENT | EntryFlags::WRITE);
    leaf.entries[KERNEL_UAREA_PTE_INDEX] = e;
}

/// Setting a page table entry to a frame and reading it back gives the frame (for a
/// present page; 0 otherwise) and the flags the hardware bits keep: present, and when
/// present, writable, user, and executable as `leaf_bits` decides.
pub proof fn law_entry_set_then_get(p: usize, flags: u64)
    requires
        RAM_BASE + p * PAGE_SIZE <= usize::MAX,
    ensures
        ({
            let e = entry_of(((RAM_BASE + p * PAGE_SIZE) as usize >> 12usize) as u64, leaf_bits(flags));
            &&& entry_flags(e) == entry_flags(leaf_bits(flags))
            &&& (e & PTE_V != 0) == (flags & EntryFlags::PRESENT != 0)
            &&& (e & PTE_V != 0 ==> (e >> PPN_SHIFT) as usize == p + MACHINE_PFN_BASE)
        }),
{
    let a: usize = (RAM_BASE + p * PAGE_SIZE) as usize;
    let m: u64 = (a >> 12usize) as u64;
    let b = leaf_bits(flags);
    assert(a >> 12usize == p + 0x80000) by (bit_vector)
        requires a == 0x8000_0000usize + p * 4096;
    assert(b < 0x400u64 && (b & 1u64 != 0) == (flags & 1u64 != 0)) by (bit_vector)
        requires b == (if flags & 1u64 == 0 { 0u64 } else {
            (0x1u64 | 0x2u64 | 0x40u64) | (if flags & 2u64 != 0 { 0x4u64 | 0x80u64 } else { 0u64 })
            | (if flags & 4u64 != 0 { 0x10u64 | (if !(flags & 2u64 != 0) || flags & 0x100u64 != 0 { 0x8u64 } else { 0u64 }) } else if flags & 0x100u64 != 0 { 0x8u64 } else { 0u64 })
            | (if flags & 0x80u64 != 0 { 0x20u64 } else { 0u64 }) });
    assert(m < 0x10_0000_0000_0000u64) by (bit_vector)
        requires m == (a >> 12usize) as u64;
    let e = (m << 10u64) | b;
    assert((e & 1u64) == (b & 1u64) && (e & 4u64) == (b & 4u64) && (e & 0x10u64) == (b & 0x10u64) && (e & 8u64) == (b & 8u64)
        && e >> 10u64 == m) by (bit_vector)
        requires e == (m << 10u64) | b, b < 0x400u64, m < 0x10_0000_0000_0000u64;
}

} // verus!
