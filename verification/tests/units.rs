use v6pp_kernel::constants::PosixError;
use v6pp_kernel::dev::char_device::{char_device_for_major, console_device, CharDev, ConsoleDevice};
use v6pp_kernel::dev::device_manager::{major, minor, set_major, set_minor};
use v6pp_kernel::fs::file::{File, FileFlags, IOParameter, OpenFiles};
use v6pp_kernel::fs::file_manager::{DirectoryEntry, FileManager, SearchOutcome};
use v6pp_kernel::fs::inode::{Inode, InodeFlag, InodeMode};
use v6pp_kernel::fs::open_file_manager::{InodeTable, OpenFileTable};
use v6pp_kernel::kernel::diagnose::Diagnose;
use v6pp_kernel::loader::{ELFParser, LoadSegment};
use v6pp_kernel::machine::page_table::{
    encode_large_leaf_raw, encode_table_ptr, init_kernel_linear_map, PageDirectory, PageDirectoryEntry, PageTable,
};
use v6pp_kernel::mm::zone::MemoryZone;

#[test]
fn descriptor_table_operations() {
    let mut of = OpenFiles::new();
    assert_eq!(of.alloc_free_slot(), Ok(0));
    of.set_f(0, 4);
    of.set_f(1, 5);
    assert_eq!(of.alloc_free_slot(), Ok(2));
    assert_eq!(of.clone_fd(1), Ok(2));
    assert_eq!(of.get_f(2), Ok(5));
    of.clear_f(0);
    assert_eq!(of.get_f(0), Err(PosixError::EBADF));
    assert_eq!(of.clone_fd(0), Err(PosixError::EBADF));
    of.set_f(99, 1);
    assert_eq!(of.get_f(99), Err(PosixError::EBADF));
    assert!(File::new().is_free());
    let mut io = IOParameter::new();
    io.m_count = 10;
    io.advance(4);
    assert_eq!((io.m_base, io.m_offset, io.m_count), (4, 4, 6));
}

fn entry(ino: i32, name: &[u8]) -> DirectoryEntry {
    let mut e = DirectoryEntry::new();
    e.m_ino = ino;
    e.m_name[..name.len()].copy_from_slice(name);
    e
}

#[test]
fn directory_scans_and_outcomes() {
    let entries = [entry(1, b"."), entry(0, b"x"), entry(3, b"a"), entry(4, b"b")];
    let scan = FileManager::scan_entries(&entries, 4, b"b");
    assert_eq!((scan.found, scan.free), (Some(3), Some(1)));
    assert_eq!(FileManager::search_outcome(&entries, scan, 4, false, false, false), Ok(SearchOutcome::Found { index: 3, ino: 4 }));
    assert_eq!(FileManager::search_outcome(&entries, scan, 4, true, false, true), Ok(SearchOutcome::Found { index: 3, ino: 4 }));
    assert_eq!(FileManager::search_outcome(&entries, scan, 4, false, true, false), Err(PosixError::EACCES));
    let missing = FileManager::scan_entries(&entries, 4, b"zz");
    assert_eq!(FileManager::search_outcome(&entries, missing, 4, true, false, true), Ok(SearchOutcome::Create { index: 1, append: false }));
    let mut name = [0u8; 28];
    name[..2].copy_from_slice(b"hi");
    let e = FileManager::writedir(12, &name);
    assert_eq!(e.m_ino, 12);
    assert!(e.name_is(b"hi"));
}

#[test]
fn new_nodes_and_ownership() {
    let mut ino = Inode::new();
    FileManager::maknode(&mut ino, InodeMode::IFDIR | 0o755, 7, 8);
    assert_eq!(ino.i_mode, InodeMode::IFDIR | 0o755 | InodeMode::IALLOC);
    assert_eq!((ino.i_nlink, ino.i_uid, ino.i_gid), (1, 7, 8));
    assert!(ino.i_flag & (InodeFlag::IACC | InodeFlag::IUPD) == (InodeFlag::IACC | InodeFlag::IUPD));
    assert!(FileManager::owner(&ino, 7));
    assert!(FileManager::owner(&ino, 0));
    assert!(!FileManager::owner(&ino, 3));
}

#[test]
fn fstat_of_an_open_file() {
    let mut of = OpenFiles::new();
    let mut table = OpenFileTable::new();
    let mut inodes = InodeTable::new();
    let mut ino = Inode::new();
    ino.i_number = 33;
    ino.i_count = 1;
    inodes.set_inode(2, ino);
    let (fd, slot) = table.f_alloc(&mut of).unwrap();
    table.set_file(slot, FileFlags::FREAD, Some(2));
    let p = FileManager::fstat(&of, &table, &inodes, fd, 5).unwrap();
    assert_eq!(p.ino, 33);
    assert!(p.update.is_none());
    assert_eq!(FileManager::stat1(&inodes, 2, 5).sector, p.sector);
    assert!(FileManager::fstat(&of, &table, &inodes, fd + 1, 5).is_err());
}

#[test]
fn load_segments_are_collected_bounded_and_sorted() {
    let mut p = Vec::new();
    for &(ty, flags, vaddr, filesz, memsz) in &[(1u32, 6u32, 0x5000u64, 0x10u64, 0x100u64), (1, 5, 0x1000, 0x200, 0x200), (2, 0, 0, 0, 0)] {
        let mut e = vec![0u8; 56];
        e[0..4].copy_from_slice(&ty.to_le_bytes());
        e[4..8].copy_from_slice(&flags.to_le_bytes());
        e[16..24].copy_from_slice(&vaddr.to_le_bytes());
        e[32..40].copy_from_slice(&filesz.to_le_bytes());
        e[40..48].copy_from_slice(&memsz.to_le_bytes());
        p.extend_from_slice(&e);
    }
    let ph = ELFParser::parse_phdr(&p, 1);
    assert_eq!((ph.p_type, ph.p_vaddr, ph.p_memsz), (1, 0x1000, 0x200));
    let loads = ELFParser::collect_loads(&p, 3).unwrap();
    assert_eq!(loads.len(), 2);
    assert!(loads[0].is_writable());
    assert!(!loads[1].is_writable());
    assert_eq!(loads[0].end(), 0x5100);
    assert_eq!(ELFParser::bounds(&loads, false), (Some(0x1000), Some(0x5100)));
    assert_eq!(ELFParser::bounds(&loads, true), (Some(0x5000), Some(0x5100)));
    let sorted = ELFParser::sort_segments(loads);
    assert_eq!(sorted.iter().map(|s: &LoadSegment| s.vaddr).collect::<Vec<_>>(), vec![0x1000, 0x5000]);
}

#[test]
fn page_directory_entries() {
    assert_eq!(encode_table_ptr(0x8010_2000), (0x80102u64 << 10) | 1);
    assert_eq!(encode_large_leaf_raw(0x8000_0000, 0x1 | 0x2 | 0x80), (0x80000u64 << 10) | 0xe7);
    let mut d = PageDirectoryEntry::new();
    d.set_table_ptr(0x8000_3000);
    assert_eq!(d.0, (0x80003u64 << 10) | 1);
    d.set_large_identity_raw(0x1000_0000, 0x1);
    assert_eq!(d.0, (0x10000u64 << 10) | 0x43);
    d.clear();
    assert_eq!(d.0, 0);
    let mut kernel = PageDirectory::new();
    let mut leaf = PageTable::new();
    kernel.entries[40].0 = 0x77;
    init_kernel_linear_map(&mut kernel, &mut leaf, 0x8020_0000);
    assert_eq!(kernel.entries[1].0, (0x80200u64 << 10) | 1);
    assert_eq!(kernel.entries[2].0, ((0x8040_0000u64 >> 12) << 10) | 0xef);
    assert_eq!(kernel.entries[40].0, 0x77);
    assert_eq!(leaf.entries[511].0, (((0x8020_0000u64 + 511 * 0x1000) >> 12) << 10) | 0xcf);
}

#[test]
fn devices_and_numbers() {
    assert_eq!((major(0x0302), minor(0x0302)), (3, 2));
    assert_eq!(set_major(0x0302, 5), 0x0502);
    assert_eq!(set_minor(0x0302, 7), 0x0307);
    assert_eq!(console_device(), CharDev::Console);
    assert_eq!(char_device_for_major(1), None);
    assert_eq!(ConsoleDevice::validate(0x0000), Ok(()));
    assert_eq!(ConsoleDevice::validate(0x0001), Err(PosixError::ENXIO));
}

#[test]
fn diagnose_window_and_memory_zone() {
    let mut d = Diagnose::new();
    d.trace_off();
    assert!(!d.is_trace_on());
    d.trace_on();
    assert!(d.is_trace_on());
    d.clear_screen();
    assert_eq!((d.row, d.column), (25 - 10, 0));
    let z = MemoryZone;
    assert_eq!(z.get_pfn(7), 7);
    assert!(z.contains_prange(0x1000));
}
