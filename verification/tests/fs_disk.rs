use v6pp_kernel::dev::buffer::{LogicalBlock, PhysicalBlock};
use v6pp_kernel::dev::buffer_manager::BufferManager;
use v6pp_kernel::fs::file_system::{pick_free_inodes, AllocStep, DiskSuperBlock, FileSystem, FileSystemError, FreeStep, IallocStep, IallocTake, SuperBlock};
use v6pp_kernel::fs::open_file_manager::{IGet, InodeTable};
use v6pp_kernel::fs::inode::{BmapError, DevId, DiskInode, IndexCache, IndexKind, Inode, InodeFlag, InodeMode, I_ADDR_SIZE};

fn disk_super_block() -> DiskSuperBlock {
    let mut bytes = vec![0u8; 1024];
    bytes[0] = 10; // s_isize
    bytes[4] = 0xe8; // s_fsize = 1000
    bytes[5] = 0x03;
    bytes[8] = 2; // s_nfree
    bytes[12] = 0; // s_free[0] = 0: end of the chain
    bytes[16] = 77; // s_free[1] = 77
    DiskSuperBlock::from_bytes(&bytes)
}

#[test]
fn super_block_bytes_roundtrip() {
    let d = disk_super_block();
    assert_eq!(d.s_isize, 10);
    assert_eq!(d.s_fsize, 1000);
    assert_eq!(d.s_nfree, 2);
    assert_eq!(d.s_free[1], 77);
    let bytes = d.to_bytes();
    assert_eq!(bytes.len(), 1024);
    let again = DiskSuperBlock::from_bytes(&bytes);
    assert_eq!(again.s_fsize, 1000);
    assert_eq!(again.s_free[1], 77);
    assert_eq!(again.to_bytes(), bytes);
}

#[test]
fn free_then_alloc_gives_the_block_back() {
    let mut sb = SuperBlock::from_disk(disk_super_block(), 5);
    assert!(sb.free_prepare().is_none());
    sb.free_push(123);
    assert!(sb.is_modified());
    assert_eq!(sb.alloc_take(), Ok((123, false)));
    assert_eq!(sb.alloc_take(), Ok((77, false)));
    assert_eq!(sb.alloc_take(), Err(FileSystemError::NoSpace));
}

#[test]
fn alloc_of_the_last_entry_asks_for_a_refill() {
    let mut d = disk_super_block();
    d.s_nfree = 1;
    d.s_free[0] = 300;
    let mut sb = SuperBlock::from_disk(d, 0);
    assert_eq!(sb.alloc_take(), Ok((300, true)));
    assert!(sb.is_flock());
    let mut table = vec![0i32; 101];
    table[0] = 2;
    table[1] = 0;
    table[2] = 301;
    sb.alloc_refill(&table);
    assert!(!sb.is_flock());
    assert_eq!(sb.alloc_take(), Ok((301, false)));
}

#[test]
fn free_inodes_come_back_last_in_first_out() {
    let mut sb = SuperBlock::from_disk(disk_super_block(), 0);
    sb.free_inode(12);
    sb.free_inode(13);
    assert_eq!(sb.take_free_inode(), Some(13));
    assert_eq!(sb.take_free_inode(), Some(12));
    assert_eq!(sb.take_free_inode(), None);
}

#[test]
fn inode_scan_picks_free_inodes_not_in_core() {
    let modes = [0x8000u32, 0, 0, 0x8000, 0];
    let in_core = [false, false, true, false, false];
    let (n, list) = pick_free_inodes(&modes, &in_core);
    assert_eq!(n, 2);
    assert_eq!(&list[..3], &[1, 4, 0]);
    assert_eq!(list.len(), 100);
}

#[test]
fn get_fs_finds_the_mounted_root() {
    let mut fs = FileSystem::new();
    assert_eq!(fs.get_fs(DevId(0)), Err(FileSystemError::NoSuchFileSystem));
    fs.install_loaded_super_block(disk_super_block(), 9);
    assert_eq!(fs.get_fs(DevId(0)), Ok(0));
    assert_eq!(fs.super_block(0).isize(), 10);
    assert_eq!(fs.get_fs(DevId(1)), Err(FileSystemError::NoSuchFileSystem));
}

#[test]
fn logical_blocks_map_to_direct_indirect_and_double_indirect_slots() {
    assert_eq!(IndexKind::from_lbn(5), Ok(IndexKind::Direct { slot: 5 }));
    assert_eq!(IndexKind::from_lbn(6), Ok(IndexKind::Indirect { i_addr_slot: 6, inner: 0 }));
    assert_eq!(IndexKind::from_lbn(134), Ok(IndexKind::Indirect { i_addr_slot: 7, inner: 0 }));
    assert_eq!(IndexKind::from_lbn(261), Ok(IndexKind::Indirect { i_addr_slot: 7, inner: 127 }));
    assert_eq!(IndexKind::from_lbn(262), Ok(IndexKind::DoubleIndirect { i_addr_slot: 8, mid: 0, inner: 0 }));
    assert_eq!(IndexKind::from_lbn(262 + 16384 + 129), Ok(IndexKind::DoubleIndirect { i_addr_slot: 9, mid: 1, inner: 1 }));
    assert_eq!(IndexKind::from_lbn(33029), Ok(IndexKind::DoubleIndirect { i_addr_slot: 9, mid: 127, inner: 127 }));
    assert_eq!(IndexKind::from_lbn(33030), Err(BmapError::FileTooLarge));
}

#[test]
fn bmap_allocates_missing_blocks_from_the_end_of_fresh() {
    let mut ino = Inode::new();
    let mut cache = IndexCache::new();
    let mut fresh = vec![500u32, 501, 502];
    let r = ino.bmap(LogicalBlock(0), &mut cache, &mut fresh).unwrap();
    assert_eq!(r.phyblk, PhysicalBlock(502));
    assert_eq!(r.rablock, None);
    assert_eq!(ino.i_addr[0], PhysicalBlock(502));
    assert!(ino.i_flag & InodeFlag::IUPD != 0);
    let r = ino.bmap(LogicalBlock(0), &mut cache, &mut fresh).unwrap();
    assert_eq!(r.phyblk, PhysicalBlock(502));
    // an indirect block: the index block first, then the data block
    let r = ino.bmap(LogicalBlock(7), &mut cache, &mut fresh).unwrap();
    assert_eq!(ino.i_addr[6], PhysicalBlock(501));
    assert_eq!(r.phyblk, PhysicalBlock(500));
    assert!(cache.contains(501));
    assert!(matches!(ino.bmap(LogicalBlock(8), &mut cache, &mut fresh), Err(BmapError::AllocFailed)));
    assert!(matches!(ino.bmap(LogicalBlock(40000), &mut cache, &mut fresh), Err(BmapError::FileTooLarge)));
}

#[test]
fn truncation_frees_the_blocks_from_the_last_slot() {
    let mut ino = Inode::new();
    ino.i_mode = InodeMode::IALLOC | InodeMode::ILARG | 0o644;
    ino.i_size = 5000;
    ino.i_addr[0] = PhysicalBlock(10);
    ino.i_addr[3] = PhysicalBlock(13);
    ino.i_addr[6] = PhysicalBlock(16);
    let freed = ino.i_trunc();
    assert_eq!(freed, vec![PhysicalBlock(16), PhysicalBlock(13), PhysicalBlock(10)]);
    assert_eq!(ino.i_size, 0);
    assert_eq!(ino.i_mode, InodeMode::IALLOC);
    assert!(ino.i_addr.iter().all(|b| b.0 == 0));
    let mut dev = Inode::new();
    dev.i_mode = InodeMode::IFCHR;
    dev.i_addr[0] = PhysicalBlock(0x100);
    assert!(dev.i_trunc().is_empty());
    assert_eq!(dev.i_addr[0], PhysicalBlock(0x100));
}

#[test]
fn disk_inode_is_written_back_only_when_changed() {
    let mut ino = Inode::new();
    ino.i_mode = 0o100644;
    assert!(ino.i_update(7).is_none());
    ino.i_flag = InodeFlag::IACC;
    let d = ino.i_update(7).unwrap();
    assert_eq!((d.d_atime, d.d_mtime), (7, 0));
    let mut copy = Inode::new();
    copy.i_copy(&d);
    assert_eq!(copy.i_mode, 0o100644);
}

#[test]
fn sync_writes_back_modified_super_blocks_once() {
    let mut fs = FileSystem::new();
    let mut d = disk_super_block();
    d.s_fmod = 1;
    fs.install_loaded_super_block(d, 9);
    let list = fs.update_begin(42).unwrap();
    assert_eq!(list.len(), 1);
    assert_eq!(list[0].0, DevId(0));
    assert_eq!(list[0].1.s_time, 42);
    assert_eq!(list[0].1.s_fmod, 0);
    assert_eq!(list[0].1.s_fsize, 1000);
    assert!(fs.update_begin(43).is_none());
    fs.update_end();
    assert_eq!(fs.update_begin(44).unwrap().len(), 0);
    fs.update_end();
    assert!(!fs.super_block(0).is_modified());
}

#[test]
fn freed_inodes_go_to_their_file_system() {
    let mut fs = FileSystem::new();
    assert_eq!(fs.i_free(DevId(0), 5), Err(FileSystemError::NoSuchFileSystem));
    fs.install_loaded_super_block(disk_super_block(), 0);
    assert_eq!(fs.i_free(DevId(0), 5), Ok(()));
    assert!(fs.super_block(0).is_modified());
    assert_eq!(fs.get_mount(DevId(0), 1), None);
    assert!(!fs.bad_block(DevId(0), 3));
}

#[test]
fn super_block_lock_words_and_garbage_counts() {
    let mut d = disk_super_block();
    d.s_nfree = 500;
    let mut sb = SuperBlock::from_disk(d, 0);
    sb.normalize_counts();
    assert_eq!(sb.alloc_take(), Err(FileSystemError::NoSpace));
    sb.lock_inode_list();
    assert!(sb.is_ilock());
    sb.unlock_inode_list();
    assert!(!sb.is_ilock());
    sb.set_modified(true);
    sb.set_time(77);
    let disk = sb.to_disk();
    assert_eq!((disk.s_fmod, disk.s_time, disk.s_nfree, disk.s_ninode), (1, 77, 0, 0));
    assert!(!sb.is_readonly());
    let mut inodes = vec![0i32; 100];
    inodes[0] = 9;
    sb.install_free_inodes(1, &inodes);
    assert_eq!(sb.take_free_inode(), Some(9));
}

#[test]
fn a_full_free_list_spills_into_the_freed_block() {
    let mut sb = SuperBlock::from_disk(disk_super_block(), 0);
    for b in 0..98 {
        sb.free_push(200 + b);
    }
    let table = sb.free_prepare().unwrap();
    assert_eq!(table.len(), 101);
    assert_eq!(table[0], 100);
    assert!(sb.is_flock());
    sb.free_spilled();
    assert!(!sb.is_flock());
    sb.free_push(999);
    assert_eq!(sb.alloc_take(), Ok((999, true)));
}

#[test]
fn allocate_takes_blocks_until_the_end_of_the_chain() {
    let mut fs = FileSystem::new();
    assert_eq!(fs.allocate(DevId(0)), Err(FileSystemError::NoSuchFileSystem));
    fs.install_loaded_super_block(disk_super_block(), 0);
    assert_eq!(fs.allocate(DevId(0)), Ok(AllocStep::Block(77)));
    assert_eq!(fs.alloc_done(DevId(0)), Ok(()));
    assert!(fs.super_block(0).is_modified());
    assert_eq!(fs.allocate(DevId(0)), Err(FileSystemError::NoSpace));
}

#[test]
fn allocate_reloads_the_list_from_its_last_block() {
    let mut bytes = vec![0u8; 1024];
    bytes[8] = 1; // s_nfree
    bytes[12] = 50; // s_free[0] = 50: holds the next group
    let mut fs = FileSystem::new();
    fs.install_loaded_super_block(DiskSuperBlock::from_bytes(&bytes), 0);
    assert_eq!(fs.allocate(DevId(0)), Ok(AllocStep::Refill(50)));
    assert_eq!(fs.allocate(DevId(0)), Ok(AllocStep::Wait));
    let mut table = vec![0i32; 101];
    table[0] = 2;
    table[1] = 0;
    table[2] = 60;
    assert_eq!(fs.alloc_refilled(DevId(0), Some(&table)), Ok(()));
    assert!(!fs.super_block(0).is_flock());
    assert_eq!(fs.allocate(DevId(0)), Ok(AllocStep::Block(60)));
}

#[test]
fn clr_buf_zeroes_the_block() {
    let mut data = vec![7u8; 512];
    BufferManager::clr_buf(&mut data);
    assert_eq!(data.len(), 512);
    assert!(data.iter().all(|&b| b == 0));
}

#[test]
fn i_alloc_scans_when_empty_then_takes_from_the_list() {
    let mut fs = FileSystem::new();
    assert_eq!(fs.i_alloc(DevId(0)), Err(FileSystemError::NoSuchFileSystem));
    fs.install_loaded_super_block(disk_super_block(), 0);
    assert_eq!(fs.i_alloc(DevId(0)), Ok(IallocStep::Scan { isize: 10 }));
    assert_eq!(fs.i_alloc(DevId(0)), Ok(IallocStep::Wait));
    let modes = [0u32, 0o100644, 0, 0, 0o040755];
    let in_core = [false, false, true, false, false];
    let found = pick_free_inodes(&modes, &in_core);
    assert_eq!(found.0, 2);
    assert_eq!(fs.i_alloc_scanned(DevId(0), Some(found)), Ok(true));
    assert!(!fs.super_block(0).is_ilock());
    assert_eq!(fs.i_alloc(DevId(0)), Ok(IallocStep::Take(3)));
    assert_eq!(fs.i_alloc(DevId(0)), Ok(IallocStep::Take(0)));
    assert_eq!(fs.i_alloc(DevId(0)), Ok(IallocStep::Scan { isize: 10 }));
    assert_eq!(fs.i_alloc_scanned(DevId(0), None), Ok(false));
}

#[test]
fn free_pushes_the_block_for_the_next_allocation() {
    let mut fs = FileSystem::new();
    fs.install_loaded_super_block(disk_super_block(), 0);
    assert!(matches!(fs.free(DevId(0), 123), Ok(FreeStep::Done)));
    assert!(fs.super_block(0).is_modified());
    assert_eq!(fs.allocate(DevId(0)), Ok(AllocStep::Block(123)));
    assert!(matches!(fs.free(DevId(1), 123), Err(FileSystemError::NoSuchFileSystem)));
}

#[test]
fn free_spills_a_full_list_into_the_freed_block() {
    let mut bytes = vec![0u8; 1024];
    bytes[8] = 100; // s_nfree: the list is full
    for k in 0..100usize {
        bytes[12 + 4 * k] = (k + 1) as u8;
    }
    let mut fs = FileSystem::new();
    fs.install_loaded_super_block(DiskSuperBlock::from_bytes(&bytes), 0);
    let table = match fs.free(DevId(0), 500) {
        Ok(FreeStep::Spill(t)) => t,
        other => panic!("expected a spill, got {:?}", other),
    };
    assert_eq!(table.len(), 101);
    assert_eq!((table[0], table[1], table[100]), (100, 1, 100));
    assert!(matches!(fs.free(DevId(0), 501), Ok(FreeStep::Wait)));
    assert_eq!(fs.free_spilled(DevId(0), 500), Ok(()));
    assert!(!fs.super_block(0).is_flock());
    assert_eq!(fs.allocate(DevId(0)), Ok(AllocStep::Refill(500)));
}

fn disk_inode(mode: u32) -> DiskInode {
    let mut d_addr = [PhysicalBlock(0); I_ADDR_SIZE];
    d_addr[0] = PhysicalBlock(55);
    DiskInode { d_mode: mode, d_nlink: 1, d_uid: 3, d_gid: 4, d_size: 12, d_addr, d_atime: 0, d_mtime: 0 }
}

#[test]
fn i_alloc_take_cleans_and_locks_a_free_inode() {
    let mut fs = FileSystem::new();
    let mut inodes = InodeTable::new();
    assert_eq!(fs.i_alloc_take(&mut inodes, DevId(0), 5, &disk_inode(0)), Err(FileSystemError::NoSuchFileSystem));
    fs.install_loaded_super_block(disk_super_block(), 0);
    assert!(!fs.super_block(0).is_modified());
    let s = match fs.i_alloc_take(&mut inodes, DevId(0), 5, &disk_inode(0)) {
        Ok(IallocTake::Allocated(s)) => s,
        other => panic!("unexpected {:?}", other),
    };
    let n = inodes.inode(s);
    assert_eq!(n.i_dev, DevId(0));
    assert_eq!(n.i_number, 5);
    assert_eq!(n.i_mode, 0);
    assert_eq!(n.i_nlink, 0);
    assert_eq!(n.i_uid, -1);
    assert_eq!(n.i_gid, -1);
    assert_eq!(n.i_size, 0);
    assert!(n.i_flag & InodeFlag::ILOCK != 0);
    assert!(n.i_count > 0);
    assert!(fs.super_block(0).is_modified());
    // Taken again while locked: the caller waits.
    assert_eq!(fs.i_alloc_take(&mut inodes, DevId(0), 5, &disk_inode(0)), Ok(IallocTake::Locked));
}

#[test]
fn i_alloc_take_reports_an_inode_in_use_on_disk() {
    let mut fs = FileSystem::new();
    let mut inodes = InodeTable::new();
    fs.install_loaded_super_block(disk_super_block(), 0);
    let s = match fs.i_alloc_take(&mut inodes, DevId(0), 6, &disk_inode(0o100644)) {
        Ok(IallocTake::InUse(s)) => s,
        other => panic!("unexpected {:?}", other),
    };
    assert_eq!(inodes.inode(s).i_mode, 0o100644);
    assert_eq!(inodes.inode(s).i_number, 6);
    assert_eq!((inodes.inode(s).i_nlink, inodes.inode(s).i_size), (1, 12));
    assert_eq!(inodes.inode(s).i_addr[0], PhysicalBlock(55));
    assert!(!fs.super_block(0).is_modified());
}

#[test]
fn i_alloc_scan_skips_inodes_in_core_and_next_stops_at_empty() {
    let mut fs = FileSystem::new();
    let mut inodes = InodeTable::new();
    fs.install_loaded_super_block(disk_super_block(), 0);
    assert!(matches!(inodes.i_get(DevId(0), 2), Ok(IGet::Load(_))));
    assert_eq!(fs.i_alloc(DevId(0)), Ok(IallocStep::Scan { isize: 10 }));
    let modes = [0u32, 0o100644, 0, 0, 0o040755];
    assert_eq!(fs.i_alloc_scan(&inodes, DevId(0), Some(&modes)), Ok(()));
    assert!(!fs.super_block(0).is_ilock());
    assert_eq!(fs.i_alloc(DevId(0)), Ok(IallocStep::Take(3)));
    assert_eq!(fs.i_alloc_next(DevId(0)), Ok(0));
    assert_eq!(fs.i_alloc_next(DevId(0)), Err(FileSystemError::NoSpace));
    assert_eq!(fs.i_alloc_next(DevId(1)), Err(FileSystemError::NoSuchFileSystem));
}

#[test]
fn i_alloc_scan_without_a_free_inode_is_no_space() {
    let mut fs = FileSystem::new();
    let inodes = InodeTable::new();
    fs.install_loaded_super_block(disk_super_block(), 0);
    assert_eq!(fs.i_alloc(DevId(0)), Ok(IallocStep::Scan { isize: 10 }));
    let modes = [0o100644u32, 0o040755];
    assert_eq!(fs.i_alloc_scan(&inodes, DevId(0), Some(&modes)), Err(FileSystemError::NoSpace));
    assert!(!fs.super_block(0).is_ilock());
    assert_eq!(fs.i_alloc(DevId(0)), Ok(IallocStep::Scan { isize: 10 }));
    assert_eq!(fs.i_alloc_scan(&inodes, DevId(0), None), Err(FileSystemError::BufferUnavailable));
    assert!(!fs.super_block(0).is_ilock());
}

#[test]
fn free_onto_a_list_of_99_then_allocate_gives_it_back() {
    let mut bytes = vec![0u8; 1024];
    bytes[8] = 99; // s_nfree
    for k in 0..99usize {
        bytes[12 + 4 * k] = (k + 1) as u8;
    }
    let mut fs = FileSystem::new();
    fs.install_loaded_super_block(DiskSuperBlock::from_bytes(&bytes), 0);
    assert!(matches!(fs.free(DevId(0), 700), Ok(FreeStep::Done)));
    assert_eq!(fs.allocate(DevId(0)), Ok(AllocStep::Block(700)));
    assert_eq!(fs.allocate(DevId(0)), Ok(AllocStep::Block(99)));
}

#[test]
fn a_failed_reload_unlocks_the_free_list() {
    let mut bytes = vec![0u8; 1024];
    bytes[8] = 1; // s_nfree
    bytes[12] = 50; // s_free[0] = 50: holds the next group
    let mut fs = FileSystem::new();
    fs.install_loaded_super_block(DiskSuperBlock::from_bytes(&bytes), 0);
    assert_eq!(fs.allocate(DevId(0)), Ok(AllocStep::Refill(50)));
    assert!(fs.super_block(0).is_flock());
    assert_eq!(fs.alloc_refilled(DevId(0), None), Err(FileSystemError::BufferUnavailable));
    assert!(!fs.super_block(0).is_flock());
    assert_eq!(fs.allocate(DevId(0)), Err(FileSystemError::NoSpace));
}
