use v6pp_kernel::dev::buffer::PhysicalBlock;
use v6pp_kernel::fs::file::{FileFlags, OpenFiles};
use v6pp_kernel::fs::inode::{DevId, InodeFlag, InodeMode};
use v6pp_kernel::fs::open_file_manager::{IGet, InodeTable, OpenFileTable};

#[test]
fn inode_lookup_loads_locks_and_finds() {
    let mut t = InodeTable::new();
    assert_eq!(t.get(DevId(0), 12), None);
    let i = match t.i_get(DevId(0), 12).unwrap() {
        IGet::Load(i) => i,
        other => panic!("{:?}", other),
    };
    assert_eq!(i, 0);
    assert_eq!(t.inode(i).i_count, 1);
    assert!(matches!(t.i_get(DevId(0), 12), Ok(IGet::Locked(0))));
    assert!(t.inode(0).i_flag & InodeFlag::IWANT != 0);
    let put = t.i_put_slot(0, 1);
    assert!(put.wake);
    assert_eq!(t.inode(0).i_count, 0);
    assert_eq!(t.alloc_free(DevId(1), 3), Some(0));
    assert!(matches!(t.i_get(DevId(0), 12), Ok(IGet::Load(1))));
}

#[test]
fn last_put_of_an_unlinked_file_frees_it() {
    let mut t = InodeTable::new();
    let i = t.alloc_free(DevId(0), 30).unwrap();
    let mut ino = t.inode(i);
    ino.i_mode = InodeMode::IALLOC | 0o644;
    ino.i_nlink = 0;
    ino.i_size = 600;
    ino.i_addr[0] = PhysicalBlock(50);
    ino.i_addr[1] = PhysicalBlock(51);
    t.set_inode(i, ino);
    let put = t.i_put_slot(i, 99);
    assert_eq!(put.freed, Some((DevId(0), 30)));
    assert_eq!(put.blocks, vec![PhysicalBlock(51), PhysicalBlock(50)]);
    let (d, n, di) = put.update.unwrap();
    assert_eq!((d, n, di.d_mode, di.d_size, di.d_nlink, di.d_mtime), (DevId(0), 30, 0, 0, 1, 99));
    assert_eq!(t.inode(i).i_number, -1);
}

#[test]
fn put_with_references_left_only_unlocks() {
    let mut t = InodeTable::new();
    let i = t.alloc_free(DevId(0), 8).unwrap();
    t.i_dup(i);
    let put = t.i_put_slot(i, 5);
    assert!(put.freed.is_none() && put.update.is_none() && put.blocks.is_empty());
    assert_eq!(t.inode(i).i_count, 1);
    assert_eq!(t.inode(i).i_flag & InodeFlag::ILOCK, 0);
}

#[test]
fn sync_writes_back_changed_unlocked_inodes() {
    let mut t = InodeTable::new();
    let a = t.alloc_free(DevId(0), 1).unwrap();
    let b = t.alloc_free(DevId(0), 2).unwrap();
    let c = t.alloc_free(DevId(0), 3).unwrap();
    let mut ia = t.inode(a);
    ia.i_flag = InodeFlag::IUPD;
    ia.i_size = 10;
    t.set_inode(a, ia);
    let mut ib = t.inode(b);
    ib.i_flag = InodeFlag::IWANT;
    t.set_inode(b, ib);
    // slot c stays locked
    let (updates, wakes) = t.update_inode_table(7);
    assert_eq!(updates.len(), 1);
    assert_eq!((updates[0].0, updates[0].1, updates[0].2.d_size, updates[0].2.d_mtime, updates[0].2.d_atime), (DevId(0), 1, 10, 7, 0));
    assert_eq!(wakes, vec![b]);
    assert_eq!(t.inode(b).i_flag, 0);
    assert!(t.inode(c).i_flag & InodeFlag::ILOCK != 0);
}

#[test]
fn open_file_entries_count_references() {
    let mut of = OpenFiles::new();
    let mut files = OpenFileTable::new();
    let mut inodes = InodeTable::new();
    let (_, slot) = files.f_alloc(&mut of).unwrap();
    files.set_file(slot, FileFlags::FREAD, Some(4));
    files.f_dup(slot);
    assert_eq!(files.file(slot).f_count, 2);
    let put = files.f_put_slot(slot, &mut inodes);
    assert_eq!(put.release_inode, None);
    let put = files.f_put_slot(slot, &mut inodes);
    assert_eq!(put.release_inode, Some(4));
    assert!(!put.wake_pipe);
    assert_eq!(files.file(slot).f_inode, None);
}
