use v6pp_kernel::constants::PosixError;
use v6pp_kernel::fs::file_manager::{access_inode, DirSearchMode, DirectoryEntry, FileManager, SearchOutcome};
use v6pp_kernel::fs::inode::{DevId, Inode, InodeFlag, InodeMode};

fn entry(ino: i32, name: &[u8]) -> DirectoryEntry {
    let mut e = DirectoryEntry::new();
    e.m_ino = ino;
    e.m_name[..name.len()].copy_from_slice(name);
    e
}

#[test]
fn directory_entry_name_stops_at_nul() {
    let e = entry(5, b"bin");
    assert_eq!(e.name(), b"bin".to_vec());
    assert!(e.name_is(b"bin"));
    assert!(!e.name_is(b"bi"));
    assert!(!e.name_is(b"bins"));
}

#[test]
fn search_finds_the_first_live_entry() {
    let entries = [entry(1, b"."), entry(0, b"old"), entry(7, b"etc"), entry(9, b"etc")];
    let r = FileManager::search(&entries, 4, b"etc", false, false, false);
    assert_eq!(r.scan.found, Some(2));
    assert_eq!(r.scan.free, Some(1));
    assert_eq!(r.outcome, Ok(SearchOutcome::Found { index: 2, ino: 7 }));
    assert_eq!((r.offset, r.count), (64, 2));
}

#[test]
fn search_for_a_missing_name() {
    let entries = [entry(1, b"."), entry(0, b"old"), entry(7, b"etc")];
    let r = FileManager::search(&entries, 3, b"usr", false, false, true);
    assert_eq!(r.outcome, Err(PosixError::ENOENT));
    let r = FileManager::search(&entries, 3, b"usr", true, false, false);
    assert_eq!(r.outcome, Err(PosixError::EACCES));
    let r = FileManager::search(&entries, 3, b"usr", true, false, true);
    assert_eq!(r.outcome, Ok(SearchOutcome::Create { index: 1, append: false }));
    assert_eq!(r.offset, 32);
    let full = [entry(1, b"."), entry(2, b"..")];
    let r = FileManager::search(&full, 2, b"usr", true, false, true);
    assert_eq!(r.outcome, Ok(SearchOutcome::Create { index: 2, append: true }));
    assert_eq!(r.offset, 64);
}

#[test]
fn search_for_removal_needs_write_access() {
    let entries = [entry(1, b"."), entry(7, b"tmp")];
    let r = FileManager::search(&entries, 2, b"tmp", false, true, false);
    assert_eq!(r.outcome, Err(PosixError::EACCES));
    let r = FileManager::search(&entries, 2, b"tmp", false, true, true);
    assert_eq!(r.outcome, Ok(SearchOutcome::Remove { index: 1 }));
}

#[test]
fn path_components_are_split_at_slashes() {
    let path = b"//usr//bin/ls";
    assert_eq!(FileManager::path_start(path), (true, 2));
    assert_eq!(FileManager::next_component(path, 2), Ok((5, 7)));
    assert_eq!(FileManager::next_component(path, 7), Ok((10, 11)));
    assert_eq!(FileManager::next_component(path, 11), Ok((13, 13)));
    assert_eq!(FileManager::path_start(b"a/b"), (false, 0));
    let long = [b'x'; 28];
    assert_eq!(FileManager::next_component(&long, 0), Err(PosixError::EINVAL));
    let ok = [b'x'; 27];
    assert_eq!(FileManager::next_component(&ok, 0), Ok((27, 27)));
}

#[test]
fn find_step_checks_the_directory() {
    let mut dir = Inode::new();
    dir.i_mode = InodeMode::IALLOC | InodeMode::IFDIR | 0o755;
    dir.i_uid = 1;
    assert_eq!(FileManager::find_step(&dir, b"a/b", 0, DirSearchMode::Create, 2, 2), Ok((1, 2, false, false)));
    assert_eq!(FileManager::find_step(&dir, b"a/b", 2, DirSearchMode::Create, 2, 2), Ok((3, 3, true, false)));
    assert_eq!(FileManager::find_step(&dir, b"b", 0, DirSearchMode::Delete, 2, 2), Ok((1, 1, false, true)));
    let mut file = dir;
    file.i_mode = InodeMode::IALLOC | 0o755;
    assert_eq!(FileManager::find_step(&file, b"b", 0, DirSearchMode::Open, 2, 2), Err(PosixError::ENOTDIR));
    let mut closed = dir;
    closed.i_mode = InodeMode::IALLOC | InodeMode::IFDIR | 0o700;
    assert_eq!(FileManager::find_step(&closed, b"b", 0, DirSearchMode::Open, 2, 2), Err(PosixError::EACCES));
    let mut long = vec![b'y'; 28];
    long.extend_from_slice(b"/z");
    assert_eq!(FileManager::find_step(&dir, &long, 0, DirSearchMode::Open, 2, 2), Err(PosixError::EINVAL));
    assert_eq!(FileManager::find_step(&dir, &long[1..], 0, DirSearchMode::Open, 2, 2), Ok((27, 28, false, false)));
    assert_eq!(FileManager::mode(1), DirSearchMode::Create);
    assert_eq!(FileManager::mode(2), DirSearchMode::Delete);
    assert_eq!(FileManager::mode(7), DirSearchMode::Open);
}

#[test]
fn access_uses_owner_group_and_other_bits() {
    let mut ino = Inode::new();
    ino.i_uid = 10;
    ino.i_gid = 20;
    ino.i_mode = 0o640;
    assert_eq!(access_inode(&ino, InodeMode::IREAD, 10, 0, Some(false)), Ok(()));
    assert_eq!(access_inode(&ino, InodeMode::IWRITE, 10, 0, Some(false)), Ok(()));
    assert_eq!(access_inode(&ino, InodeMode::IREAD, 11, 20, Some(false)), Ok(()));
    assert_eq!(access_inode(&ino, InodeMode::IWRITE, 11, 20, Some(false)), Err(PosixError::EACCES));
    assert_eq!(access_inode(&ino, InodeMode::IREAD, 11, 21, Some(false)), Err(PosixError::EACCES));
    assert_eq!(access_inode(&ino, InodeMode::IEXEC, 0, 0, Some(false)), Err(PosixError::EACCES));
    assert_eq!(access_inode(&ino, InodeMode::IREAD, 0, 0, Some(false)), Ok(()));
    assert_eq!(access_inode(&ino, InodeMode::IWRITE, 0, 0, Some(true)), Err(PosixError::EROFS));
    assert_eq!(access_inode(&ino, InodeMode::IWRITE, 0, 0, None), Err(PosixError::EIO));
    assert!(FileManager::access(&ino, InodeMode::IWRITE, 11, 20, Some(false)));
}

#[test]
fn setcurdir_appends_or_replaces() {
    let mut cur = [0u8; 16];
    cur[..4].copy_from_slice(b"/usr");
    FileManager::setcurdir(&mut cur, b"bin");
    assert_eq!(&cur[..9], b"/usr/bin\0");
    FileManager::setcurdir(&mut cur, b"/etc");
    assert_eq!(&cur[..5], b"/etc\0");
    assert!(cur[5..].iter().all(|&b| b == 0));
    let mut small = [0u8; 6];
    small[..2].copy_from_slice(b"/a");
    FileManager::setcurdir(&mut small, b"bcdef");
    assert_eq!(&small, b"/a/bc\0");
}

#[test]
fn link_and_unlink_decisions() {
    let mut ino = Inode::new();
    ino.i_nlink = 255;
    assert_eq!(FileManager::link(&mut ino, 0), Err(PosixError::EMLINK));
    let mut dir = Inode::new();
    dir.i_nlink = 2;
    dir.i_mode = InodeMode::IFDIR;
    assert_eq!(FileManager::link(&mut dir, 3), Ok(false));
    let mut f = Inode::new();
    f.i_nlink = 1;
    f.i_flag = InodeFlag::ILOCK | InodeFlag::IWANT;
    f.i_dev = DevId(0);
    f.i_number = 12;
    assert_eq!(FileManager::link(&mut f, 3), Ok(true));
    assert_eq!(f.i_flag, InodeFlag::IWANT);
    let name = [b'n'; 28];
    assert!(matches!(FileManager::link_finish(&mut f, true, DevId(0), &name), Err(PosixError::EEXIST)));
    assert!(matches!(FileManager::link_finish(&mut f, false, DevId(1), &name), Err(PosixError::EXDEV)));
    let e = FileManager::link_finish(&mut f, false, DevId(0), &name).unwrap();
    assert_eq!(e.m_ino, 12);
    assert_eq!(f.i_nlink, 2);
    let (io, cleared) = FileManager::unlink(&mut f, 3, &e, 3).unwrap();
    assert_eq!((io.m_offset, io.m_count), (96, 32));
    assert_eq!(cleared.m_ino, 0);
    assert_eq!(cleared.m_name, name);
    assert_eq!(f.i_nlink, 1);
    assert!(FileManager::unlink(&mut dir, 3, &e, 2).is_none());
}

#[test]
fn mknod_is_for_root_and_records_the_device() {
    assert_eq!(FileManager::mknod_check(3, false), Err(PosixError::EPERM));
    assert_eq!(FileManager::mknod_check(0, true), Err(PosixError::EEXIST));
    assert_eq!(FileManager::mknod_check(0, false), Ok(()));
    let mut ino = Inode::new();
    FileManager::mknod(&mut ino, (InodeMode::IFCHR | 0o666) as usize, 0x0100, 0, 0);
    assert_eq!(ino.i_mode, InodeMode::IFCHR | 0o666 | InodeMode::IALLOC);
    assert_eq!(ino.i_addr[0].0, 0x0100);
    assert_eq!(ino.i_nlink, 1);
    let mut plain = Inode::new();
    FileManager::mknod(&mut plain, 0o644, 0x0100, 0, 0);
    assert_eq!(plain.i_addr[0].0, 0);
}

#[test]
fn chdir_needs_a_searchable_directory() {
    let mut f = Inode::new();
    f.i_mode = InodeMode::IALLOC | 0o755;
    let mut cwd = Some(1usize);
    assert_eq!(FileManager::chdir(&mut f, 7, &mut cwd, 1, 1), Err(PosixError::ENOTDIR));
    assert_eq!(cwd, Some(1));
    let mut d = Inode::new();
    d.i_mode = InodeMode::IALLOC | InodeMode::IFDIR | 0o700;
    d.i_uid = 2;
    assert_eq!(FileManager::chdir(&mut d, 7, &mut cwd, 1, 1), Err(PosixError::EACCES));
    assert_eq!(cwd, Some(1));
    d.i_flag = InodeFlag::ILOCK;
    assert_eq!(FileManager::chdir(&mut d, 7, &mut cwd, 2, 1), Ok((false, Some(1))));
    assert_eq!(d.i_flag, 0);
    assert_eq!(cwd, Some(7));
}

#[test]
fn find_begin_starts_at_the_root_or_the_current_directory() {
    let w = FileManager::find_begin(b"/", 1, 9);
    assert_eq!((w.dir, w.pos), (1, 1));
    let w = FileManager::find_begin(b"//etc/passwd", 1, 9);
    assert_eq!((w.dir, w.pos), (1, 2));
    let w = FileManager::find_begin(b"bin/ls", 1, 9);
    assert_eq!((w.dir, w.pos), (9, 0));
}
