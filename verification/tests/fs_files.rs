use v6pp_kernel::constants::PosixError;
use v6pp_kernel::fs::file::{FileFlags, OpenFiles};
use v6pp_kernel::fs::file_manager::{FileManager, PipeAction};
use v6pp_kernel::fs::inode::{Inode, InodeFlag, InodeMode};
use v6pp_kernel::fs::open_file_manager::{InodeTable, OpenFileTable};

fn open_file(of: &mut OpenFiles, table: &mut OpenFileTable, flag: u32, inode: usize) -> (usize, usize) {
    let (fd, slot) = table.f_alloc(of).expect("open file");
    table.set_file(slot, flag, Some(inode));
    (fd, slot)
}

fn file_inode(size: u64) -> Inode {
    let mut ino = Inode::new();
    ino.i_count = 1;
    ino.i_nlink = 1;
    ino.i_size = size;
    ino.i_mode = InodeMode::IALLOC | 0o644;
    ino
}

#[test]
fn dup_takes_the_lowest_free_descriptor() {
    let mut of = OpenFiles::new();
    let mut table = OpenFileTable::new();
    let (fd0, slot0) = open_file(&mut of, &mut table, FileFlags::FREAD, 3);
    let (fd1, _) = open_file(&mut of, &mut table, FileFlags::FREAD, 4);
    assert_eq!((fd0, fd1), (0, 1));
    assert_eq!(table.file(slot0).f_count, 1);
    assert_eq!(FileManager::dup(&mut of, &mut table, fd0), Ok(2));
    assert_eq!(of.get_f(2), Ok(slot0));
    assert_eq!(table.file(slot0).f_count, 2);
}

#[test]
fn dup_of_a_closed_descriptor_is_ebadf() {
    let mut of = OpenFiles::new();
    let mut table = OpenFileTable::new();
    assert_eq!(FileManager::dup(&mut of, &mut table, 5), Err(PosixError::EBADF));
    assert_eq!(FileManager::dup(&mut of, &mut table, 99), Err(PosixError::EBADF));
}

#[test]
fn dup_with_every_descriptor_open_is_emfile() {
    let mut of = OpenFiles::new();
    let mut table = OpenFileTable::new();
    for _ in 0..OpenFiles::NOFILES {
        open_file(&mut of, &mut table, FileFlags::FREAD, 1);
    }
    assert_eq!(FileManager::dup(&mut of, &mut table, 0), Err(PosixError::EMFILE));
}

#[test]
fn close_frees_the_descriptor_and_the_last_reference() {
    let mut of = OpenFiles::new();
    let mut table = OpenFileTable::new();
    let mut inodes = InodeTable::new();
    let (fd, slot) = open_file(&mut of, &mut table, FileFlags::FREAD, 7);
    let put = FileManager::close(&mut of, &mut table, &mut inodes, fd).expect("close");
    assert_eq!(put.release_inode, Some(7));
    assert!(!put.wake_pipe);
    assert_eq!(table.file(slot).f_count, 0);
    assert_eq!(of.get_f(fd), Err(PosixError::EBADF));
    assert!(matches!(FileManager::close(&mut of, &mut table, &mut inodes, fd), Err(PosixError::EBADF)));
}

#[test]
fn close_of_a_duplicated_descriptor_keeps_the_inode() {
    let mut of = OpenFiles::new();
    let mut table = OpenFileTable::new();
    let mut inodes = InodeTable::new();
    let (fd, slot) = open_file(&mut of, &mut table, FileFlags::FREAD, 7);
    let nfd = FileManager::dup(&mut of, &mut table, fd).unwrap();
    let put = FileManager::close(&mut of, &mut table, &mut inodes, fd).unwrap();
    assert_eq!(put.release_inode, None);
    assert_eq!(table.file(slot).f_inode, Some(7));
    assert_eq!(of.get_f(nfd), Ok(slot));
}

#[test]
fn seek_sets_offsets_from_each_origin() {
    let mut of = OpenFiles::new();
    let mut table = OpenFileTable::new();
    let mut inodes = InodeTable::new();
    inodes.set_inode(2, file_inode(1000));
    let (fd, slot) = open_file(&mut of, &mut table, FileFlags::FREAD, 2);
    assert_eq!(FileManager::seek(&of, &mut table, &inodes, fd, 100, 0), Ok(()));
    assert_eq!(table.file(slot).f_offset, 100);
    assert_eq!(FileManager::seek(&of, &mut table, &inodes, fd, 20, 1), Ok(()));
    assert_eq!(table.file(slot).f_offset, 120);
    assert_eq!(FileManager::seek(&of, &mut table, &inodes, fd, (-10i32) as u32 as usize, 2), Ok(()));
    assert_eq!(table.file(slot).f_offset, 990);
    assert_eq!(FileManager::seek(&of, &mut table, &inodes, fd, 2, 3), Ok(()));
    assert_eq!(table.file(slot).f_offset, 1024);
    assert_eq!(FileManager::seek(&of, &mut table, &inodes, fd, 1, 4), Ok(()));
    assert_eq!(table.file(slot).f_offset, 1536);
    assert_eq!(FileManager::seek(&of, &mut table, &inodes, fd, 5, 9), Ok(()));
    assert_eq!(table.file(slot).f_offset, 1536);
}

#[test]
fn seek_on_a_pipe_is_espipe() {
    let mut of = OpenFiles::new();
    let mut table = OpenFileTable::new();
    let inodes = InodeTable::new();
    let (fd, _) = open_file(&mut of, &mut table, FileFlags::FREAD | FileFlags::FPIPE, 2);
    assert_eq!(FileManager::seek(&of, &mut table, &inodes, fd, 0, 0), Err(PosixError::ESPIPE));
    assert_eq!(FileManager::seek(&of, &mut table, &inodes, 9, 0, 0), Err(PosixError::EBADF));
}

#[test]
fn rdwr_checks_the_open_mode_and_moves_the_offset() {
    let mut of = OpenFiles::new();
    let mut table = OpenFileTable::new();
    let (fd, slot) = open_file(&mut of, &mut table, FileFlags::FREAD, 2);
    table.set_offset(slot, 40);
    assert!(matches!(FileManager::rdwr(&of, &table, fd, FileFlags::FWRITE, 0x1000, 10), Err(PosixError::EACCES)));
    assert!(matches!(FileManager::rdwr(&of, &table, 3, FileFlags::FREAD, 0x1000, 10), Err(PosixError::EBADF)));
    let plan = FileManager::rdwr(&of, &table, fd, FileFlags::FREAD, 0x1000, 10).unwrap();
    assert_eq!(plan.slot, slot);
    assert_eq!(plan.inode, 2);
    assert!(!plan.pipe);
    assert_eq!((plan.ioparam.m_base, plan.ioparam.m_count, plan.ioparam.m_offset), (0x1000, 10, 40));
    assert_eq!(FileManager::rdwr_complete(&mut table, plan, 10, 3), 7);
    assert_eq!(table.file(slot).f_offset, 47);
}

#[test]
fn pipe_opens_a_read_end_and_a_write_end() {
    let mut of = OpenFiles::new();
    let mut table = OpenFileTable::new();
    let mut ino = Inode::new();
    let (fr, fw) = FileManager::pipe(&mut ino, &mut table, &mut of, 5).unwrap();
    assert_eq!((fr, fw), (0, 1));
    let sr = of.get_f(fr).unwrap();
    let sw = of.get_f(fw).unwrap();
    assert_ne!(sr, sw);
    assert_eq!(table.file(sr).f_flag, FileFlags::FREAD | FileFlags::FPIPE);
    assert_eq!(table.file(sw).f_flag, FileFlags::FWRITE | FileFlags::FPIPE);
    assert_eq!(table.file(sr).f_inode, Some(5));
    assert_eq!(ino.i_mode, InodeMode::IALLOC);
    assert_eq!(ino.i_flag, InodeFlag::IACC | InodeFlag::IUPD);
}

#[test]
fn pipe_write_then_read_steps() {
    let mut table = OpenFileTable::new();
    let mut of = OpenFiles::new();
    let mut inodes = InodeTable::new();
    let mut pipe_inode = Inode::new();
    pipe_inode.i_count = 2;
    pipe_inode.i_flag = InodeFlag::ILOCK;
    inodes.set_inode(4, pipe_inode);
    let (_, sr) = open_file(&mut of, &mut table, FileFlags::FREAD | FileFlags::FPIPE, 4);

    // an empty pipe with a writer: the reader sleeps and is marked waiting
    let step = FileManager::readp(&mut table, &mut inodes, sr, 10);
    assert_eq!(step.action, PipeAction::Sleep);
    assert!(inodes.inode(4).i_mode & InodeMode::IREAD != 0);

    // the writer locks the pipe and writes 5 bytes at its end
    let mut ino = inodes.inode(4);
    ino.i_flag |= InodeFlag::ILOCK;
    inodes.set_inode(4, ino);
    let step = FileManager::writep(&mut inodes, 4, 5);
    assert_eq!(step.action, PipeAction::Transfer { offset: 0, count: 5 });
    let mut ino = inodes.inode(4);
    ino.i_size = 5;
    inodes.set_inode(4, ino);
    let done = FileManager::writep_complete(&mut inodes, 4);
    assert!(done.wake_readers);
    assert_eq!(inodes.inode(4).i_mode & InodeMode::IREAD, 0);
    assert_eq!(inodes.inode(4).i_flag & InodeFlag::ILOCK, 0);

    // now the reader reads from its offset 0
    let step = FileManager::readp(&mut table, &mut inodes, sr, 10);
    assert_eq!(step.action, PipeAction::Transfer { offset: 0, count: 10 });
    FileManager::readp_complete(&mut table, &mut inodes, sr, 5);
    assert_eq!(table.file(sr).f_offset, 5);

    // caught up: the pipe is emptied and, without a writer left, the read is done
    let mut ino = inodes.inode(4);
    ino.i_count = 1;
    inodes.set_inode(4, ino);
    let step = FileManager::readp(&mut table, &mut inodes, sr, 10);
    assert_eq!(step.action, PipeAction::Done);
    assert_eq!(table.file(sr).f_offset, 0);
    assert_eq!(inodes.inode(4).i_size, 0);
}

#[test]
fn pipe_write_without_reader_is_broken_and_full_pipe_sleeps() {
    let mut inodes = InodeTable::new();
    let mut ino = Inode::new();
    ino.i_count = 1;
    inodes.set_inode(0, ino);
    assert_eq!(FileManager::writep(&mut inodes, 0, 3).action, PipeAction::Broken);
    let mut ino = Inode::new();
    ino.i_count = 2;
    ino.i_size = Inode::PIPSIZ as u64;
    inodes.set_inode(1, ino);
    assert_eq!(FileManager::writep(&mut inodes, 1, 3).action, PipeAction::Sleep);
    assert!(inodes.inode(1).i_mode & InodeMode::IWRITE != 0);
    assert_eq!(FileManager::writep(&mut inodes, 1, 0).action, PipeAction::Done);
    let mut ino = Inode::new();
    ino.i_count = 2;
    ino.i_size = (Inode::PIPSIZ - 2) as u64;
    inodes.set_inode(2, ino);
    assert_eq!(FileManager::writep(&mut inodes, 2, 100).action, PipeAction::Transfer { offset: Inode::PIPSIZ - 2, count: 2 });
}

#[test]
fn open1_checks_access_unless_the_file_is_new() {
    let mut of = OpenFiles::new();
    let mut table = OpenFileTable::new();
    let mut ino = file_inode(10);
    ino.i_uid = 5;
    ino.i_gid = 5;
    ino.i_mode = InodeMode::IALLOC | 0o600;
    ino.i_flag = InodeFlag::ILOCK;
    let r = FileManager::open1(&mut ino, &mut table, &mut of, 3, FileFlags::FREAD as i32, 0, 6, 6, Some(false));
    assert_eq!(r.result, Err(PosixError::EACCES));
    let r = FileManager::open1(&mut ino, &mut table, &mut of, 3, FileFlags::FREAD as i32, 0, 5, 5, Some(false));
    let (fd, slot) = r.result.unwrap();
    assert_eq!(fd, 0);
    assert_eq!(table.file(slot).f_flag, FileFlags::FREAD);
    assert_eq!(table.file(slot).f_inode, Some(3));
    assert_eq!(ino.i_flag & InodeFlag::ILOCK, 0);
}

#[test]
fn open1_for_writing_a_directory_is_eisdir_and_readonly_fs_is_erofs() {
    let mut of = OpenFiles::new();
    let mut table = OpenFileTable::new();
    let mut dir = file_inode(64);
    dir.i_mode = InodeMode::IALLOC | InodeMode::IFDIR | 0o777;
    let r = FileManager::open1(&mut dir, &mut table, &mut of, 1, FileFlags::FWRITE as i32, 0, 0, 0, Some(false));
    assert_eq!(r.result, Err(PosixError::EISDIR));
    let mut f = file_inode(64);
    let r = FileManager::open1(&mut f, &mut table, &mut of, 1, FileFlags::FWRITE as i32, 0, 0, 0, Some(true));
    assert_eq!(r.result, Err(PosixError::EROFS));
    let r = FileManager::open1(&mut f, &mut table, &mut of, 1, FileFlags::FWRITE as i32, 0, 0, 0, None);
    assert_eq!(r.result, Err(PosixError::EIO));
}

#[test]
fn creat_truncates_an_existing_file() {
    let mut of = OpenFiles::new();
    let mut table = OpenFileTable::new();
    let mut ino = file_inode(700);
    ino.i_addr[0] = v6pp_kernel::dev::buffer::PhysicalBlock(40);
    ino.i_addr[1] = v6pp_kernel::dev::buffer::PhysicalBlock(41);
    ino.i_flag = InodeFlag::ILOCK;
    let r = FileManager::creat(&mut ino, &mut table, &mut of, 8, 0o600, true, 0, 0, Some(false));
    let (fd, slot) = r.result.unwrap();
    assert_eq!(fd, 0);
    assert_eq!(table.file(slot).f_flag, FileFlags::FWRITE);
    assert_eq!(ino.i_size, 0);
    assert_eq!(r.freed.len(), 2);
    assert_eq!(r.freed[0].0, 41);
    assert_eq!(r.freed[1].0, 40);
    assert_eq!(FileManager::creat_mode(0o1777), 0o777);
}

#[test]
fn chmod_and_chown_need_owner_or_root() {
    let mut ino = file_inode(0);
    ino.i_uid = 3;
    ino.i_mode = InodeMode::IALLOC | InodeMode::IFDIR | 0o755;
    assert!(!FileManager::chmod(&mut ino, 4, 0o700));
    assert_eq!(ino.i_mode & 0o777, 0o755);
    assert!(FileManager::chmod(&mut ino, 3, 0o4700));
    assert_eq!(ino.i_mode, InodeMode::IALLOC | InodeMode::IFDIR | 0o4700);
    assert!(ino.i_flag & InodeFlag::IUPD != 0);
    assert!(!FileManager::chown(&mut ino, 3, 9, 9));
    assert!(FileManager::chown(&mut ino, 0, 9, 8));
    assert_eq!((ino.i_uid, ino.i_gid), (9, 8));
}

#[test]
fn stat_locates_the_disk_inode() {
    assert_eq!(FileManager::stat_location(0), (202, 0));
    assert_eq!(FileManager::stat_location(9), (203, 64));
    let mut inodes = InodeTable::new();
    let mut ino = file_inode(10);
    ino.i_number = 17;
    ino.i_flag = InodeFlag::IUPD;
    inodes.set_inode(0, ino);
    let p = FileManager::stat(&inodes, 0, 1234);
    assert_eq!((p.sector, p.offset), (204, 64));
    let d = p.update.unwrap();
    assert_eq!(d.d_mtime, 1234);
    assert_eq!(d.d_size, 10);
}

#[test]
fn pipe_without_a_free_descriptor_is_emfile_and_changes_nothing() {
    let mut of = OpenFiles::new();
    let mut table = OpenFileTable::new();
    for _ in 0..OpenFiles::NOFILES {
        table.f_alloc(&mut of).unwrap();
    }
    let mut ino = Inode::new();
    let before = ino;
    assert_eq!(FileManager::pipe(&mut ino, &mut table, &mut of, 5), Err(PosixError::EMFILE));
    assert_eq!(table.file(OpenFiles::NOFILES).f_count, 0);
    assert_eq!(ino.i_mode, before.i_mode);
    assert_eq!(ino.i_flag, before.i_flag);
}

#[test]
fn pipe_with_one_free_descriptor_closes_the_read_end_again() {
    let mut of = OpenFiles::new();
    let mut table = OpenFileTable::new();
    for _ in 0..OpenFiles::NOFILES - 1 {
        table.f_alloc(&mut of).unwrap();
    }
    let mut ino = Inode::new();
    assert_eq!(FileManager::pipe(&mut ino, &mut table, &mut of, 5), Err(PosixError::EMFILE));
    assert_eq!(of.get_f(OpenFiles::NOFILES - 1), Err(PosixError::EBADF));
    // The read end's table entry keeps the reference it took.
    assert_eq!(table.file(OpenFiles::NOFILES - 1).f_count, 1);
    assert_eq!(table.file(OpenFiles::NOFILES).f_count, 0);
}

#[test]
fn pipe_with_a_full_file_table_is_enfile() {
    let mut table = OpenFileTable::new();
    let mut used = 0;
    while used < OpenFileTable::NFILE {
        let mut of = OpenFiles::new();
        for _ in 0..OpenFiles::NOFILES {
            if used < OpenFileTable::NFILE {
                table.f_alloc(&mut of).unwrap();
                used += 1;
            }
        }
    }
    let mut of = OpenFiles::new();
    let mut ino = Inode::new();
    assert_eq!(FileManager::pipe(&mut ino, &mut table, &mut of, 5), Err(PosixError::ENFILE));
    assert_eq!(of.get_f(0), Err(PosixError::EBADF));
}
