use v6pp_kernel::dev::buffer::{LogicalBlock, PhysicalBlock};
use v6pp_kernel::fs::inode::{DevId, IndexCache, Inode, InodeFlag, InodeMode};

fn file(size: u64) -> Inode {
    let mut ino = Inode::new();
    ino.i_mode = InodeMode::IALLOC | 0o644;
    ino.i_dev = DevId(0);
    ino.i_size = size;
    ino.i_addr[0] = PhysicalBlock(40);
    ino.i_addr[1] = PhysicalBlock(41);
    ino
}

#[test]
fn read_steps_through_the_blocks_of_a_file() {
    let mut ino = file(700);
    let mut cache = IndexCache::new();
    let mut fresh = Vec::new();
    let c = ino.read_i(600, 100, &mut cache, &mut fresh).unwrap().unwrap();
    assert_eq!((c.dev, c.blkno, c.offset, c.nbytes), (DevId(0), PhysicalBlock(40), 100, 412));
    assert!(ino.i_flag & InodeFlag::IACC != 0);
    assert_eq!(ino.i_lastr, 0);
    let c = ino.read_i(188, 512, &mut cache, &mut fresh).unwrap().unwrap();
    assert_eq!((c.blkno, c.offset, c.nbytes), (PhysicalBlock(41), 0, 188));
    assert!(c.read_ahead);
    assert!(ino.read_i(10, 700, &mut cache, &mut fresh).unwrap().is_none());
    assert!(ino.read_i(0, 0, &mut cache, &mut fresh).unwrap().is_none());
}

#[test]
fn character_devices_are_read_and_written_by_their_drivers() {
    let mut ino = file(0);
    ino.i_mode = InodeMode::IALLOC | InodeMode::IFCHR;
    let mut cache = IndexCache::new();
    let mut fresh = Vec::new();
    assert!(ino.read_i(10, 0, &mut cache, &mut fresh).unwrap().is_none());
    assert!(ino.write_i(10, 0, &mut cache, &mut fresh).unwrap().is_none());
    assert!(ino.i_flag & InodeFlag::IUPD != 0);
}

#[test]
fn block_devices_map_offsets_to_blocks_directly() {
    let mut ino = file(0);
    ino.i_mode = InodeMode::IALLOC | InodeMode::IFBLK;
    ino.i_addr[0] = PhysicalBlock(0x0001);
    let mut cache = IndexCache::new();
    let mut fresh = Vec::new();
    let c = ino.read_i(512, 1024, &mut cache, &mut fresh).unwrap().unwrap();
    assert_eq!((c.dev, c.blkno, c.rablock, c.nbytes), (DevId(1), PhysicalBlock(2), PhysicalBlock(3), 512));
}

#[test]
fn writing_past_the_end_grows_the_file() {
    let mut ino = file(100);
    let mut cache = IndexCache::new();
    let mut fresh = vec![90u32];
    let c = ino.write_i(600, 900, &mut cache, &mut fresh).unwrap().unwrap();
    assert_eq!((c.blkno, c.offset, c.nbytes), (PhysicalBlock(41), 388, 124));
    assert_eq!(ino.i_size, 1024);
    let c = ino.write_i(50, 1024, &mut cache, &mut fresh).unwrap().unwrap();
    assert_eq!(c.blkno, PhysicalBlock(90));
    assert_eq!(ino.i_addr[2], PhysicalBlock(90));
    assert_eq!(ino.i_size, 1074);
}

#[test]
fn index_blocks_must_be_loaded_before_mapping() {
    let mut ino = file(0);
    ino.i_addr[6] = PhysicalBlock(70);
    let mut cache = IndexCache::new();
    assert_eq!(ino.next_index_block_needed(LogicalBlock(3), &cache), None);
    assert_eq!(ino.next_index_block_needed(LogicalBlock(10), &cache), Some(70));
    cache.load(70, vec![0i32; 128]);
    assert_eq!(ino.next_index_block_needed(LogicalBlock(10), &cache), None);
}

#[test]
fn inode_locks_record_waiters() {
    let mut ino = file(0);
    assert!(ino.nf_lock());
    assert!(!ino.plock());
    assert!(ino.i_flag & InodeFlag::IWANT != 0);
    assert!(ino.nf_rele());
    assert_eq!(ino.i_flag & (InodeFlag::ILOCK | InodeFlag::IWANT), 0);
    assert!(ino.plock());
    assert!(!ino.prele());
}

#[test]
fn open_close_and_clean() {
    let mut ino = file(10);
    assert!(ino.open_i(1).is_ok());
    ino.i_count = 1;
    assert!(!ino.close_i(1));
    ino.i_mode = InodeMode::IALLOC | InodeMode::IFCHR;
    assert!(ino.close_i(1));
    ino.i_count = 2;
    assert!(!ino.close_i(1));
    ino.clean();
    assert_eq!((ino.i_mode, ino.i_nlink, ino.i_uid, ino.i_size, ino.i_lastr), (0, 0, -1, 0, -1));
    assert!(ino.i_addr.iter().all(|b| b.0 == 0));
}

#[test]
fn a_read_over_two_blocks_remembers_the_last_block_read() {
    let mut ino = file(700);
    let mut cache = IndexCache::new();
    let mut fresh = Vec::new();
    let (mut offset, mut count) = (100usize, 1000usize);
    let mut got = 0usize;
    while count > 0 {
        match ino.read_i(count, offset, &mut cache, &mut fresh).unwrap() {
            Some(c) => {
                got += c.nbytes;
                offset += c.nbytes;
                count -= c.nbytes;
            }
            None => break,
        }
    }
    assert_eq!(got, 600);
    assert_eq!(ino.i_lastr, 1);
    assert_eq!(ino.i_size, 700);
}

#[test]
fn a_write_over_two_blocks_grows_the_file_to_its_end() {
    let mut ino = file(10);
    let mut cache = IndexCache::new();
    let mut fresh = Vec::new();
    let (mut offset, mut count) = (300usize, 600usize);
    while count > 0 {
        let c = ino.write_i(count, offset, &mut cache, &mut fresh).unwrap().unwrap();
        offset += c.nbytes;
        count -= c.nbytes;
    }
    assert_eq!(ino.i_size, 900);
    assert!(ino.i_flag & InodeFlag::IUPD != 0);
}
