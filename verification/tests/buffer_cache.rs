use v6pp_kernel::dev::block_device::{block_device_for_dev, out_of_range, BlockDev, Devtab};
use v6pp_kernel::dev::buffer::{BufFlag, DevId, PhysicalBlock};
use v6pp_kernel::dev::buffer_manager::{BufferError, BufferManager, GetBlk};

#[test]
fn get_blk_assigns_the_first_free_buffer_and_finds_it_again() {
    let mut bm = BufferManager::new();
    assert_eq!(bm.free_list.len(), BufferManager::NBUF);
    let r = bm.get_blk(DevId(0), PhysicalBlock(100)).unwrap();
    assert_eq!(r, GetBlk::Assigned(0));
    assert_eq!(bm.bufs[0].b_flags, BufFlag::B_BUSY);
    assert_eq!(bm.bufs[0].b_blkno, PhysicalBlock(100));
    assert_eq!(bm.in_core(DevId(0), PhysicalBlock(100)), Some(0));
    // busy: the caller must wait
    assert_eq!(bm.get_blk(DevId(0), PhysicalBlock(100)).unwrap(), GetBlk::WaitBuffer(0));
    assert!(bm.bufs[0].b_flags & BufFlag::B_WANTED != 0);
    // released: found again, woken waiters reported
    assert_eq!(bm.brelse(0), (true, false));
    assert_eq!(*bm.free_list.last().unwrap(), 0);
    assert_eq!(bm.get_blk(DevId(0), PhysicalBlock(100)).unwrap(), GetBlk::Found(0));
    assert!(!bm.bufs[0].free_linked);
}

#[test]
fn get_blk_of_an_unknown_device_is_refused() {
    let mut bm = BufferManager::new();
    assert_eq!(bm.get_blk(DevId(0x0100), PhysicalBlock(1)), Err(BufferError::InvalidDevice));
    assert!(bm.get_blk(DevId(-1), PhysicalBlock(1)).is_ok());
}

#[test]
fn get_blk_waits_when_no_buffer_is_free() {
    let mut bm = BufferManager::new();
    for b in 0..BufferManager::NBUF {
        assert!(matches!(bm.get_blk(DevId(0), PhysicalBlock(b as u32 + 1)).unwrap(), GetBlk::Assigned(_)));
    }
    assert_eq!(bm.get_blk(DevId(0), PhysicalBlock(99)).unwrap(), GetBlk::WaitFree);
    assert!(bm.free_wanted);
    assert_eq!(bm.brelse(3), (false, true));
    assert!(!bm.free_wanted);
}

#[test]
fn delayed_writes_are_flushed_before_reuse() {
    let mut bm = BufferManager::new();
    let GetBlk::Assigned(i) = bm.get_blk(DevId(0), PhysicalBlock(7)).unwrap() else { panic!() };
    bm.bdwrite(i);
    assert!(bm.bufs[i].b_flags & BufFlag::B_DELWRI != 0);
    // buffer i is now last on the free list; use up the others first
    for b in 0..BufferManager::NBUF - 1 {
        let r = bm.get_blk(DevId(0), PhysicalBlock(100 + b as u32)).unwrap();
        assert!(matches!(r, GetBlk::Assigned(_)));
    }
    assert_eq!(bm.get_blk(DevId(0), PhysicalBlock(500)).unwrap(), GetBlk::Flush(i));
    assert!(bm.bufs[i].b_flags & BufFlag::B_ASYNC != 0);
    assert_eq!(bm.bwrite_ref(i), Ok((true, true)));
    assert_eq!(bm.bufs[i].b_flags & BufFlag::B_DELWRI, 0);
}

#[test]
fn bflush_writes_the_delayed_buffers_of_a_device() {
    let mut bm = BufferManager::new();
    let GetBlk::Assigned(i) = bm.get_blk(DevId(0), PhysicalBlock(7)).unwrap() else { panic!() };
    bm.bdwrite(i);
    assert_eq!(bm.find_delayed_write_buffer(Some(DevId(1))), None);
    let (j, w) = bm.bflush_step(None).unwrap();
    assert_eq!(j, i);
    assert_eq!(w, Ok((true, true)));
    assert!(bm.bflush_step(None).is_none());
}

#[test]
fn reads_are_started_only_for_missing_data() {
    let mut bm = BufferManager::new();
    let GetBlk::Assigned(i) = bm.get_blk(DevId(0), PhysicalBlock(3)).unwrap() else { panic!() };
    assert!(bm.bread_start(i, false));
    assert_eq!(bm.bufs[i].b_wcount, 512);
    assert_eq!(bm.io_wait(i), None);
    assert_eq!(bm.io_done(i), None);
    assert_eq!(bm.io_wait(i), Some(Ok(())));
    assert!(!bm.bread_start(i, false));
    let (main, ra) = bm.breada_plan(DevId(0), PhysicalBlock(3), Some(PhysicalBlock(4)));
    assert!(!main);
    assert_eq!(ra, None);
    let (main, ra) = bm.breada_plan(DevId(0), PhysicalBlock(9), Some(PhysicalBlock(4)));
    assert!(main);
    assert_eq!(ra, Some(PhysicalBlock(4)));
}

#[test]
fn errors_detach_the_buffer_from_its_block() {
    let mut bm = BufferManager::new();
    let GetBlk::Assigned(i) = bm.get_blk(DevId(0x0001), PhysicalBlock(3)).unwrap() else { panic!() };
    bm.bufs[i].b_flags |= BufFlag::B_ERROR | BufFlag::B_DONE;
    assert_eq!(bm.get_error(i), Err(BufferError::IoError));
    bm.brelse(i);
    assert_eq!(bm.bufs[i].b_dev, 0x00ff);
    assert_eq!(bm.in_core(DevId(0x0001), PhysicalBlock(3)), None);
}

#[test]
fn swap_buffer_is_exclusive() {
    let mut bm = BufferManager::new();
    assert!(bm.swap_begin(PhysicalBlock(50), 0x1000, BufFlag::B_WRITE));
    assert!(!bm.swap_begin(PhysicalBlock(60), 0x1000, BufFlag::B_WRITE));
    assert!(!bm.swap_wait());
    bm.swap_buf.b_flags |= BufFlag::B_DONE;
    assert!(bm.swap_wait());
    let (wanted, res) = bm.finish_swap();
    assert!(wanted);
    assert_eq!(res, Ok(()));
    assert_eq!(bm.swap_buf.b_flags & BufFlag::B_BUSY, 0);
}

#[test]
fn device_queue_is_fifo_without_duplicates() {
    let mut tab = Devtab::new();
    assert!(tab.strategy(3));
    assert!(tab.strategy(5));
    tab.push_io_request(3);
    assert_eq!(tab.io_queue, vec![3, 5]);
    assert_eq!(tab.start_next(), Some(3));
    assert_eq!(tab.d_active, 1);
    assert_eq!(tab.start_next(), None);
    assert!(!tab.strategy(7));
    tab.d_active = 0;
    assert_eq!(tab.pop_io_request(), Some(5));
    assert_eq!(tab.pop_io_request(), Some(7));
    assert_eq!(tab.pop_io_request(), None);
    assert!(out_of_range(100, 1024, 101));
    assert!(!out_of_range(100, 1024, 102));
    assert_eq!(block_device_for_dev(0x0005), Some(BlockDev::VirtIO));
    assert_eq!(block_device_for_dev(0x0205), None);
}

#[test]
fn asynchronous_write_reports_the_start_and_clears_the_delay() {
    let mut bm = BufferManager::new();
    let GetBlk::Assigned(i) = bm.get_blk(DevId(0), PhysicalBlock(9)).unwrap() else { panic!() };
    assert_eq!(bm.bawrite(i), Ok((true, false)));
    assert!(bm.bufs[i].b_flags & BufFlag::B_ASYNC != 0);
    assert_eq!(bm.bufs[i].b_flags & BufFlag::B_DONE, 0);
    assert_eq!(bm.bufs[i].b_wcount, BufferManager::BUFFER_SIZE as i32);
    // the transfer ends: the asynchronous buffer is released
    assert_eq!(bm.io_done(i), Some((false, false)));
    assert!(bm.bufs[i].free_linked);
    assert!(bm.bufs[i].b_flags & BufFlag::B_DONE != 0);
}

#[test]
fn delayed_write_release_wakes_waiters() {
    let mut bm = BufferManager::new();
    let GetBlk::Assigned(i) = bm.get_blk(DevId(0), PhysicalBlock(11)).unwrap() else { panic!() };
    assert_eq!(bm.get_blk(DevId(0), PhysicalBlock(11)).unwrap(), GetBlk::WaitBuffer(i));
    assert_eq!(bm.bdwrite(i), (true, false));
    assert!(bm.bufs[i].b_flags & (BufFlag::B_DELWRI | BufFlag::B_DONE) == (BufFlag::B_DELWRI | BufFlag::B_DONE));
    assert_eq!(bm.bufs[i].b_flags & (BufFlag::B_BUSY | BufFlag::B_WANTED), 0);
}

#[test]
fn reinitialized_cache_is_empty() {
    let mut bm = BufferManager::new();
    bm.get_blk(DevId(0), PhysicalBlock(1)).unwrap();
    bm.initialize();
    assert_eq!(bm.in_core(DevId(0), PhysicalBlock(1)), None);
    assert_eq!(bm.free_list.len(), BufferManager::NBUF);
    assert_eq!(BufferManager::validate_device(DevId(0)), Ok(()));
    assert_eq!(BufferManager::validate_device(DevId(0x0200)), Err(BufferError::InvalidDevice));
}

#[test]
fn device_queue_push_keeps_one_entry_per_buffer() {
    let mut d = Devtab::new();
    assert!(d.strategy(4));
    assert!(d.strategy(4));
    assert_eq!(d.io_queue, vec![4]);
    assert_eq!(d.start_next(), Some(4));
    assert!(!d.strategy(5));
}

#[test]
fn a_block_is_cached_in_one_buffer_only() {
    let mut bm = BufferManager::new();
    let GetBlk::Assigned(i) = bm.get_blk(DevId(0), PhysicalBlock(21)).unwrap() else { panic!() };
    bm.brelse(i);
    for b in 0..5u32 {
        let r = bm.get_blk(DevId(0), PhysicalBlock(21 + (b % 2))).unwrap();
        match r {
            GetBlk::Found(k) | GetBlk::Assigned(k) => {
                bm.brelse(k);
            }
            other => panic!("{:?}", other),
        }
    }
    for blk in [21u32, 22] {
        let holders = bm
            .bufs
            .iter()
            .filter(|b| b.device_linked && b.b_dev == 0 && b.b_blkno == PhysicalBlock(blk))
            .count();
        assert_eq!(holders, 1);
    }
}
