use v6pp_kernel::compat::{compat_swap_alloc, compat_swap_free, sectors};
use v6pp_kernel::constants::PosixError;
use v6pp_kernel::dev::ata_driver::{ATADriver, AtaInterrupt};
use v6pp_kernel::dev::buffer::PhysicalBlock;
use v6pp_kernel::interrupt::handler::{external_irq, page_fault_access, page_fault_outcome, schedule_on_user_return, trap_handler, PageFaultAccess, PageFaultOutcome, TrapAction};
use v6pp_kernel::kernel::splash::{bgra_row, bmp_layout, row_y, BmpLayout};
use v6pp_kernel::interrupt::system_call::{handle_in_rust, is_unimplemented, return_value, trace, Syscall};
use v6pp_kernel::interrupt::time::{handle_timer_interrupt, Clock, CpuUsage, INTERRUPTS_PER_SECOND};
use v6pp_kernel::kernel::diagnose::Diagnose;
use v6pp_kernel::kernel::syscall::{normalize, normalize_short};
use v6pp_kernel::loader::{align_up, ELFParser};
use v6pp_kernel::machine::page_table::{decode_entry_flags, encode_leaf_flags, init_low_mmio_map, EntryFlags, PageDirectory, PageTableEntry};
use v6pp_kernel::machine::{bcd_to_binary, irq_mask, timer_counter, SystemTime};
use v6pp_kernel::mm::allocator::{kernel_ptr_to_pseudo_phys, order_for_size, phys_to_virt, virt_to_phys};
use v6pp_kernel::mm::kstack::KernelStack;
use v6pp_kernel::mm::swapper_manager::AreaList;
use v6pp_kernel::mm::zone::MemoryZone;
use v6pp_kernel::serial::{serial_try_read_byte, serial_write, serial_write_bytes, serial_write_hex};
use v6pp_kernel::sync::mutex::Mutex;
use v6pp_kernel::sync::super_cell::SuperCell;

#[test]
fn system_call_numbers_dispatch() {
    assert_eq!(handle_in_rust(3), Syscall::Read);
    assert_eq!(handle_in_rust(0), Syscall::Ignored);
    assert_eq!(handle_in_rust(31), Syscall::Ignored);
    assert_eq!(handle_in_rust(41), Syscall::Dup);
    assert_eq!(handle_in_rust(27), Syscall::NoSys);
    assert_eq!(handle_in_rust(50), Syscall::NoSys);
    assert_eq!(handle_in_rust(64), Syscall::NoSys);
    assert!(is_unimplemented(45));
    assert!(is_unimplemented(63));
    assert!(!is_unimplemented(48));
}

#[test]
fn system_call_results_reach_the_user() {
    assert_eq!(return_value(Ok(7), false), (7, None));
    assert_eq!(return_value(Ok(0x1_0000_0005), false), (5, None));
    assert_eq!(return_value(Err(PosixError::ENOENT), false), ((-2i32) as usize, Some(PosixError::ENOENT)));
    assert_eq!(return_value(Ok(7), true), ((-4i32) as usize, Some(PosixError::EINTR)));
    let mut rows = 0u32;
    assert_eq!(trace(&mut rows, 12), 12);
    assert_eq!(trace(&mut rows, 5), 0);
    assert_eq!(normalize(-9), -1);
    assert_eq!(normalize(9), 9);
    assert_eq!(normalize_short(-1), -1);
    assert_eq!(normalize_short(300), 300);
}

#[test]
fn traps_are_classified() {
    assert_eq!(trap_handler(true, 5), TrapAction::Timer);
    assert_eq!(trap_handler(true, 9), TrapAction::External);
    assert_eq!(trap_handler(true, 1), TrapAction::IgnoredInterrupt);
    assert_eq!(trap_handler(false, 8), TrapAction::Syscall);
    assert_eq!(trap_handler(false, 3), TrapAction::Breakpoint);
    assert_eq!(trap_handler(false, 13), TrapAction::PageFault(PageFaultAccess::Read));
    assert_eq!(trap_handler(false, 4), TrapAction::BadAccess);
    assert_eq!(trap_handler(false, 2), TrapAction::Fatal);
    assert_eq!(trap_handler(false, 9), TrapAction::Fatal);
    assert_eq!(page_fault_access(15), Some(PageFaultAccess::Write));
    assert_eq!(PageFaultAccess::Execute.describe(), "instruction");
    assert_eq!(external_irq(Some(10)), Some(true));
    assert_eq!(external_irq(Some(3)), Some(false));
    assert_eq!(external_irq(None), None);
}

#[test]
fn clock_counts_seconds_and_wakes_sleepers() {
    let mut clock = Clock::new();
    let mut usage = CpuUsage { utime: 0, stime: 0, cpu: 1023 };
    let a = handle_timer_interrupt(&mut clock, &mut usage, true, true);
    assert!(!a.second);
    assert_eq!((usage.utime, usage.cpu), (1, 1024));
    clock.ticks = INTERRUPTS_PER_SECOND - 1;
    assert!(clock.set_timer(1));
    assert_eq!(clock.timeout, 1);
    let a = handle_timer_interrupt(&mut clock, &mut usage, true, true);
    assert!(a.second && a.wake_sleepers && a.user_work);
    assert_eq!((clock.ticks, clock.get_time()), (0, 1));
    assert_eq!(usage.cpu, 1024);
    clock.ticks = INTERRUPTS_PER_SECOND - 1;
    let a = handle_timer_interrupt(&mut clock, &mut usage, false, true);
    assert!(!a.second && !a.wake_sleepers);
    assert_eq!(usage.stime, 1);
    assert!(!clock.set_timer(2));
    assert!(clock.set_timer(10));
    assert!(clock.set_timer(5));
    assert_eq!(clock.timeout, 5);
    assert!(clock.set_timer(9));
    assert_eq!(clock.timeout, 5);
}

#[test]
fn page_table_entry_set_then_get() {
    let mut e = PageTableEntry::new();
    e.set(Some(0x123), EntryFlags::PRESENT | EntryFlags::WRITE);
    assert_eq!(e.get(), (0x123, EntryFlags::PRESENT | EntryFlags::WRITE));
    e.set(Some(0x55), EntryFlags::PRESENT | EntryFlags::USER);
    assert_eq!(e.get(), (0x55, EntryFlags::PRESENT | EntryFlags::USER | EntryFlags::EXECUTE));
    e.set(Some(0x55), EntryFlags::USER);
    assert_eq!(e.get(), (0, 0));
    e.set(None, EntryFlags::PRESENT);
    assert_eq!(e.0, 0);
    assert_eq!(encode_leaf_flags(EntryFlags::PRESENT | EntryFlags::LARGE), 0x1 | 0x2 | 0x40 | 0x20);
    assert_eq!(decode_entry_flags(0x1 | 0x8), EntryFlags::PRESENT | EntryFlags::EXECUTE);
    let mut low = PageDirectory::new();
    init_low_mmio_map(&mut low);
    assert_eq!(low.entries[128].0 >> 10, 0x1_0000);
    assert_eq!(low.entries[0].0, 0);
}

#[test]
fn serial_output_translates_newlines() {
    assert_eq!(serial_write_bytes(b"a\nb"), b"a\r\nb".to_vec());
    assert_eq!(serial_write("ok\n"), b"ok\r\n".to_vec());
    assert_eq!(serial_write_hex(0xdead_beef), b"0x00000000deadbeef".to_vec());
    assert_eq!(serial_try_read_byte(0x61, b'k'), Some(b'k'));
    assert_eq!(serial_try_read_byte(0x60, b'k'), None);
}

#[test]
fn clock_readings_become_seconds_since_1970() {
    let t = SystemTime { second: 5, minute: 4, hour: 3, day_of_month: 2, month: 3, year: 0, day_of_week: 4 };
    // 2000-03-02T03:04:05Z
    assert_eq!(t.to_kernel_time(), 951_966_245);
    let t = SystemTime { second: 0, minute: 0, hour: 0, day_of_month: 1, month: 1, year: 24, day_of_week: 1 };
    assert_eq!(t.to_kernel_time(), 1_704_067_200);
    assert_eq!(bcd_to_binary(0x59), 59);
    assert_eq!(timer_counter(0), 1193180 / 60);
    assert_eq!(irq_mask(0xff, 3, true), 0xf7);
    assert_eq!(irq_mask(0x00, 9, false), 0x02);
}

fn elf(phdrs: &[(u32, u32, u64, u64, u64)]) -> (Vec<u8>, Vec<u8>) {
    let mut h = vec![0u8; 64];
    h[..4].copy_from_slice(&[0x7f, b'E', b'L', b'F']);
    h[4] = 2;
    h[5] = 1;
    h[16] = 2;
    h[18] = 243;
    h[24..32].copy_from_slice(&0x1000u64.to_le_bytes());
    h[54] = 56;
    h[56] = phdrs.len() as u8;
    let mut p = Vec::new();
    for &(ty, flags, vaddr, filesz, memsz) in phdrs {
        let mut e = vec![0u8; 56];
        e[0..4].copy_from_slice(&ty.to_le_bytes());
        e[4..8].copy_from_slice(&flags.to_le_bytes());
        e[16..24].copy_from_slice(&vaddr.to_le_bytes());
        e[32..40].copy_from_slice(&filesz.to_le_bytes());
        e[40..48].copy_from_slice(&memsz.to_le_bytes());
        p.extend_from_slice(&e);
    }
    (h, p)
}

#[test]
fn elf_loader_reads_text_and_data() {
    let (h, p) = elf(&[(1, 2, 0x3000, 0x100, 0x800), (4, 0, 0, 0, 0), (1, 5, 0x1000, 0x1800, 0x1800)]);
    let mut e = ELFParser::new();
    assert!(e.load(&h, &p, 0x80_0000));
    assert_eq!(e.entry, 0x1000);
    assert_eq!((e.text, e.text_len), (0x1000, 0x2000));
    assert_eq!((e.data, e.data_len), (0x3000, 0x800));
    let segs = e.segments.as_ref().unwrap();
    assert_eq!(segs.len(), 2);
    assert_eq!(segs[0].vaddr, 0x1000);
    assert_eq!(segs[1].vaddr, 0x3000);
}

#[test]
fn elf_loader_refuses_bad_files() {
    let (mut h, p) = elf(&[(1, 5, 0x1000, 0x10, 0x20)]);
    let mut e = ELFParser::new();
    assert!(!e.load(&h[..40], &p, 0x80_0000));
    assert!(!e.load(&h, &p[..10], 0x80_0000));
    assert!(!e.load(&h, &p, 0x1000));
    let (h2, p2) = elf(&[(1, 5, 0x1000, 0x30, 0x20)]);
    assert!(!e.load(&h2, &p2, 0x80_0000));
    let (h3, p3) = elf(&[(4, 0, 0x1000, 0x30, 0x20)]);
    assert!(!e.load(&h3, &p3, 0x80_0000));
    h[18] = 62;
    assert!(ELFParser::parse_header(&h).is_none());
    assert_eq!(e.entry, 0);
    assert_eq!(align_up(0, 0x1000), 0);
    assert_eq!(align_up(1, 0x1000), 0x1000);
    assert_eq!(align_up(0x2000, 0x1000), 0x2000);
}

#[test]
fn swap_space_is_counted_in_sectors() {
    assert_eq!(sectors(1), 1);
    assert_eq!(sectors(512), 1);
    assert_eq!(sectors(513), 2);
    let mut areas = AreaList::new();
    areas.free(100, 8);
    let b = compat_swap_alloc(&mut areas, 1000).unwrap();
    assert_eq!(b, PhysicalBlock(100));
    assert_eq!(areas.area(0).addr, 102);
    assert!(compat_swap_alloc(&mut areas, 512 * 7).is_none());
    compat_swap_free(&mut areas, b, 1000);
    assert_eq!(areas.len(), 1);
    assert_eq!(areas.area(0).size, 8);
}

#[test]
fn memory_helpers() {
    assert_eq!(phys_to_virt(0x8020_0000), 0xc020_0000);
    assert_eq!(virt_to_phys(0xc020_0000), 0x8020_0000);
    assert_eq!(order_for_size(1), 0);
    assert_eq!(order_for_size(4096), 0);
    assert_eq!(order_for_size(4097), 1);
    assert_eq!(order_for_size(0x8000), 3);
    let ks = KernelStack::new(0x1000_0000);
    assert_eq!(ks.top(), 0x1000_8000);
    assert_eq!(ks.trap_context(0x118), 0x1000_7ee8);
    assert_eq!(ks.task_top(0x118), 0x1000_7ee0);
    let z = MemoryZone;
    assert_eq!(z.get_page(5), Some(5));
    assert_eq!(z.get_page(0x4000), None);
    assert!(z.contains_prange(0x400_0000));
    assert!(!z.contains_prange(0x400_0001));
}

#[test]
fn ata_commands_and_retries() {
    let c = ATADriver::dev_start(1, 0x0a0b0c0d, 512, true);
    assert_eq!((c.nsector, c.blkno_1, c.blkno_2, c.blkno_3), (1, 0x0d, 0x0c, 0x0b));
    assert_eq!(c.mode, 0xa0 | 0x40 | 0x10 | 0x0a);
    assert_eq!(c.command, ATADriver::HD_DMA_READ);
    assert!(ATADriver::is_ready(0x40));
    assert!(!ATADriver::is_ready(0xc0));
    let mut active = true;
    let mut errcnt = 10u32;
    assert_eq!(ATADriver::ata_handler(&mut active, &mut errcnt, true, true), AtaInterrupt::Done { failed: true });
    assert_eq!(errcnt, 0);
    active = true;
    assert_eq!(ATADriver::ata_handler(&mut active, &mut errcnt, true, true), AtaInterrupt::Retry);
    assert_eq!(errcnt, 1);
    assert_eq!(ATADriver::ata_handler(&mut active, &mut errcnt, true, false), AtaInterrupt::Idle);
}

#[test]
fn diagnose_window_rows() {
    let mut d = Diagnose::new();
    assert!(d.is_trace_on());
    d.diagnose_enable_rows(5);
    assert_eq!((d.diagnose_rows(), d.row, d.column), (5, 20, 0));
    d.diagnose_disable_rows();
    assert_eq!((d.rows, d.row), (0, 25));
    d.trace_off();
    assert!(!d.is_trace_on());
}

#[test]
fn locks_and_cells() {
    let mut m = Mutex::new(5u32, -10);
    assert!(m.try_lock());
    assert!(!m.try_lock());
    *m.get_mut() += 1;
    assert!(m.unlock());
    assert!(!m.unlock());
    assert_eq!(m.value, 6);
    let mut c = SuperCell::new(3u8);
    assert_eq!(c.with(|v| *v + 1), 4);
    *c.get_mut() = 9;
    assert_eq!(c.value, 9);
}

#[test]
fn user_return_schedules_only_when_asked() {
    assert!(schedule_on_user_return(true, 1));
    assert!(!schedule_on_user_return(true, 0));
    assert!(!schedule_on_user_return(false, 3));
}

#[test]
fn page_faults_grow_the_stack_or_kill() {
    assert_eq!(page_fault_outcome(0x7f_f000, false), PageFaultOutcome::GrowStack);
    assert_eq!(page_fault_outcome(0x60_0000, false), PageFaultOutcome::GrowStack);
    assert_eq!(page_fault_outcome(0x7f_f000, true), PageFaultOutcome::Segfault);
    assert_eq!(page_fault_outcome(0x5f_ffff, false), PageFaultOutcome::Segfault);
    assert_eq!(page_fault_outcome(0x80_0000, false), PageFaultOutcome::Segfault);
}

fn le32(v: i32) -> [u8; 4] {
    v.to_le_bytes()
}

fn headers(magic: [u8; 2], width: i32, height: i32, image_size: i32, offset: i32) -> (Vec<u8>, Vec<u8>) {
    let mut file = vec![0u8; 14];
    file[0] = magic[0];
    file[1] = magic[1];
    file[10..14].copy_from_slice(&le32(offset));
    let mut info = vec![0u8; 40];
    info[4..8].copy_from_slice(&le32(width));
    info[8..12].copy_from_slice(&le32(height));
    info[20..24].copy_from_slice(&le32(image_size));
    (file, info)
}

#[test]
fn splash_headers_give_the_row_layout() {
    let (f, i) = headers(*b"BM", 3, 2, 24, 54);
    assert_eq!(bmp_layout(&f, &i), Some(BmpLayout { width: 3, height: 2, row_size: 12, offset: 54 }));
    let (f, i) = headers(*b"MB", 3, 2, 24, 54);
    assert_eq!(bmp_layout(&f, &i), None);
    let (f, i) = headers(*b"BM", 0, 2, 24, 54);
    assert_eq!(bmp_layout(&f, &i), None);
    let (f, i) = headers(*b"BM", 3, 2, 24, -1);
    assert_eq!(bmp_layout(&f, &i), None);
    let (f, i) = headers(*b"BM", 7, 2, 24, 54);
    assert_eq!(bmp_layout(&f, &i), None);
    let (f, i) = headers(*b"BM", 3, 2, 24, 54);
    assert_eq!(bmp_layout(&f[..13], &i), None);
}

#[test]
fn splash_rows_are_drawn_bottom_up() {
    assert_eq!(row_y(10, 0), 10);
    assert_eq!(row_y(10, 9), 1);
    let row = [1u8, 0, 0, 0, 0xff, 0xff, 0xff, 0xff, 9];
    assert_eq!(bgra_row(&row, 2), vec![1, -1]);
    assert_eq!(bgra_row(&row, 0), Vec::<i32>::new());
}

#[test]
fn device_addresses_of_kernel_buffers() {
    assert_eq!(kernel_ptr_to_pseudo_phys(0xc010_0000), 0x8010_0000);
    assert_eq!(kernel_ptr_to_pseudo_phys(0x8010_0000), 0x0010_0000);
}

#[test]
fn serial_text_is_sent_as_utf8() {
    assert_eq!(serial_write("\u{e9}\n"), vec![0xc3, 0xa9, 13, 10]);
}

#[test]
fn sixty_interrupts_make_a_second() {
    let mut clock = Clock::new();
    let mut usage = CpuUsage { utime: 0, stime: 0, cpu: 0 };
    for _ in 0..INTERRUPTS_PER_SECOND - 1 {
        let a = handle_timer_interrupt(&mut clock, &mut usage, true, false);
        assert!(!a.second);
    }
    assert_eq!(clock.get_time(), 0);
    let a = handle_timer_interrupt(&mut clock, &mut usage, true, false);
    assert!(a.second);
    assert_eq!(clock.get_time(), 1);
    assert_eq!(clock.ticks, 0);
    assert_eq!(usage.utime, 60);
}

#[test]
fn elf_loader_refuses_an_entry_point_beyond_user_space() {
    let (mut h, p) = elf(&[(1, 5, 0x1000, 0x10, 0x20)]);
    h[24..32].copy_from_slice(&0x90_0000u64.to_le_bytes());
    let mut e = ELFParser::new();
    assert!(!e.load(&h, &p, 0x80_0000));
    assert_eq!(e.entry, 0);
    h[24..32].copy_from_slice(&0x7f_0000u64.to_le_bytes());
    assert!(e.load(&h, &p, 0x80_0000));
    assert_eq!(e.entry, 0x7f_0000);
}
