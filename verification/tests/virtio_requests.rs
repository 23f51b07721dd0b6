use v6pp_kernel::dev::buffer::{BufFlag, PhysicalBlock};
use v6pp_kernel::dev::buffer_manager::Buf;
use v6pp_kernel::dev::virtio_blk::{bus_to_pseudo_phys, dma_alloc_pages, mmio_slot, pseudo_phys_to_bus, transfer_request, BlockRequest};

fn buf(blkno: u32, wcount: i32, flags: u32) -> Buf {
    let mut b = Buf::new();
    b.b_blkno = PhysicalBlock(blkno);
    b.b_wcount = wcount;
    b.b_flags = flags;
    b
}

#[test]
fn transfer_request_reads_and_writes_whole_sectors() {
    assert_eq!(
        transfer_request(&buf(7, 512, BufFlag::B_READ)),
        Some(BlockRequest { block_id: 7, len: 512, read: true })
    );
    assert_eq!(
        transfer_request(&buf(9, 1024, BufFlag::B_WRITE)),
        Some(BlockRequest { block_id: 9, len: 1024, read: false })
    );
}

#[test]
fn transfer_request_refuses_empty_or_partial_sectors() {
    assert_eq!(transfer_request(&buf(7, 0, BufFlag::B_READ)), None);
    assert_eq!(transfer_request(&buf(7, 100, BufFlag::B_READ)), None);
}

#[test]
fn mmio_slots_are_a_page_apart() {
    assert_eq!(mmio_slot(0), 0xd000_1000);
    assert_eq!(mmio_slot(3), 0xd000_4000);
}

#[test]
fn dma_allocations_round_up_to_a_power_of_two() {
    assert_eq!(dma_alloc_pages(0), 1);
    assert_eq!(dma_alloc_pages(1), 1);
    assert_eq!(dma_alloc_pages(3), 4);
    assert_eq!(dma_alloc_pages(8), 8);
    assert_eq!(dma_alloc_pages(9), 16);
}

#[test]
fn bus_addresses_are_offset_by_the_start_of_ram() {
    assert_eq!(pseudo_phys_to_bus(0x1000), 0x8000_1000);
    assert_eq!(bus_to_pseudo_phys(0x8000_1000), 0x1000);
}
