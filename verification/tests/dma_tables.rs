use v6pp_kernel::dev::dma::{DMAStart, DMAType, PRDTable, PhysicalRegionDescriptor, DMA};

#[test]
fn descriptors_are_aligned_and_marked_last() {
    let mut d = PhysicalRegionDescriptor::new();
    d.set_base_address(0x1235);
    d.set_byte_count(513);
    assert_eq!(d.base_address(), 0x1234);
    assert_eq!(d.byte_count(), 512);
    assert!(!d.is_end_of_table());
    d.set_end_of_table(true);
    assert!(d.is_end_of_table());
    d.set_end_of_table(false);
    assert!(!d.is_end_of_table());
    assert_eq!(d.base_address(), 0x1234);
}

#[test]
fn table_stores_descriptors_and_names_its_address() {
    let mut t = PRDTable::new();
    let mut d = PhysicalRegionDescriptor::new();
    d.set_base_address(0x8000);
    d.set_byte_count(0x200);
    t.set_physical_region_descriptor(3, d, true);
    assert_eq!(t.descriptor(3).base_address(), 0x8000);
    assert!(t.descriptor(3).is_end_of_table());
    assert_eq!(t.descriptor(2).byte_count(), 0);
    assert_eq!(t.prd_table_base_address(0xc010_0000), 0x0010_0000);
    assert_eq!(t.prd_table_base_address(0xc000_0000), 0);
}

#[test]
fn controller_ports_and_commands() {
    let d = DMA::from_bus_master_base(0xc001);
    assert_eq!((d.command_port(), d.status_port(), d.prdtr_port()), (0xc000, 0xc002, 0xc004));
    let u = DMA::unconfigured();
    assert_eq!(u.command_port(), 0);
    assert_eq!(DMA::start_command(DMAType::Read), 0x09);
    assert_eq!(DMA::start_command(DMAType::Write), 0x01);
    assert_eq!(DMAStart::Stop.bits(), 0);
    assert_eq!(DMA::reset_status(), 0x06);
    assert!(DMA::is_error(0x03));
    assert!(!DMA::is_error(0x05));
}

#[test]
fn pci_scan_finds_ide_functions_in_order() {
    assert_eq!(DMA::pci_config_address(1, 2, 3, 8), 0x8001_1308);
    assert!(DMA::is_ide_class(0x0101_8a00));
    assert!(!DMA::is_ide_class(0x0300_0000));
    assert!(!DMA::is_ide_class(u32::MAX));
    assert_eq!(DMA::next_pci_function(0, 0, 0), Some((0, 0, 1)));
    assert_eq!(DMA::next_pci_function(0, 0, 7), Some((0, 1, 0)));
    assert_eq!(DMA::next_pci_function(4, 31, 7), Some((5, 0, 0)));
    assert_eq!(DMA::next_pci_function(255, 31, 7), None);
}

#[test]
fn prd_tables_hold_ten_descriptors() {
    let mut t = PRDTable::new();
    assert_eq!(t.len(), PRDTable::NSIZE);
    t.set_physical_region_descriptor(9, PhysicalRegionDescriptor::new(), true);
    assert_eq!(t.len(), 10);
}
