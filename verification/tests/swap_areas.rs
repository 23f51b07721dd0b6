use v6pp_kernel::mm::swapper_manager::AreaList;

#[test]
fn area_list_alloc_and_free_merge() {
    let mut areas = AreaList::new();
    areas.free(0x7800, 0x800);
    assert_eq!(areas.len(), 1);
    let a = areas.allocate(0x100);
    assert_eq!(a, Some(0x7800));
    let b = areas.allocate(0x100);
    assert_eq!(b, Some(0x7900));
    areas.free(0x7800, 0x100);
    assert_eq!(areas.len(), 2);
    areas.free(0x7900, 0x100);
    assert_eq!(areas.len(), 1);
    assert_eq!(areas.area(0).addr, 0x7800);
    assert_eq!(areas.area(0).size, 0x800);
}
