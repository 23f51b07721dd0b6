use v6pp_kernel::loader::{ELFParser, LoadSegment, PF_W, PF_X};
use v6pp_kernel::machine::page_table::{EntryFlags, PageTable};

fn tables() -> [PageTable; 4] {
    [PageTable::new(), PageTable::new(), PageTable::new(), PageTable::new()]
}

fn seg(vaddr: usize, flags: u32) -> LoadSegment {
    LoadSegment { offset: 0x1000, vaddr, filesz: 0x10, memsz: 0x20, flags }
}

#[test]
fn set_text_write_toggles_write_on_the_present_text_pages() {
    let mut t = tables();
    let ro = EntryFlags::PRESENT | EntryFlags::USER;
    t[0].entries[0].set(Some(4), ro);
    t[0].entries[1].set(Some(5), ro);
    t[0].entries[2].set(Some(6), ro);
    t[0].entries[3].set(Some(7), ro);
    let mut p = ELFParser::new();
    p.text = 0x1000;
    p.text_len = 0x1800;
    p.set_text_write(&mut t, true);
    assert_eq!(t[0].entries[1].get(), (5, ro | EntryFlags::EXECUTE | EntryFlags::WRITE));
    assert_eq!(t[0].entries[2].get(), (6, ro | EntryFlags::EXECUTE | EntryFlags::WRITE));
    // Outside the text: kept.
    assert_eq!(t[0].entries[0].get(), (4, ro | EntryFlags::EXECUTE));
    assert_eq!(t[0].entries[3].get(), (7, ro | EntryFlags::EXECUTE));
    // Absent pages stay absent.
    assert_eq!(t[0].entries[4].0, 0);
    p.set_text_write(&mut t, false);
    assert_eq!(t[0].entries[1].get(), (5, ro | EntryFlags::EXECUTE));
    assert_eq!(t[0].entries[2].get(), (6, ro | EntryFlags::EXECUTE));
}

#[test]
fn set_text_write_reaches_the_second_table() {
    let mut t = tables();
    let ro = EntryFlags::PRESENT | EntryFlags::USER;
    t[1].entries[0].set(Some(9), ro);
    let mut p = ELFParser::new();
    p.text = 512 * 0x1000;
    p.text_len = 1;
    p.set_text_write(&mut t, true);
    assert_eq!(t[1].entries[0].get(), (9, ro | EntryFlags::EXECUTE | EntryFlags::WRITE));
}

#[test]
fn set_text_write_on_an_empty_text_changes_nothing() {
    let mut t = tables();
    t[0].entries[0].set(Some(4), EntryFlags::PRESENT);
    let before = t[0].entries[0].0;
    let p = ELFParser::new();
    p.set_text_write(&mut t, true);
    assert_eq!(t[0].entries[0].0, before);
}

#[test]
fn relocate_segments_skips_the_shared_text() {
    let mut p = ELFParser::new();
    assert!(p.relocate_segments(false).is_empty());
    p.segments = Some(vec![seg(0x1000, PF_X), seg(0x2000, PF_W)]);
    let all = p.relocate_segments(false);
    assert_eq!(all.len(), 2);
    let shared = p.relocate_segments(true);
    assert_eq!(shared.len(), 1);
    assert_eq!(shared[0].vaddr, 0x2000);
}

#[test]
fn sort_segments_keeps_the_order_of_equal_addresses() {
    let a = LoadSegment { offset: 1, vaddr: 0x2000, filesz: 0, memsz: 0x10, flags: PF_W };
    let b = LoadSegment { offset: 2, vaddr: 0x1000, filesz: 0, memsz: 0x10, flags: PF_X };
    let c = LoadSegment { offset: 3, vaddr: 0x2000, filesz: 0, memsz: 0x10, flags: PF_W };
    let r = ELFParser::sort_segments(vec![a, b, c]);
    let offsets: Vec<usize> = r.iter().map(|s| s.offset).collect();
    assert_eq!(offsets, vec![2, 1, 3]);
}
