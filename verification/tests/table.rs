use shared_lib::page_table::{PageTable, PageTableEntry, PageTableFlags, ENTRY_COUNT, PAGE_SIZE};

#[test]
fn sizes() {
    assert_eq!(PAGE_SIZE, 4096);
    assert_eq!(ENTRY_COUNT, 512);
    assert_eq!(std::mem::size_of::<PageTable>(), 4096);
    assert_eq!(std::mem::size_of::<PageTableEntry>(), 8);
}

#[test]
fn new_table_is_all_absent() {
    let table = PageTable::new();
    for i in 0..512u16 {
        assert_eq!(*table.index(i), PageTableEntry::new());
        assert!(!table.index(i).is_present());
    }
}

#[test]
fn index_mut_changes_one_slot() {
    let mut table = PageTable::new();
    table.index_mut(0).set_addr(0x1000, PageTableFlags::present());
    table.index_mut(511).set_addr(0x2000, PageTableFlags::present());
    *table.index_mut(7) = PageTableEntry { entry: 0x7003 };
    assert_eq!(table.index(0).entry, 0x1001);
    assert_eq!(table.index(511).entry, 0x2001);
    assert_eq!(table.index(7).entry, 0x7003);
    for i in 1..511u16 {
        if i != 7 {
            assert_eq!(table.index(i).entry, 0);
        }
    }
}

#[test]
fn clear_makes_every_slot_absent() {
    let mut table = PageTable::new();
    for i in 0..512u16 {
        table.index_mut(i).set_addr(0x1000 * (i as u64 + 1), PageTableFlags::present());
    }
    assert!(table.index(300).is_present());
    table.clear();
    for i in 0..512u16 {
        assert_eq!(table.index(i).entry, 0);
    }
}

#[test]
fn a_copy_of_a_table_is_its_own_table() {
    let mut table = PageTable::new();
    let copy = table;
    table.index_mut(3).set_addr(0x3000, PageTableFlags::present());
    assert_eq!(copy.index(3).entry, 0);
    assert_eq!(table.index(3).entry, 0x3001);
}
