use shared_lib::page_table::{OutOfMemory, PageTableEntry, PageTablesAllocator, TablePool};

#[test]
fn pool_hands_out_slots_in_order() {
    let mut pool = TablePool::new(0x10_0000, 3);
    assert_eq!(pool.len(), 0);
    assert_eq!(pool.allocate_page_table(0), Ok(0x10_0000));
    assert_eq!(pool.allocate_page_table(0), Ok(0x10_1000));
    assert_eq!(pool.allocate_page_table(0), Ok(0x10_2000));
    assert_eq!(pool.len(), 3);
}

#[test]
fn pool_stops_at_its_limit() {
    let mut pool = TablePool::new(0x10_0000, 1);
    assert_eq!(pool.allocate_page_table(0), Ok(0x10_0000));
    assert_eq!(pool.allocate_page_table(0), Err(OutOfMemory));
    assert_eq!(pool.len(), 1);
    let mut none = TablePool::new(0x10_0000, 0);
    assert_eq!(none.allocate_page_table(0), Err(OutOfMemory));
    assert_eq!(none.len(), 0);
}

#[test]
fn pool_takes_the_offset_off_the_address() {
    let mut pool = TablePool::new(0x10_0000, 4);
    assert_eq!(pool.allocate_page_table(0x8_0000), Ok(0x8_0000));
    assert_eq!(pool.allocate_page_table(0x10_0000), Ok(0x1000));
    assert_eq!(pool.allocate_page_table(0), Ok(0x10_2000));
}

#[test]
fn pool_refuses_an_offset_it_cannot_serve() {
    let mut pool = TablePool::new(0x10_0000, 4);
    assert_eq!(pool.allocate_page_table(0x20_0000), Err(OutOfMemory));
    assert_eq!(pool.allocate_page_table(0x10), Err(OutOfMemory));
    assert_eq!(pool.len(), 0);
    let mut high = TablePool::new(1 << 52, 4);
    assert_eq!(high.allocate_page_table(0), Err(OutOfMemory));
    assert_eq!(high.allocate_page_table(0x1000), Ok(0x000f_ffff_ffff_f000));
    let mut odd = TablePool::new(0x10_0800, 4);
    assert_eq!(odd.allocate_page_table(0), Err(OutOfMemory));
    assert_eq!(odd.allocate_page_table(0x800), Ok(0x10_0000));
}

#[test]
fn pool_refuses_an_address_past_the_end() {
    let mut pool = TablePool::new(0xffff_ffff_ffff_f000, 4);
    assert_eq!(pool.allocate_page_table(0xfff0_0000_0000_0000), Ok(0x000f_ffff_ffff_f000));
    assert_eq!(pool.allocate_page_table(0xfff0_0000_0000_0000), Err(OutOfMemory));
    assert_eq!(pool.len(), 1);
}

#[test]
fn pool_tables_start_empty_and_keep_what_is_written() {
    let mut pool = TablePool::new(0x10_0000, 2);
    pool.allocate_page_table(0).unwrap();
    pool.allocate_page_table(0).unwrap();
    for i in 0..512u16 {
        assert_eq!(pool.entry(0x10_0000, i), PageTableEntry::new());
        assert_eq!(pool.entry(0x10_1000, i), PageTableEntry::new());
    }
    pool.set_entry(0x10_1000, 5, PageTableEntry { entry: 0x2003 });
    assert_eq!(pool.entry(0x10_1000, 5).entry, 0x2003);
    assert_eq!(pool.entry(0x10_1000, 4).entry, 0);
    assert_eq!(pool.entry(0x10_1000, 6).entry, 0);
    assert_eq!(pool.entry(0x10_0000, 5).entry, 0);
}
