use shared_lib::addr::VirtAddr;
use shared_lib::page_table::{
    align_down, align_down_u64, get_physical_address, link_new_table, map_address,
    map_address_impl, map_address_with_offset, remap_address, MapError, MapOutcome, MappingMode,
    OutOfMemory, PageTable, PageTableEntry, PageTablesAllocator, TablePool,
};

const BASE: u64 = 0x10_0000;

fn fresh(limit: usize) -> (PageTable, TablePool) {
    (PageTable::new(), TablePool::new(BASE, limit))
}

fn root_is_blank(root: &PageTable) -> bool {
    (0..512u16).all(|i| root.index(i).entry == 0)
}

#[test]
fn install_then_conflict_then_remap() {
    let (mut root, mut pool) = fresh(16);
    let v = VirtAddr::new(0x1000);
    assert_eq!(map_address(&mut root, v, 0x2000, &mut pool), Ok(MapOutcome::Installed));
    assert_eq!(get_physical_address(&root, v, &pool), Some(0x2000));
    assert_eq!(map_address(&mut root, v, 0x3000, &mut pool), Err(MapError::AlreadyMapped));
    assert_eq!(get_physical_address(&root, v, &pool), Some(0x2000));
    assert_eq!(remap_address(&mut root, v, 0x3000, &mut pool), Ok(MapOutcome::Replaced));
    assert_eq!(get_physical_address(&root, v, &pool), Some(0x3000));
}

#[test]
fn misaligned_virtual_address_is_refused() {
    let (mut root, mut pool) = fresh(16);
    let r = map_address(&mut root, VirtAddr::new(0x1001), 0x2000, &mut pool);
    assert_eq!(r, Err(MapError::UnalignedVirtual));
    assert!(root_is_blank(&root));
    assert_eq!(pool.len(), 0);
}

#[test]
fn misaligned_addresses_are_refused_by_every_entry_point() {
    let (mut root, mut pool) = fresh(16);
    let odd = VirtAddr::new(0x1fff);
    let even = VirtAddr::new(0x4000);
    assert_eq!(remap_address(&mut root, odd, 0x2000, &mut pool), Err(MapError::UnalignedVirtual));
    assert_eq!(
        map_address_with_offset(&mut root, odd, 0x2000, &mut pool, 0),
        Err(MapError::UnalignedVirtual)
    );
    assert_eq!(map_address(&mut root, even, 0x2001, &mut pool), Err(MapError::UnalignedPhysical));
    assert_eq!(remap_address(&mut root, even, 0x2800, &mut pool), Err(MapError::UnalignedPhysical));
    assert_eq!(
        map_address_with_offset(&mut root, even, 0xfff, &mut pool, 0),
        Err(MapError::UnalignedPhysical)
    );
    assert_eq!(map_address(&mut root, odd, 0x2001, &mut pool), Err(MapError::UnalignedVirtual));
    assert!(root_is_blank(&root));
    assert_eq!(pool.len(), 0);
    assert_eq!(get_physical_address(&root, odd, &pool), None);
    assert_eq!(get_physical_address(&root, even, &pool), None);
}

#[test]
fn a_misaligned_address_in_a_mapped_page_resolves_to_nothing() {
    let (mut root, mut pool) = fresh(16);
    map_address(&mut root, VirtAddr::new(0x1000), 0x2000, &mut pool).unwrap();
    assert_eq!(get_physical_address(&root, VirtAddr::new(0x1000), &pool), Some(0x2000));
    assert_eq!(get_physical_address(&root, VirtAddr::new(0x1001), &pool), None);
    assert_eq!(get_physical_address(&root, VirtAddr::new(0x1fff), &pool), None);
}

#[test]
fn install_writes_three_links_and_a_leaf() {
    let (mut root, mut pool) = fresh(16);
    let v = VirtAddr::from_parts(5, 6, 7, 8, 0);
    assert_eq!(map_address(&mut root, v, 0xabc000, &mut pool), Ok(MapOutcome::Installed));
    assert_eq!(pool.len(), 3);
    assert_eq!(root.index(5).entry, BASE | 3);
    assert_eq!(pool.entry(BASE, 6).entry, (BASE + 0x1000) | 3);
    assert_eq!(pool.entry(BASE + 0x1000, 7).entry, (BASE + 0x2000) | 3);
    assert_eq!(pool.entry(BASE + 0x2000, 8).entry, 0xabc000 | 3);
    for i in 0..512u16 {
        if i != 5 {
            assert_eq!(root.index(i).entry, 0);
        }
        if i != 6 {
            assert_eq!(pool.entry(BASE, i).entry, 0);
        }
        if i != 7 {
            assert_eq!(pool.entry(BASE + 0x1000, i).entry, 0);
        }
        if i != 8 {
            assert_eq!(pool.entry(BASE + 0x2000, i).entry, 0);
        }
    }
}

#[test]
fn installing_the_same_mapping_again_changes_nothing() {
    let (mut root, mut pool) = fresh(16);
    let v = VirtAddr::new(0x7000);
    assert_eq!(map_address(&mut root, v, 0x9000, &mut pool), Ok(MapOutcome::Installed));
    let tables = pool.len();
    let word = pool.entry(BASE + 0x2000, 7);
    assert_eq!(map_address(&mut root, v, 0x9000, &mut pool), Ok(MapOutcome::Unchanged));
    assert_eq!(remap_address(&mut root, v, 0x9000, &mut pool), Ok(MapOutcome::Unchanged));
    assert_eq!(pool.len(), tables);
    assert_eq!(pool.entry(BASE + 0x2000, 7), word);
    assert_eq!(get_physical_address(&root, v, &pool), Some(0x9000));
}

#[test]
fn remap_of_an_unmapped_page_installs_it() {
    let (mut root, mut pool) = fresh(16);
    let v = VirtAddr::new(0x4000_0000);
    assert_eq!(remap_address(&mut root, v, 0x5000, &mut pool), Ok(MapOutcome::Installed));
    assert_eq!(get_physical_address(&root, v, &pool), Some(0x5000));
}

#[test]
fn pages_never_installed_resolve_to_nothing() {
    let (mut root, mut pool) = fresh(16);
    assert_eq!(get_physical_address(&root, VirtAddr::new(0), &pool), None);
    assert_eq!(get_physical_address(&root, VirtAddr::new(0x1000), &pool), None);
    map_address(&mut root, VirtAddr::new(0x1000), 0x2000, &mut pool).unwrap();
    map_address(&mut root, VirtAddr::from_parts(1, 2, 3, 4, 0), 0x6000, &mut pool).unwrap();
    for raw in [
        0u64,
        0x2000,
        0x3000,
        0x20_0000,
        0x20_1000,
        0x4000_0000,
        0x4000_1000,
        0x80_0000_0000,
        0x80_0000_1000,
        0xffff_ffff_ffff_f000,
    ] {
        assert_eq!(get_physical_address(&root, VirtAddr::new(raw), &pool), None);
    }
    assert_eq!(get_physical_address(&root, VirtAddr::from_parts(1, 2, 3, 5, 0), &pool), None);
    assert_eq!(get_physical_address(&root, VirtAddr::from_parts(1, 2, 4, 4, 0), &pool), None);
    assert_eq!(get_physical_address(&root, VirtAddr::from_parts(1, 3, 3, 4, 0), &pool), None);
    assert_eq!(get_physical_address(&root, VirtAddr::from_parts(2, 2, 3, 4, 0), &pool), None);
    assert_eq!(get_physical_address(&root, VirtAddr::new(0x1000), &pool), Some(0x2000));
    assert_eq!(
        get_physical_address(&root, VirtAddr::from_parts(1, 2, 3, 4, 0), &pool),
        Some(0x6000)
    );
}

#[test]
fn neighbours_share_the_tables_above_them() {
    let (mut root, mut pool) = fresh(16);
    map_address(&mut root, VirtAddr::from_parts(0, 0, 0, 1, 0), 0x2000, &mut pool).unwrap();
    assert_eq!(pool.len(), 3);
    map_address(&mut root, VirtAddr::from_parts(0, 0, 0, 2, 0), 0x3000, &mut pool).unwrap();
    assert_eq!(pool.len(), 3);
    map_address(&mut root, VirtAddr::from_parts(0, 0, 1, 2, 0), 0x4000, &mut pool).unwrap();
    assert_eq!(pool.len(), 4);
    map_address(&mut root, VirtAddr::from_parts(0, 1, 1, 2, 0), 0x5000, &mut pool).unwrap();
    assert_eq!(pool.len(), 6);
    map_address(&mut root, VirtAddr::from_parts(1, 1, 1, 2, 0), 0x6000, &mut pool).unwrap();
    assert_eq!(pool.len(), 9);
    for (v, p) in [
        (VirtAddr::from_parts(0, 0, 0, 1, 0), 0x2000),
        (VirtAddr::from_parts(0, 0, 0, 2, 0), 0x3000),
        (VirtAddr::from_parts(0, 0, 1, 2, 0), 0x4000),
        (VirtAddr::from_parts(0, 1, 1, 2, 0), 0x5000),
        (VirtAddr::from_parts(1, 1, 1, 2, 0), 0x6000),
    ] {
        assert_eq!(get_physical_address(&root, v, &pool), Some(p));
    }
}

#[test]
fn a_remap_leaves_the_neighbours_alone() {
    let (mut root, mut pool) = fresh(16);
    let a = VirtAddr::new(0x1000);
    let b = VirtAddr::new(0x2000);
    map_address(&mut root, a, 0xa000, &mut pool).unwrap();
    map_address(&mut root, b, 0xb000, &mut pool).unwrap();
    assert_eq!(remap_address(&mut root, a, 0xc000, &mut pool), Ok(MapOutcome::Replaced));
    assert_eq!(get_physical_address(&root, a, &pool), Some(0xc000));
    assert_eq!(get_physical_address(&root, b, &pool), Some(0xb000));
    assert_eq!(map_address(&mut root, b, 0xc000, &mut pool), Err(MapError::AlreadyMapped));
    assert_eq!(get_physical_address(&root, b, &pool), Some(0xb000));
}

#[test]
fn out_of_memory_at_the_first_table() {
    let (mut root, mut pool) = fresh(0);
    let r = map_address(&mut root, VirtAddr::new(0x1000), 0x2000, &mut pool);
    assert_eq!(r, Err(MapError::OutOfMemory));
    assert!(root_is_blank(&root));
    assert_eq!(get_physical_address(&root, VirtAddr::new(0x1000), &pool), None);
}

#[test]
fn out_of_memory_half_way_keeps_the_links_made() {
    let (mut root, mut pool) = fresh(2);
    let v = VirtAddr::from_parts(3, 4, 5, 6, 0);
    assert_eq!(map_address(&mut root, v, 0x2000, &mut pool), Err(MapError::OutOfMemory));
    assert_eq!(pool.len(), 2);
    assert_eq!(root.index(3).entry, BASE | 3);
    assert_eq!(pool.entry(BASE, 4).entry, (BASE + 0x1000) | 3);
    assert_eq!(pool.entry(BASE + 0x1000, 5).entry, 0);
    assert_eq!(get_physical_address(&root, v, &pool), None);

    pool.limit = 3;
    assert_eq!(map_address(&mut root, v, 0x2000, &mut pool), Ok(MapOutcome::Installed));
    assert_eq!(pool.len(), 3);
    assert_eq!(root.index(3).entry, BASE | 3);
    assert_eq!(pool.entry(BASE, 4).entry, (BASE + 0x1000) | 3);
    assert_eq!(pool.entry(BASE + 0x1000, 5).entry, (BASE + 0x2000) | 3);
    assert_eq!(get_physical_address(&root, v, &pool), Some(0x2000));
}

#[test]
fn out_of_memory_does_not_disturb_what_is_mapped() {
    let (mut root, mut pool) = fresh(4);
    let a = VirtAddr::from_parts(0, 0, 0, 1, 0);
    let b = VirtAddr::from_parts(0, 1, 0, 1, 0);
    map_address(&mut root, a, 0x2000, &mut pool).unwrap();
    assert_eq!(map_address(&mut root, b, 0x3000, &mut pool), Err(MapError::OutOfMemory));
    assert_eq!(pool.len(), 4);
    assert_eq!(get_physical_address(&root, a, &pool), Some(0x2000));
    assert_eq!(get_physical_address(&root, b, &pool), None);
}

#[test]
fn install_through_an_offset() {
    let (mut root, mut pool) = fresh(16);
    let offset: u64 = 0x8_0000;
    let v = VirtAddr::from_parts(1, 2, 3, 4, 0);
    assert_eq!(
        map_address_with_offset(&mut root, v, 0x7000, &mut pool, offset),
        Ok(MapOutcome::Installed)
    );
    assert_eq!(root.index(1).entry, (BASE - offset) | 3);
    assert_eq!(root.index(1).addr() + offset, BASE);
    assert_eq!(pool.entry(BASE, 2).entry, (BASE + 0x1000 - offset) | 3);
    assert_eq!(pool.entry(BASE + 0x1000, 3).entry, (BASE + 0x2000 - offset) | 3);
    assert_eq!(pool.entry(BASE + 0x2000, 4).entry, 0x7000 | 3);
    assert_eq!(
        map_address_with_offset(&mut root, v, 0x7000, &mut pool, offset),
        Ok(MapOutcome::Unchanged)
    );
    assert_eq!(
        map_address_with_offset(&mut root, v, 0x8000, &mut pool, offset),
        Err(MapError::AlreadyMapped)
    );
    assert_eq!(pool.len(), 3);
}

#[test]
fn the_mode_decides_at_a_mapped_page() {
    let (mut root, mut pool) = fresh(16);
    let v = VirtAddr::new(0x1000);
    assert_eq!(
        map_address_impl(&mut root, v, 0x2000, &mut pool, MappingMode::Remapping, 0),
        Ok(MapOutcome::Installed)
    );
    assert_eq!(
        map_address_impl(&mut root, v, 0x3000, &mut pool, MappingMode::CheckFrameIsFree, 0),
        Err(MapError::AlreadyMapped)
    );
    assert_eq!(
        map_address_impl(&mut root, v, 0x3000, &mut pool, MappingMode::Remapping, 0),
        Ok(MapOutcome::Replaced)
    );
    assert_eq!(pool.entry(BASE + 0x2000, 1).entry, 0x3003);
}

#[test]
fn addresses_that_differ_above_bit_47_share_a_mapping() {
    let (mut root, mut pool) = fresh(16);
    map_address(&mut root, VirtAddr::new(0x1000), 0x2000, &mut pool).unwrap();
    let alias = VirtAddr::new(0x1_0000_0000_1000);
    assert_eq!(get_physical_address(&root, alias, &pool), Some(0x2000));
    assert_eq!(map_address(&mut root, alias, 0x3000, &mut pool), Err(MapError::AlreadyMapped));
}

#[test]
fn a_frame_address_beyond_52_bits_is_cut() {
    let (mut root, mut pool) = fresh(16);
    let v = VirtAddr::new(0x1000);
    let far: u64 = (1 << 52) | 0x2000;
    assert_eq!(map_address(&mut root, v, far, &mut pool), Ok(MapOutcome::Installed));
    assert_eq!(pool.entry(BASE + 0x2000, 1).entry, far | 3);
    assert_eq!(get_physical_address(&root, v, &pool), Some(0x2000));
    assert_eq!(map_address(&mut root, v, far, &mut pool), Err(MapError::AlreadyMapped));
    assert_eq!(map_address(&mut root, v, 0x2000, &mut pool), Ok(MapOutcome::Unchanged));
}

#[test]
fn the_largest_frame_address_is_kept() {
    let (mut root, mut pool) = fresh(16);
    let v = VirtAddr::new(0xffff_ffff_ffff_f000);
    let last: u64 = 0x000f_ffff_ffff_f000;
    assert_eq!(map_address(&mut root, v, last, &mut pool), Ok(MapOutcome::Installed));
    assert_eq!(root.index(511).entry, BASE | 3);
    assert_eq!(get_physical_address(&root, v, &pool), Some(last));
}

#[test]
fn link_new_table_with_a_frame() {
    let mut e = PageTableEntry::new();
    assert_eq!(link_new_table(&mut e, Ok(0x5000), 0), Ok(0x5000));
    assert_eq!(e.entry, 0x5003);
    let mut e = PageTableEntry { entry: 0xdead_0000 };
    assert_eq!(link_new_table(&mut e, Ok(0x5000), 0x10_0000), Ok(0x10_5000));
    assert_eq!(e.entry, 0x5003);
}

#[test]
fn link_new_table_without_a_frame() {
    let mut e = PageTableEntry { entry: 0x40 };
    assert_eq!(link_new_table(&mut e, Err(OutOfMemory), 0), Err(MapError::OutOfMemory));
    assert_eq!(e.entry, 0x40);
}

#[test]
fn align_down_masks_the_low_twelve_bits() {
    assert_eq!(align_down_u64(0), 0);
    assert_eq!(align_down_u64(0x1234), 0x1000);
    assert_eq!(align_down_u64(0x1000), 0x1000);
    assert_eq!(align_down_u64(0x1fff), 0x1000);
    assert_eq!(align_down_u64(0x2000), 0x2000);
    assert_eq!(align_down_u64(u64::MAX), 0xffff_ffff_ffff_f000);
    assert_eq!(align_down(VirtAddr::new(0x1234)), VirtAddr::new(0x1000));
    assert_eq!(align_down(VirtAddr::new(0xffff_8000_0000_0abc)), VirtAddr::new(0xffff_8000_0000_0000));
}

#[test]
fn align_down_gives_the_start_of_the_page() {
    for k in [0u64, 1, 2, 17, 511, 512, 0x7_ffff, 0xf_ffff_ffff_ffff] {
        let start = 4096 * k;
        for within in [0u64, 1, 2047, 2048, 4094, 4095] {
            assert_eq!(align_down_u64(start + within), start);
            assert_eq!(align_down(VirtAddr::new(start + within)).as_u64(), start);
            assert!(align_down(VirtAddr::new(start + within)).is_aligned());
        }
    }
}
