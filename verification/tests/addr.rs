use shared_lib::addr::VirtAddr;

#[test]
fn indices_of_a_low_page() {
    let v = VirtAddr::new(0x1000);
    assert_eq!(v.p4_index(), 0);
    assert_eq!(v.p3_index(), 0);
    assert_eq!(v.p2_index(), 0);
    assert_eq!(v.p1_index(), 1);
    assert_eq!(v.page_offset(), 0);
}

#[test]
fn indices_of_a_mixed_address() {
    let raw: u64 = (5 << 39) | (6 << 30) | (7 << 21) | (8 << 12) | 0x123;
    let v = VirtAddr::new(raw);
    assert_eq!(v.p4_index(), 5);
    assert_eq!(v.p3_index(), 6);
    assert_eq!(v.p2_index(), 7);
    assert_eq!(v.p1_index(), 8);
    assert_eq!(v.page_offset(), 0x123);
    assert_eq!(v.as_u64(), raw);
}

#[test]
fn indices_of_the_higher_half_base() {
    let v = VirtAddr::new(0xffff_8000_0000_0000);
    assert_eq!(v.p4_index(), 256);
    assert_eq!(v.p3_index(), 0);
    assert_eq!(v.p2_index(), 0);
    assert_eq!(v.p1_index(), 0);
}

#[test]
fn indices_are_at_most_511() {
    let v = VirtAddr::new(u64::MAX);
    assert_eq!(v.p4_index(), 511);
    assert_eq!(v.p3_index(), 511);
    assert_eq!(v.p2_index(), 511);
    assert_eq!(v.p1_index(), 511);
    assert_eq!(v.page_offset(), 4095);
}

#[test]
fn from_parts_places_each_part() {
    let v = VirtAddr::from_parts(1, 2, 3, 4, 5);
    assert_eq!(v.as_u64(), (1 << 39) | (2 << 30) | (3 << 21) | (4 << 12) | 5);
    assert_eq!(VirtAddr::from_parts(0, 0, 0, 1, 0), VirtAddr::new(0x1000));
    assert_eq!(VirtAddr::from_parts(511, 511, 511, 511, 4095).as_u64(), 0xffff_ffff_ffff);
}

fn rebuilt(raw: u64) -> u64 {
    let v = VirtAddr::new(raw);
    VirtAddr::from_parts(v.p4_index(), v.p3_index(), v.p2_index(), v.p1_index(), v.page_offset())
        .as_u64()
}

#[test]
fn parts_round_trip_below_two_to_the_48() {
    for raw in [
        0u64,
        0x1000,
        0x2000,
        0x1234_5678_9000,
        0x7fff_ffff_f000,
        0xffff_ffff_f000,
        0x0000_8000_0000_0000,
        0xffff_ffff_ffff,
        0x1234_5678_9abc,
    ] {
        assert_eq!(rebuilt(raw), raw);
    }
}

#[test]
fn parts_round_trip_keeps_the_low_48_bits_only() {
    assert_eq!(rebuilt(0x1_0000_0000_0000), 0);
    assert_eq!(rebuilt(0xffff_8000_0000_1000), 0x8000_0000_1000);
    assert_eq!(rebuilt(u64::MAX), 0xffff_ffff_ffff);
}

#[test]
fn alignment_of_addresses() {
    assert!(VirtAddr::new(0).is_aligned());
    assert!(VirtAddr::new(0x1000).is_aligned());
    assert!(VirtAddr::new(0xffff_ffff_ffff_f000).is_aligned());
    assert!(!VirtAddr::new(0x1001).is_aligned());
    assert!(!VirtAddr::new(0xfff).is_aligned());
    assert!(!VirtAddr::new(0x1800).is_aligned());
}
