//! Virtual addresses and their decomposition into table indices.

use vstd::prelude::*;

verus! {

/// A 64-bit virtual address.
///
/// Bits 12 to 47 select one slot at each of the four table levels, nine bits
/// per level; bits 0 to 11 are the offset inside the page. Bits 48 to 63 take
/// no part in translation.
#[derive(Clone, Copy, Debug, PartialEq, Eq, Structural)]
pub struct VirtAddr(pub u64);

impl VirtAddr {
    /// Wraps a raw address.
    pub fn new(addr: u64) -> (v: VirtAddr)
        ensures
            v.0 == addr,
    {
        VirtAddr(addr)
    }

    /// The raw address.
    pub fn as_u64(self) -> (addr: u64)
        ensures
            addr == self.0,
    {
        self.0
    }

    /// Whether the address is a multiple of the page size.
    pub open spec fn spec_is_aligned(self) -> bool {
        self.0 % 4096 == 0
    }

    /// Whether the address is a multiple of the page size.
    #[verifier::when_used_as_spec(spec_is_aligned)]
    pub fn is_aligned(self) -> (aligned: bool)
        ensures
            aligned == self.spec_is_aligned(),
    {
        self.0 % 4096 == 0
    }

    /// Bits 39 to 47: the slot in the root table.
    pub open spec fn spec_p4_index(self) -> u16 {
        ((self.0 / 0x80_0000_0000) % 512) as u16
    }

    /// Bits 30 to 38: the slot in the level-3 table.
    pub open spec fn spec_p3_index(self) -> u16 {
        ((self.0 / 0x4000_0000) % 512) as u16
    }

    /// Bits 21 to 29: the slot in the level-2 table.
    pub open spec fn spec_p2_index(self) -> u16 {
        ((self.0 / 0x20_0000) % 512) as u16
    }

    /// Bits 12 to 20: the slot in the level-1 table.
    pub open spec fn spec_p1_index(self) -> u16 {
        ((self.0 / 0x1000) % 512) as u16
    }

    /// Bits 0 to 11: the offset inside the page.
    pub open spec fn spec_page_offset(self) -> u16 {
        (self.0 % 4096) as u16
    }

    /// The slot this address selects in the root table.
    #[verifier::when_used_as_spec(spec_p4_index)]
    pub fn p4_index(self) -> (index: u16)
        ensures
            index == self.spec_p4_index(),
            index < 512,
    {
        let raw: u64 = self.0;
        assert((raw >> 39) & 0x1ff == (raw / 0x80_0000_0000) % 512) by (bit_vector);
        ((raw >> 39) & 0x1ff) as u16
    }

    /// The slot this address selects in the level-3 table.
    #[verifier::when_used_as_spec(spec_p3_index)]
    pub fn p3_index(self) -> (index: u16)
        ensures
            index == self.spec_p3_index(),
            index < 512,
    {
        let raw: u64 = self.0;
        assert((raw >> 30) & 0x1ff == (raw / 0x4000_0000) % 512) by (bit_vector);
        ((raw >> 30) & 0x1ff) as u16
    }

    /// The slot this address selects in the level-2 table.
    #[verifier::when_used_as_spec(spec_p2_index)]
    pub fn p2_index(self) -> (index: u16)
        ensures
            index == self.spec_p2_index(),
            index < 512,
    {
        let raw: u64 = self.0;
        assert((raw >> 21) & 0x1ff == (raw / 0x20_0000) % 512) by (bit_vector);
        ((raw >> 21) & 0x1ff) as u16
    }

    /// The slot this address selects in the level-1 table.
    #[verifier::when_used_as_spec(spec_p1_index)]
    pub fn p1_index(self) -> (index: u16)
        ensures
            index == self.spec_p1_index(),
            index < 512,
    {
        let raw: u64 = self.0;
        assert((raw >> 12) & 0x1ff == (raw / 0x1000) % 512) by (bit_vector);
        ((raw >> 12) & 0x1ff) as u16
    }

    /// The offset of this address inside its page.
    #[verifier::when_used_as_spec(spec_page_offset)]
    pub fn page_offset(self) -> (offset: u16)
        ensures
            offset == self.spec_page_offset(),
            offset < 4096,
    {
        let raw: u64 = self.0;
        assert(raw & 0xfff == raw % 4096) by (bit_vector);
        (raw & 0xfff) as u16
    }

    /// The address made of four table indices and a page offset, each put
    /// at its place.
    pub open spec fn spec_from_parts(p4: u16, p3: u16, p2: u16, p1: u16, offset: u16) -> VirtAddr {
        VirtAddr(
            (p4 * 0x80_0000_0000 + p3 * 0x4000_0000 + p2 * 0x20_0000 + p1 * 0x1000
                + offset) as u64,
        )
    }

    /// Puts four table indices and a page offset together into an address.
    #[verifier::when_used_as_spec(spec_from_parts)]
    pub fn from_parts(p4: u16, p3: u16, p2: u16, p1: u16, offset: u16) -> (v: VirtAddr)
        ensures
            v == Self::spec_from_parts(p4, p3, p2, p1, offset),
    {
        VirtAddr(
            (p4 as u64) * 0x80_0000_0000 + (p3 as u64) * 0x4000_0000 + (p2 as u64) * 0x20_0000 + (
            p1 as u64) * 0x1000 + (offset as u64),
        )
    }

    /// Whether two addresses select the same slot at each of the four levels.
    pub open spec fn same_page(self, other: VirtAddr) -> bool {
        &&& self.spec_p4_index() == other.spec_p4_index()
        &&& self.spec_p3_index() == other.spec_p3_index()
        &&& self.spec_p2_index() == other.spec_p2_index()
        &&& self.spec_p1_index() == other.spec_p1_index()
    }
}

/// Taking an address apart and putting the parts together again keeps its low
/// 48 bits, which are all the bits that translation looks at. An address
/// below 2^48 comes back unchanged.
pub proof fn lemma_parts_round_trip(v: VirtAddr)
    ensures
        VirtAddr::spec_from_parts(
            v.spec_p4_index(),
            v.spec_p3_index(),
            v.spec_p2_index(),
            v.spec_p1_index(),
            v.spec_page_offset(),
        ).0 == v.0 % 0x1_0000_0000_0000,
        v.0 < 0x1_0000_0000_0000 ==> VirtAddr::spec_from_parts(
            v.spec_p4_index(),
            v.spec_p3_index(),
            v.spec_p2_index(),
            v.spec_p1_index(),
            v.spec_page_offset(),
        ) == v,
{
    let raw: u64 = v.0;
    let p4: u64 = (raw / 0x80_0000_0000) % 512;
    let p3: u64 = (raw / 0x4000_0000) % 512;
    let p2: u64 = (raw / 0x20_0000) % 512;
    let p1: u64 = (raw / 0x1000) % 512;
    let offset: u64 = raw % 4096;
    assert(p4 * 0x80_0000_0000 + p3 * 0x4000_0000 + p2 * 0x20_0000 + p1 * 0x1000 + offset == raw
        % 0x1_0000_0000_0000) by (bit_vector)
        requires
            p4 == (raw / 0x80_0000_0000) % 512,
            p3 == (raw / 0x4000_0000) % 512,
            p2 == (raw / 0x20_0000) % 512,
            p1 == (raw / 0x1000) % 512,
            offset == raw % 4096,
    ;
}

/// The indices that come out of an address built from parts are the parts
/// that went in, as long as each part is in range.
pub proof fn lemma_from_parts_indices(p4: u16, p3: u16, p2: u16, p1: u16, offset: u16)
    requires
        p4 < 512,
        p3 < 512,
        p2 < 512,
        p1 < 512,
        offset < 4096,
    ensures
        VirtAddr::spec_from_parts(p4, p3, p2, p1, offset).spec_p4_index() == p4,
        VirtAddr::spec_from_parts(p4, p3, p2, p1, offset).spec_p3_index() == p3,
        VirtAddr::spec_from_parts(p4, p3, p2, p1, offset).spec_p2_index() == p2,
        VirtAddr::spec_from_parts(p4, p3, p2, p1, offset).spec_p1_index() == p1,
        VirtAddr::spec_from_parts(p4, p3, p2, p1, offset).spec_page_offset() == offset,
        VirtAddr::spec_from_parts(p4, p3, p2, p1, offset).0 < 0x1_0000_0000_0000,
{
    let raw: u64 = VirtAddr::spec_from_parts(p4, p3, p2, p1, offset).0;
    let a: u64 = p4 as u64;
    let b: u64 = p3 as u64;
    let c: u64 = p2 as u64;
    let d: u64 = p1 as u64;
    let e: u64 = offset as u64;
    assert(raw == a * 0x80_0000_0000 + b * 0x4000_0000 + c * 0x20_0000 + d * 0x1000 + e);
    assert((raw / 0x80_0000_0000) % 512 == a && (raw / 0x4000_0000) % 512 == b && (raw
        / 0x20_0000) % 512 == c && (raw / 0x1000) % 512 == d && raw % 4096 == e && raw
        < 0x1_0000_0000_0000) by (bit_vector)
        requires
            raw == a * 0x80_0000_0000 + b * 0x4000_0000 + c * 0x20_0000 + d * 0x1000 + e,
            a < 512,
            b < 512,
            c < 512,
            d < 512,
            e < 4096,
    ;
}

/// Two page-aligned addresses below 2^48 that select the same four slots are
/// the same address.
pub proof fn lemma_same_page_same_address(v: VirtAddr, w: VirtAddr)
    requires
        v.same_page(w),
        v.spec_is_aligned(),
        w.spec_is_aligned(),
        v.0 < 0x1_0000_0000_0000,
        w.0 < 0x1_0000_0000_0000,
    ensures
        v == w,
{
    lemma_parts_round_trip(v);
    lemma_parts_round_trip(w);
}

} // verus!
