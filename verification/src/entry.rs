//! One slot of a page table: a frame address and a flag set packed into a
//! 64-bit hardware word.

use vstd::prelude::*;
use crate::flags::{PageTableFlags, FLAGS_MASK};

verus! {

/// The bits of an entry that hold the frame address: bits 12 to 51.
pub const ADDR_MASK: u64 = 0x000f_ffff_ffff_f000;

/// A page-table entry. Every 64-bit word is an entry; one whose present
/// flag is clear names nothing.
#[derive(Clone, Copy, Debug, PartialEq, Eq, Structural)]
pub struct PageTableEntry {
    pub entry: u64,
}

impl PageTableEntry {
    /// The entry that `set_addr` leaves behind: the address with the flag
    /// bits laid over it.
    pub open spec fn spec_with(addr: u64, flags: PageTableFlags) -> PageTableEntry {
        PageTableEntry { entry: addr | flags.bits }
    }

    /// The flags of the entry: its word without the address bits.
    pub open spec fn spec_flags(&self) -> PageTableFlags {
        PageTableFlags { bits: self.entry & FLAGS_MASK }
    }

    /// Whether the present flag is set.
    pub open spec fn spec_is_present(&self) -> bool {
        self.entry & 1 != 0
    }

    /// The frame address of the entry: its word without the flag bits.
    pub open spec fn spec_addr(&self) -> u64 {
        self.entry & ADDR_MASK
    }

    /// An absent entry with no address.
    pub fn new() -> (e: PageTableEntry)
        ensures
            e.entry == 0,
            !e.spec_is_present(),
    {
        assert(0u64 & 1 == 0) by (bit_vector);
        PageTableEntry { entry: 0 }
    }

    /// Replaces the whole entry by the given frame address and flags.
    pub fn set_addr(&mut self, addr: u64, flags: PageTableFlags)
        requires
            addr % 4096 == 0,
        ensures
            *final(self) == Self::spec_with(addr, flags),
            final(self).spec_is_present() == flags.spec_contains(PageTableFlags::spec_present()),
            flags.is_valid() ==> final(self).spec_addr() == addr & ADDR_MASK,
            flags.is_valid() && addr <= ADDR_MASK ==> final(self).spec_addr() == addr,
            flags.is_valid() && addr <= ADDR_MASK ==> final(self).spec_flags() == flags,
    {
        proof {
            lemma_entry_with(addr, flags);
        }
        self.entry = addr | flags.bits();
    }

    /// The flags of this entry.
    #[verifier::when_used_as_spec(spec_flags)]
    pub fn flags(&self) -> (flags: PageTableFlags)
        ensures
            flags == self.spec_flags(),
            flags.is_valid(),
    {
        PageTableFlags::from_bits_truncate(self.entry)
    }

    /// Whether the present flag is set.
    #[verifier::when_used_as_spec(spec_is_present)]
    pub fn is_present(&self) -> (present: bool)
        ensures
            present == self.spec_is_present(),
            present == self.spec_flags().spec_contains(PageTableFlags::spec_present()),
    {
        let word: u64 = self.entry;
        assert(((word & 0xfff0_0000_0000_0fff) & 1 == 1) == (word & 1 != 0)) by (bit_vector);
        self.flags().contains(PageTableFlags::present())
    }

    /// The frame address held by this entry. It means something only when
    /// the entry is present.
    #[verifier::when_used_as_spec(spec_addr)]
    pub fn addr(&self) -> (addr: u64)
        ensures
            addr == self.spec_addr(),
            addr % 4096 == 0,
            addr <= ADDR_MASK,
    {
        let word: u64 = self.entry;
        assert((word & 0x000f_ffff_ffff_f000) % 4096 == 0 && (word & 0x000f_ffff_ffff_f000)
            <= 0x000f_ffff_ffff_f000) by (bit_vector);
        self.entry & 0x000f_ffff_ffff_f000
    }
}

/// What can be read back from an entry made of a page-aligned address and a
/// flag set.
///
/// The present flag is the one that was given. With a valid flag set the
/// address read back is the given one cut to the address bits; when the
/// given address has no other bits, address and flags both come back as
/// given.
pub proof fn lemma_entry_with(addr: u64, flags: PageTableFlags)
    requires
        addr % 4096 == 0,
    ensures
        PageTableEntry::spec_with(addr, flags).spec_is_present() == flags.spec_contains(
            PageTableFlags::spec_present(),
        ),
        flags.is_valid() ==> PageTableEntry::spec_with(addr, flags).spec_addr() == addr
            & ADDR_MASK,
        flags.is_valid() && addr <= ADDR_MASK ==> PageTableEntry::spec_with(
            addr,
            flags,
        ).spec_addr() == addr && PageTableEntry::spec_with(addr, flags).spec_flags() == flags,
{
    let f: u64 = flags.bits;
    assert(((addr | f) & 1 != 0) == (f & 1 == 1)) by (bit_vector)
        requires
            addr % 4096 == 0,
    ;
    assert(f & 0xfff0_0000_0000_0fff == f ==> (addr | f) & 0x000f_ffff_ffff_f000 == addr
        & 0x000f_ffff_ffff_f000) by (bit_vector);
    assert(f & 0xfff0_0000_0000_0fff == f && addr <= 0x000f_ffff_ffff_f000 ==> (addr | f)
        & 0x000f_ffff_ffff_f000 == addr && (addr | f) & 0xfff0_0000_0000_0fff == f)
        by (bit_vector)
        requires
            addr % 4096 == 0,
    ;
}

/// The present and writable entry that names `addr`. The engine writes no
/// other kind of entry.
pub open spec fn entry_for(addr: u64) -> PageTableEntry {
    PageTableEntry::spec_with(
        addr,
        PageTableFlags::spec_present().spec_union(PageTableFlags::spec_writable()),
    )
}

/// An entry written for a page-aligned address is present, and holds the
/// address as far as it fits into the address bits.
pub proof fn lemma_entry_for(addr: u64)
    requires
        addr % 4096 == 0,
    ensures
        entry_for(addr).spec_is_present(),
        entry_for(addr).spec_addr() == addr % 0x10_0000_0000_0000,
        addr <= ADDR_MASK ==> entry_for(addr).spec_addr() == addr,
{
    let flags = PageTableFlags::spec_present().spec_union(PageTableFlags::spec_writable());
    assert((1u64 | 2u64) & 0xfff0_0000_0000_0fff == (1u64 | 2u64)) by (bit_vector);
    assert((1u64 | 2u64) & 1u64 == 1u64) by (bit_vector);
    assert(flags.is_valid());
    lemma_entry_with(addr, flags);
    assert(addr & 0x000f_ffff_ffff_f000 == addr % 0x10_0000_0000_0000) by (bit_vector)
        requires
            addr % 4096 == 0,
    ;
}

} // verus!
