//! The flag set of a page-table entry.

use vstd::prelude::*;

verus! {

/// The bits of an entry that can hold a flag: bits 0 to 11 and 52 to 63.
pub const FLAGS_MASK: u64 = 0xfff0_0000_0000_0fff;

/// A set of entry flags, kept in the bit positions the hardware gives them.
///
/// A set is valid when it has no bit outside [`FLAGS_MASK`]. The named
/// flags and every operation here but a direct write of the field keep a
/// set valid.
#[derive(Clone, Copy, Debug, PartialEq, Eq, Structural)]
pub struct PageTableFlags {
    pub bits: u64,
}

impl PageTableFlags {
    /// The mapped frame or table is loaded in memory.
    pub open spec fn spec_present() -> PageTableFlags {
        PageTableFlags { bits: 0x0000_0000_0000_0001 }
    }

    /// The mapped frame or table is loaded in memory.
    #[verifier::when_used_as_spec(spec_present)]
    pub fn present() -> (flags: PageTableFlags)
        ensures
            flags == Self::spec_present(),
    {
        PageTableFlags { bits: 0x0000_0000_0000_0001 }
    }

    /// Writes through this entry are allowed. Cleared in an entry that names a
    /// table, it makes the whole range below that table read-only.
    pub open spec fn spec_writable() -> PageTableFlags {
        PageTableFlags { bits: 0x0000_0000_0000_0002 }
    }

    /// Writes through this entry are allowed. Cleared in an entry that names a
    /// table, it makes the whole range below that table read-only.
    #[verifier::when_used_as_spec(spec_writable)]
    pub fn writable() -> (flags: PageTableFlags)
        ensures
            flags == Self::spec_writable(),
    {
        PageTableFlags { bits: 0x0000_0000_0000_0002 }
    }

    /// Accesses from user mode are allowed.
    pub open spec fn spec_user_accessible() -> PageTableFlags {
        PageTableFlags { bits: 0x0000_0000_0000_0004 }
    }

    /// Accesses from user mode are allowed.
    #[verifier::when_used_as_spec(spec_user_accessible)]
    pub fn user_accessible() -> (flags: PageTableFlags)
        ensures
            flags == Self::spec_user_accessible(),
    {
        PageTableFlags { bits: 0x0000_0000_0000_0004 }
    }

    /// Writes go straight through the cache to memory.
    pub open spec fn spec_write_through() -> PageTableFlags {
        PageTableFlags { bits: 0x0000_0000_0000_0008 }
    }

    /// Writes go straight through the cache to memory.
    #[verifier::when_used_as_spec(spec_write_through)]
    pub fn write_through() -> (flags: PageTableFlags)
        ensures
            flags == Self::spec_write_through(),
    {
        PageTableFlags { bits: 0x0000_0000_0000_0008 }
    }

    /// The target is not cached at all.
    pub open spec fn spec_no_cache() -> PageTableFlags {
        PageTableFlags { bits: 0x0000_0000_0000_0010 }
    }

    /// The target is not cached at all.
    #[verifier::when_used_as_spec(spec_no_cache)]
    pub fn no_cache() -> (flags: PageTableFlags)
        ensures
            flags == Self::spec_no_cache(),
    {
        PageTableFlags { bits: 0x0000_0000_0000_0010 }
    }

    /// Set by the processor when the target is used.
    pub open spec fn spec_accessed() -> PageTableFlags {
        PageTableFlags { bits: 0x0000_0000_0000_0020 }
    }

    /// Set by the processor when the target is used.
    #[verifier::when_used_as_spec(spec_accessed)]
    pub fn accessed() -> (flags: PageTableFlags)
        ensures
            flags == Self::spec_accessed(),
    {
        PageTableFlags { bits: 0x0000_0000_0000_0020 }
    }

    /// Set by the processor when the mapped frame is written.
    pub open spec fn spec_dirty() -> PageTableFlags {
        PageTableFlags { bits: 0x0000_0000_0000_0040 }
    }

    /// Set by the processor when the mapped frame is written.
    #[verifier::when_used_as_spec(spec_dirty)]
    pub fn dirty() -> (flags: PageTableFlags)
        ensures
            flags == Self::spec_dirty(),
    {
        PageTableFlags { bits: 0x0000_0000_0000_0040 }
    }

    /// The entry maps a huge frame instead of naming a table.
    pub open spec fn spec_huge_page() -> PageTableFlags {
        PageTableFlags { bits: 0x0000_0000_0000_0080 }
    }

    /// The entry maps a huge frame instead of naming a table.
    #[verifier::when_used_as_spec(spec_huge_page)]
    pub fn huge_page() -> (flags: PageTableFlags)
        ensures
            flags == Self::spec_huge_page(),
    {
        PageTableFlags { bits: 0x0000_0000_0000_0080 }
    }

    /// The translation is kept across a switch of address space.
    pub open spec fn spec_global() -> PageTableFlags {
        PageTableFlags { bits: 0x0000_0000_0000_0100 }
    }

    /// The translation is kept across a switch of address space.
    #[verifier::when_used_as_spec(spec_global)]
    pub fn global() -> (flags: PageTableFlags)
        ensures
            flags == Self::spec_global(),
    {
        PageTableFlags { bits: 0x0000_0000_0000_0100 }
    }

    /// Ignored by the processor; free for the kernel's own use.
    pub open spec fn spec_bit_9() -> PageTableFlags {
        PageTableFlags { bits: 0x0000_0000_0000_0200 }
    }

    /// Ignored by the processor; free for the kernel's own use.
    #[verifier::when_used_as_spec(spec_bit_9)]
    pub fn bit_9() -> (flags: PageTableFlags)
        ensures
            flags == Self::spec_bit_9(),
    {
        PageTableFlags { bits: 0x0000_0000_0000_0200 }
    }

    /// Ignored by the processor; free for the kernel's own use.
    pub open spec fn spec_bit_10() -> PageTableFlags {
        PageTableFlags { bits: 0x0000_0000_0000_0400 }
    }

    /// Ignored by the processor; free for the kernel's own use.
    #[verifier::when_used_as_spec(spec_bit_10)]
    pub fn bit_10() -> (flags: PageTableFlags)
        ensures
            flags == Self::spec_bit_10(),
    {
        PageTableFlags { bits: 0x0000_0000_0000_0400 }
    }

    /// Ignored by the processor; free for the kernel's own use.
    pub open spec fn spec_bit_11() -> PageTableFlags {
        PageTableFlags { bits: 0x0000_0000_0000_0800 }
    }

    /// Ignored by the processor; free for the kernel's own use.
    #[verifier::when_used_as_spec(spec_bit_11)]
    pub fn bit_11() -> (flags: PageTableFlags)
        ensures
            flags == Self::spec_bit_11(),
    {
        PageTableFlags { bits: 0x0000_0000_0000_0800 }
    }

    /// Ignored by the processor; free for the kernel's own use.
    pub open spec fn spec_bit_52() -> PageTableFlags {
        PageTableFlags { bits: 0x0010_0000_0000_0000 }
    }

    /// Ignored by the processor; free for the kernel's own use.
    #[verifier::when_used_as_spec(spec_bit_52)]
    pub fn bit_52() -> (flags: PageTableFlags)
        ensures
            flags == Self::spec_bit_52(),
    {
        PageTableFlags { bits: 0x0010_0000_0000_0000 }
    }

    /// Ignored by the processor; free for the kernel's own use.
    pub open spec fn spec_bit_53() -> PageTableFlags {
        PageTableFlags { bits: 0x0020_0000_0000_0000 }
    }

    /// Ignored by the processor; free for the kernel's own use.
    #[verifier::when_used_as_spec(spec_bit_53)]
    pub fn bit_53() -> (flags: PageTableFlags)
        ensures
            flags == Self::spec_bit_53(),
    {
        PageTableFlags { bits: 0x0020_0000_0000_0000 }
    }

    /// Ignored by the processor; free for the kernel's own use.
    pub open spec fn spec_bit_54() -> PageTableFlags {
        PageTableFlags { bits: 0x0040_0000_0000_0000 }
    }

    /// Ignored by the processor; free for the kernel's own use.
    #[verifier::when_used_as_spec(spec_bit_54)]
    pub fn bit_54() -> (flags: PageTableFlags)
        ensures
            flags == Self::spec_bit_54(),
    {
        PageTableFlags { bits: 0x0040_0000_0000_0000 }
    }

    /// Ignored by the processor; free for the kernel's own use.
    pub open spec fn spec_bit_55() -> PageTableFlags {
        PageTableFlags { bits: 0x0080_0000_0000_0000 }
    }

    /// Ignored by the processor; free for the kernel's own use.
    #[verifier::when_used_as_spec(spec_bit_55)]
    pub fn bit_55() -> (flags: PageTableFlags)
        ensures
            flags == Self::spec_bit_55(),
    {
        PageTableFlags { bits: 0x0080_0000_0000_0000 }
    }

    /// Ignored by the processor; free for the kernel's own use.
    pub open spec fn spec_bit_56() -> PageTableFlags {
        PageTableFlags { bits: 0x0100_0000_0000_0000 }
    }

    /// Ignored by the processor; free for the kernel's own use.
    #[verifier::when_used_as_spec(spec_bit_56)]
    pub fn bit_56() -> (flags: PageTableFlags)
        ensures
            flags == Self::spec_bit_56(),
    {
        PageTableFlags { bits: 0x0100_0000_0000_0000 }
    }

    /// Ignored by the processor; free for the kernel's own use.
    pub open spec fn spec_bit_57() -> PageTableFlags {
        PageTableFlags { bits: 0x0200_0000_0000_0000 }
    }

    /// Ignored by the processor; free for the kernel's own use.
    #[verifier::when_used_as_spec(spec_bit_57)]
    pub fn bit_57() -> (flags: PageTableFlags)
        ensures
            flags == Self::spec_bit_57(),
    {
        PageTableFlags { bits: 0x0200_0000_0000_0000 }
    }

    /// Ignored by the processor; free for the kernel's own use.
    pub open spec fn spec_bit_58() -> PageTableFlags {
        PageTableFlags { bits: 0x0400_0000_0000_0000 }
    }

    /// Ignored by the processor; free for the kernel's own use.
    #[verifier::when_used_as_spec(spec_bit_58)]
    pub fn bit_58() -> (flags: PageTableFlags)
        ensures
            flags == Self::spec_bit_58(),
    {
        PageTableFlags { bits: 0x0400_0000_0000_0000 }
    }

    /// Ignored by the processor; free for the kernel's own use.
    pub open spec fn spec_bit_59() -> PageTableFlags {
        PageTableFlags { bits: 0x0800_0000_0000_0000 }
    }

    /// Ignored by the processor; free for the kernel's own use.
    #[verifier::when_used_as_spec(spec_bit_59)]
    pub fn bit_59() -> (flags: PageTableFlags)
        ensures
            flags == Self::spec_bit_59(),
    {
        PageTableFlags { bits: 0x0800_0000_0000_0000 }
    }

    /// Ignored by the processor; free for the kernel's own use.
    pub open spec fn spec_bit_60() -> PageTableFlags {
        PageTableFlags { bits: 0x1000_0000_0000_0000 }
    }

    /// Ignored by the processor; free for the kernel's own use.
    #[verifier::when_used_as_spec(spec_bit_60)]
    pub fn bit_60() -> (flags: PageTableFlags)
        ensures
            flags == Self::spec_bit_60(),
    {
        PageTableFlags { bits: 0x1000_0000_0000_0000 }
    }

    /// Ignored by the processor; free for the kernel's own use.
    pub open spec fn spec_bit_61() -> PageTableFlags {
        PageTableFlags { bits: 0x2000_0000_0000_0000 }
    }

    /// Ignored by the processor; free for the kernel's own use.
    #[verifier::when_used_as_spec(spec_bit_61)]
    pub fn bit_61() -> (flags: PageTableFlags)
        ensures
            flags == Self::spec_bit_61(),
    {
        PageTableFlags { bits: 0x2000_0000_0000_0000 }
    }

    /// Ignored by the processor; free for the kernel's own use.
    pub open spec fn spec_bit_62() -> PageTableFlags {
        PageTableFlags { bits: 0x4000_0000_0000_0000 }
    }

    /// Ignored by the processor; free for the kernel's own use.
    #[verifier::when_used_as_spec(spec_bit_62)]
    pub fn bit_62() -> (flags: PageTableFlags)
        ensures
            flags == Self::spec_bit_62(),
    {
        PageTableFlags { bits: 0x4000_0000_0000_0000 }
    }

    /// Code may not be run from the mapped frames.
    pub open spec fn spec_no_execute() -> PageTableFlags {
        PageTableFlags { bits: 0x8000_0000_0000_0000 }
    }

    /// Code may not be run from the mapped frames.
    #[verifier::when_used_as_spec(spec_no_execute)]
    pub fn no_execute() -> (flags: PageTableFlags)
        ensures
            flags == Self::spec_no_execute(),
    {
        PageTableFlags { bits: 0x8000_0000_0000_0000 }
    }

    /// Whether the set has no bit outside the flag positions.
    pub open spec fn is_valid(&self) -> bool {
        self.bits & FLAGS_MASK == self.bits
    }

    /// The set with no flag in it.
    pub open spec fn spec_empty() -> PageTableFlags {
        PageTableFlags { bits: 0 }
    }

    /// The set with no flag in it.
    #[verifier::when_used_as_spec(spec_empty)]
    pub fn empty() -> (flags: PageTableFlags)
        ensures
            flags == Self::spec_empty(),
            flags.is_valid(),
    {
        assert(0u64 & 0xfff0_0000_0000_0fff == 0) by (bit_vector);
        PageTableFlags { bits: 0 }
    }

    /// The word that holds the set.
    pub fn bits(&self) -> (word: u64)
        ensures
            word == self.bits,
    {
        self.bits
    }

    /// The flags that a word holds. Bits outside the flag positions are
    /// dropped.
    pub open spec fn spec_from_bits_truncate(word: u64) -> PageTableFlags {
        PageTableFlags { bits: word & FLAGS_MASK }
    }

    /// Reads a flag set out of a word, dropping the bits that hold no flag.
    #[verifier::when_used_as_spec(spec_from_bits_truncate)]
    pub fn from_bits_truncate(word: u64) -> (flags: PageTableFlags)
        ensures
            flags == Self::spec_from_bits_truncate(word),
            flags.is_valid(),
    {
        assert((word & 0xfff0_0000_0000_0fff) & 0xfff0_0000_0000_0fff == word
            & 0xfff0_0000_0000_0fff) by (bit_vector);
        PageTableFlags { bits: word & FLAGS_MASK }
    }

    /// Reads a flag set out of a word, or gives `None` when the word has a bit
    /// set that holds no flag.
    pub fn from_bits(word: u64) -> (flags: Option<PageTableFlags>)
        ensures
            flags == if word & FLAGS_MASK == word {
                Some(PageTableFlags { bits: word })
            } else {
                None
            },
    {
        if word & FLAGS_MASK == word {
            Some(PageTableFlags { bits: word })
        } else {
            None
        }
    }

    /// Whether every flag of `other` is also in this set.
    pub open spec fn spec_contains(&self, other: PageTableFlags) -> bool {
        self.bits & other.bits == other.bits
    }

    /// Whether every flag of `other` is also in this set.
    #[verifier::when_used_as_spec(spec_contains)]
    pub fn contains(&self, other: PageTableFlags) -> (all: bool)
        ensures
            all == self.spec_contains(other),
    {
        self.bits & other.bits == other.bits
    }

    /// The flags that are in either set.
    pub open spec fn spec_union(self, other: PageTableFlags) -> PageTableFlags {
        PageTableFlags { bits: self.bits | other.bits }
    }

    /// The flags that are in either set.
    #[verifier::when_used_as_spec(spec_union)]
    pub fn union(self, other: PageTableFlags) -> (both: PageTableFlags)
        ensures
            both == self.spec_union(other),
            self.is_valid() && other.is_valid() ==> both.is_valid(),
    {
        let a: u64 = self.bits;
        let b: u64 = other.bits;
        assert(a & 0xfff0_0000_0000_0fff == a && b & 0xfff0_0000_0000_0fff == b ==> (a | b)
            & 0xfff0_0000_0000_0fff == (a | b)) by (bit_vector);
        PageTableFlags { bits: self.bits | other.bits }
    }
}

} // verus!
