//! One level of the translation tree: 512 entries.

use vstd::prelude::*;
use crate::entry::PageTableEntry;
use crate::flags::PageTableFlags;

verus! {

/// The number of bytes in a page, and in a table.
pub const PAGE_SIZE: u64 = 4096;

/// The number of entries in a table.
pub const ENTRY_COUNT: u16 = 512;

/// A page table. Its view is the sequence of its 512 entries.
#[derive(Clone, Copy)]
pub struct PageTable {
    pub entries: [PageTableEntry; 512],
}

impl View for PageTable {
    type V = Seq<PageTableEntry>;

    open spec fn view(&self) -> Seq<PageTableEntry> {
        self.entries@
    }
}

/// The entries of a table in which every slot is absent and holds no address.
pub open spec fn empty_table() -> Seq<PageTableEntry> {
    Seq::new(512, |i: int| PageTableEntry { entry: 0 })
}

impl PageTable {
    /// A table in which every slot is absent.
    pub fn new() -> (table: PageTable)
        ensures
            table@ == empty_table(),
            forall|i: int| 0 <= i < 512 ==> !(#[trigger] table@[i]).spec_is_present(),
    {
        let blank = PageTableEntry::new();
        let entries = [blank;512];
        proof {
            vstd::array::axiom_spec_array_fill_for_copy_type::<PageTableEntry, 512>(blank);
        }
        let table = PageTable { entries };
        assert(table@ =~= empty_table());
        table
    }

    /// Makes every slot absent again, with no address left in it.
    pub fn clear(&mut self)
        ensures
            final(self)@ == empty_table(),
    {
        let mut i: usize = 0;
        while i < 512
            invariant
                i <= 512,
                forall|j: int| 0 <= j < i ==> (#[trigger] self@[j]).entry == 0,
            decreases 512 - i,
        {
            let ghost before = self@;
            let mut blank = PageTableEntry::new();
            blank.set_addr(0, PageTableFlags::empty());
            assert(0u64 | 0u64 == 0) by (bit_vector);
            self.entries[i] = blank;
            assert(self@ == before.update(i as int, blank));
            i += 1;
        }
        assert(self@ =~= empty_table());
    }

    /// The entry in the given slot.
    pub fn index(&self, index: u16) -> (entry: &PageTableEntry)
        requires
            index < 512,
        ensures
            *entry == self@[index as int],
    {
        &self.entries[index as usize]
    }

    /// The entry in the given slot, to be changed in place.
    pub fn index_mut(&mut self, index: u16) -> (entry: &mut PageTableEntry)
        requires
            index < 512,
        ensures
            *entry == old(self)@[index as int],
            final(self)@ == old(self)@.update(index as int, *final(entry)),
    {
        &mut self.entries[index as usize]
    }
}

} // verus!
