//! The supply of table frames, and the access to the tables it has handed
//! out.

use vstd::prelude::*;
use crate::entry::{PageTableEntry, ADDR_MASK};
use crate::table::{empty_table, PageTable};

verus! {

/// No frame is left for a new table.
#[derive(Clone, Copy, Debug, PartialEq, Eq, Structural)]
pub struct OutOfMemory;

/// A supplier of page-table frames that also gives access to the tables it
/// holds.
///
/// A table is known by the address at which it is accessed. An entry that
/// names the table holds its frame address, which is that address less the
/// offset in use: zero where memory is mapped one to one, the base of the
/// window where all of memory is mapped again further up.
pub trait PageTablesAllocator {
    /// The tables that can be accessed, each under its address. A supplier
    /// that does not say which tables it holds is taken to hold none.
    open spec fn tables(&self) -> Map<u64, Seq<PageTableEntry>> {
        Map::empty()
    }

    /// The frames that the next requests made with `offset` are served
    /// with, in order. The request after the last of them is refused, and
    /// so is every request when there is none. A supplier that does not say
    /// is taken to have none.
    open spec fn supply(&self, offset: u64) -> Seq<u64> {
        Seq::empty()
    }

    /// The number of requests made so far, served or refused.
    open spec fn requests(&self) -> nat {
        0
    }

    /// Hands out a fresh table in which every slot is absent, and returns
    /// its frame address; the table is then accessed at that address plus
    /// `offset`. No other table changes.
    ///
    /// The request is served with the first frame of the supply, which then
    /// leaves the supply. With an empty supply it is refused and nothing
    /// changes but the count of requests.
    fn allocate_page_table(&mut self, offset: u64) -> (frame: Result<u64, OutOfMemory>)
        ensures
            frame == if old(self).supply(offset).len() > 0 {
                Ok::<u64, OutOfMemory>(old(self).supply(offset)[0])
            } else {
                Err::<u64, OutOfMemory>(OutOfMemory)
            },
            final(self).supply(offset) == if frame is Ok {
                old(self).supply(offset).drop_first()
            } else {
                old(self).supply(offset)
            },
            final(self).requests() == old(self).requests() + 1,
            match frame {
                Ok(frame) => {
                    &&& frame % 4096 == 0
                    &&& frame <= ADDR_MASK
                    &&& frame + offset <= u64::MAX
                    &&& !old(self).tables().contains_key((frame + offset) as u64)
                    &&& final(self).tables() == old(self).tables().insert(
                        (frame + offset) as u64,
                        empty_table(),
                    )
                },
                Err(_) => final(self).tables() == old(self).tables(),
            },
    ;

    /// Reads one slot of the table accessed at `table`.
    fn entry(&self, table: u64, index: u16) -> (entry: PageTableEntry)
        requires
            self.tables().contains_key(table),
            index < 512,
        ensures
            entry == self.tables()[table][index as int],
    ;

    /// Writes one slot of the table accessed at `table`. Nothing else
    /// changes, neither a table nor the supply nor the count of requests.
    fn set_entry(&mut self, table: u64, index: u16, entry: PageTableEntry)
        requires
            old(self).tables().contains_key(table),
            index < 512,
        ensures
            final(self).tables() == old(self).tables().insert(
                table,
                old(self).tables()[table].update(index as int, entry),
            ),
            forall|offset: u64| #[trigger] final(self).supply(offset) == old(self).supply(offset),
            final(self).requests() == old(self).requests(),
    ;
}

/// A bounded pool of tables that lie one after the other from a base
/// address on.
///
/// The table in slot `i` is accessed at `base + 4096 * i`. The pool hands out
/// its slots in order and never more than `limit` of them.
pub struct TablePool {
    pub base: u64,
    pub limit: usize,
    pub slots: Vec<PageTable>,
    pub requests: Ghost<nat>,
}

impl TablePool {
    /// Whether one of the tables handed out so far is accessed at `address`.
    pub open spec fn holds(&self, address: u64) -> bool {
        &&& address >= self.base
        &&& (address - self.base) % 4096 == 0
        &&& (address - self.base) / 4096 < self.slots@.len()
    }

    /// The slot of the table accessed at `address`.
    pub open spec fn slot_of(&self, address: u64) -> int {
        (address - self.base) / 4096
    }

    /// Whether a request made with `offset` will be served: a slot is left,
    /// its address fits in 64 bits, and the address less the offset is a
    /// page-aligned frame address.
    pub open spec fn can_allocate(&self, offset: u64) -> bool {
        let address = self.base + 4096 * self.slots@.len();
        &&& self.slots@.len() < self.limit
        &&& address <= u64::MAX
        &&& address >= offset
        &&& (address - offset) % 4096 == 0
        &&& address - offset <= ADDR_MASK
    }

    /// The highest address at which a table can be accessed when its frame
    /// address is to fit into an entry.
    pub open spec fn top(offset: u64) -> int {
        if ADDR_MASK + offset <= u64::MAX {
            ADDR_MASK + offset
        } else {
            u64::MAX as int
        }
    }

    /// The slot at which serving requests made with `offset` ends: the
    /// limit, or the first slot whose address is too high.
    pub open spec fn end(&self, offset: u64) -> int {
        let fitting = (Self::top(offset) - self.base) / 4096 + 1;
        if fitting < self.limit {
            fitting
        } else {
            self.limit as int
        }
    }

    /// An empty pool whose first table will be accessed at `base`.
    pub fn new(base: u64, limit: usize) -> (pool: TablePool)
        ensures
            pool.base == base,
            pool.limit == limit,
            pool.slots@.len() == 0,
            pool.requests@ == 0,
            pool.tables() == Map::<u64, Seq<PageTableEntry>>::empty(),
    {
        let pool = TablePool { base, limit, slots: Vec::new(), requests: Ghost(0) };
        assert(pool.tables() =~= Map::<u64, Seq<PageTableEntry>>::empty());
        pool
    }

    /// The number of tables handed out so far.
    pub fn len(&self) -> (count: usize)
        ensures
            count == self.slots@.len(),
    {
        self.slots.len()
    }
}

impl PageTablesAllocator for TablePool {
    open spec fn tables(&self) -> Map<u64, Seq<PageTableEntry>> {
        Map::new(|address: u64| self.holds(address), |address: u64| self.slots@[self.slot_of(address)]@)
    }

    open spec fn supply(&self, offset: u64) -> Seq<u64> {
        if self.can_allocate(offset) {
            Seq::new(
                (self.end(offset) - self.slots@.len()) as nat,
                |i: int| (self.base + 4096 * (self.slots@.len() + i) - offset) as u64,
            )
        } else {
            Seq::empty()
        }
    }

    open spec fn requests(&self) -> nat {
        self.requests@
    }

    fn allocate_page_table(&mut self, offset: u64) -> (frame: Result<u64, OutOfMemory>)
        ensures
            frame is Ok <==> old(self).can_allocate(offset),
            frame matches Ok(f) ==> f == old(self).base + 4096 * old(self).slots@.len() - offset,
            final(self).base == old(self).base,
            final(self).limit == old(self).limit,
            final(self).slots@.len() == old(self).slots@.len() + if frame is Ok {
                1int
            } else {
                0int
            },
    {
        self.requests = Ghost((self.requests@ + 1) as nat);
        let count: usize = self.slots.len();
        if count >= self.limit {
            return Err(OutOfMemory);
        }
        let room: u64 = (u64::MAX - self.base) / 4096;
        if count as u64 > room {
            return Err(OutOfMemory);
        }
        let address: u64 = self.base + 4096 * (count as u64);
        if address < offset {
            return Err(OutOfMemory);
        }
        let frame: u64 = address - offset;
        if frame % 4096 != 0 || frame > ADDR_MASK {
            return Err(OutOfMemory);
        }
        self.slots.push(PageTable::new());
        assert(self.tables() =~= old(self).tables().insert(address, empty_table()));
        assert(self.supply(offset) =~= old(self).supply(offset).drop_first());
        Ok(frame)
    }

    fn entry(&self, table: u64, index: u16) -> (entry: PageTableEntry) {
        assert(self.holds(table) && self.slots@.len() == self.slots.len());
        let slot: usize = ((table - self.base) / 4096) as usize;
        *self.slots[slot].index(index)
    }

    fn set_entry(&mut self, table: u64, index: u16, entry: PageTableEntry) {
        assert(self.holds(table) && self.slots@.len() == self.slots.len());
        let slot: usize = ((table - self.base) / 4096) as usize;
        *self.slots[slot].index_mut(index) = entry;
        assert(self.tables() =~= old(self).tables().insert(
            table,
            old(self).tables()[table].update(index as int, entry),
        ));
        assert forall|offset: u64| #[trigger] self.supply(offset) == old(self).supply(offset) by {
            assert(self.supply(offset) =~= old(self).supply(offset));
        }
    }
}

} // verus!
