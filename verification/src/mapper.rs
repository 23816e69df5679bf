//! The engine that installs a mapping into a translation tree and the
//! read-only walk that resolves one.

use vstd::prelude::*;
use crate::addr::VirtAddr;
use crate::allocator::{OutOfMemory, PageTablesAllocator};
use crate::entry::{entry_for, lemma_entry_for, PageTableEntry, ADDR_MASK};
use crate::flags::PageTableFlags;
use crate::table::{empty_table, PageTable};
use crate::tree::{
    lemma_empty_table_absent, lemma_extended_twice, lemma_grown_twice, lemma_link_l2,
    lemma_link_l3, lemma_link_root, lemma_write_leaf, TableTree,
};

verus! {

/// Why a mapping was not installed.
#[derive(Clone, Copy, Debug, PartialEq, Eq, Structural)]
pub enum MapError {
    /// The virtual address is not a multiple of the page size.
    UnalignedVirtual,
    /// The physical address is not a multiple of the page size.
    UnalignedPhysical,
    /// A table was missing on the walk and no frame was left for it.
    OutOfMemory,
    /// The page is mapped to another frame already.
    AlreadyMapped,
}

/// What a successful installation did to the leaf entry.
#[derive(Clone, Copy, Debug, PartialEq, Eq, Structural)]
pub enum MapOutcome {
    /// The leaf entry was absent and now maps the page.
    Installed,
    /// The page was mapped to the requested frame already; nothing was
    /// written.
    Unchanged,
    /// The page was mapped to another frame and now maps the requested one.
    /// A translation cached for the page is stale and has to be invalidated.
    Replaced,
}

/// What to do with a page that is mapped to another frame already.
#[derive(Clone, Copy, Debug, PartialEq, Eq, Structural)]
pub enum MappingMode {
    /// Refuse.
    CheckFrameIsFree,
    /// Overwrite the mapping.
    Remapping,
}

/// The tree that hangs off `root`, with its tables in `allocator`, seen
/// through `offset`.
pub open spec fn tree_of<A: PageTablesAllocator>(
    root: PageTable,
    allocator: A,
    offset: u64,
) -> TableTree {
    TableTree { root: root@, tables: allocator.tables(), offset }
}

/// A tree together with what its allocator has in store: the frames that
/// the next requests will be served with, and the number of requests made so
/// far.
pub struct Space {
    pub tree: TableTree,
    pub supply: Seq<u64>,
    pub requests: nat,
}

/// The tree that hangs off `root`, with its tables in `allocator`, seen
/// through `offset`, and what `allocator` has in store for that offset.
pub open spec fn space_of<A: PageTablesAllocator>(
    root: PageTable,
    allocator: A,
    offset: u64,
) -> Space {
    Space {
        tree: tree_of(root, allocator, offset),
        supply: allocator.supply(offset),
        requests: allocator.requests(),
    }
}

impl Space {
    /// Whether the supply holds a frame for each table that the walk for
    /// `virt` lacks.
    pub open spec fn enough(self, virt: VirtAddr) -> bool {
        self.supply.len() >= self.tree.missing(virt)
    }

    /// The number of frames that the descent for `virt` takes: one for each
    /// table that the walk lacks, as far as the supply goes.
    pub open spec fn taken(self, virt: VirtAddr) -> nat {
        if self.enough(virt) {
            self.tree.missing(virt)
        } else {
            self.supply.len()
        }
    }

    /// The number of requests that the descent for `virt` makes: one for
    /// each table that the walk lacks, up to and including the first that is
    /// refused.
    pub open spec fn asked(self, virt: VirtAddr) -> nat {
        if self.enough(virt) {
            self.tree.missing(virt)
        } else {
            self.supply.len() + 1
        }
    }

    /// What the descent to the level-1 table for `virt` leaves behind.
    pub open spec fn descended(self, virt: VirtAddr) -> Space {
        Space {
            tree: self.tree.descended(virt, self.supply),
            supply: self.supply.skip(self.taken(virt) as int),
            requests: self.requests + self.asked(virt),
        }
    }

    /// What an installation of `virt -> phys` leaves behind, and what it
    /// returns.
    ///
    /// A misaligned address is refused before anything is touched. Otherwise
    /// the descent creates the tables that the walk lacks. Where the supply
    /// runs out on the way, that is the result, and what the descent linked
    /// stays. Where the walk is complete the leaf entry decides: an absent
    /// entry is written; a present entry with the requested address is left
    /// alone; a present entry with another address is refused in the
    /// checking mode and overwritten in the remapping mode.
    pub open spec fn install(self, virt: VirtAddr, phys: u64, mode: MappingMode) -> (
        Space,
        Result<MapOutcome, MapError>,
    ) {
        if !virt.spec_is_aligned() {
            (self, Err(MapError::UnalignedVirtual))
        } else if phys % 4096 != 0 {
            (self, Err(MapError::UnalignedPhysical))
        } else if !self.enough(virt) {
            (self.descended(virt), Err(MapError::OutOfMemory))
        } else {
            let ready = self.descended(virt);
            let leaf = ready.tree.l1_entry(virt).unwrap();
            if leaf.spec_is_present() && leaf.spec_addr() == phys {
                (ready, Ok(MapOutcome::Unchanged))
            } else if leaf.spec_is_present() && mode == MappingMode::CheckFrameIsFree {
                (ready, Err(MapError::AlreadyMapped))
            } else {
                (
                    Space { tree: ready.tree.set_leaf(virt, entry_for(phys)), ..ready },
                    Ok(
                        if leaf.spec_is_present() {
                            MapOutcome::Replaced
                        } else {
                            MapOutcome::Installed
                        },
                    ),
                )
            }
        }
    }
}

/// What the descent to the level-1 table for `virt` does, and what it
/// returns.
///
/// The state afterwards is [`Space::descended`]. With enough frames the
/// walk is complete and its level-1 table is returned; a level-1 table that
/// is new has a blank leaf entry. Otherwise the result is the refusal, and
/// the walk still ends above the leaf level. Either way the tree is well
/// formed and has only grown.
pub open spec fn descends(
    pre: Space,
    post: Space,
    virt: VirtAddr,
    table: Result<u64, MapError>,
) -> bool {
    &&& post == pre.descended(virt)
    &&& post.tree.well_formed()
    &&& pre.tree.grown_to(post.tree, virt)
    &&& if pre.enough(virt) {
        &&& post.tree.l1_table(virt) is Some
        &&& table == Ok::<u64, MapError>(post.tree.l1_table(virt).unwrap())
        &&& pre.tree.missing(virt) == 0 ==> post.tree == pre.tree
        &&& pre.tree.missing(virt) > 0 ==> post.tree.l1_entry(virt) == Some(
            PageTableEntry { entry: 0 },
        )
    } else {
        &&& post.tree.l1_table(virt) is None
        &&& table == Err::<u64, MapError>(MapError::OutOfMemory)
    }
}

/// What an installation of `virt -> phys` does, and what it returns.
///
/// The state afterwards and the result are those of [`Space::install`]: a
/// function of the state before, the addresses and the mode. What follows
/// from it for a well-formed tree and aligned addresses is stated beside it:
/// - the tree stays well formed, and every table stays on the walk it was
///   on;
/// - a slot differs from what it was only where [`TableTree::extended_to`]
///   allows: a new link on the walk, or the leaf entry;
/// - the walk is complete afterwards exactly when the supply was enough, a
///   walk that had to be completed ends in a leaf entry that is written, and
///   a written leaf entry is the present and writable entry for `phys`;
/// - on success the aligned addresses that select the same four slots as
///   `virt` translate to `phys`, cut to the 52 bits that an entry can hold;
/// - every other translation is what it was, whatever the result.
pub open spec fn installs(
    pre: Space,
    post: Space,
    virt: VirtAddr,
    phys: u64,
    mode: MappingMode,
    result: Result<MapOutcome, MapError>,
) -> bool {
    &&& post == pre.install(virt, phys, mode).0
    &&& result == pre.install(virt, phys, mode).1
    &&& virt.spec_is_aligned() && phys % 4096 == 0 ==> {
        &&& post.tree.well_formed()
        &&& pre.tree.extended_to(post.tree, virt)
        &&& pre.enough(virt) <==> post.tree.l1_table(virt) is Some
        &&& pre.enough(virt) && pre.tree.missing(virt) > 0 ==> result == Ok::<
            MapOutcome,
            MapError,
        >(MapOutcome::Installed)
        &&& result == Ok::<MapOutcome, MapError>(MapOutcome::Installed) || result == Ok::<
            MapOutcome,
            MapError,
        >(MapOutcome::Replaced) ==> post.tree.l1_entry(virt) == Some(entry_for(phys))
        &&& post.tree.translate(virt) == if result is Ok {
            Some((phys % 0x10_0000_0000_0000) as u64)
        } else {
            pre.tree.translate(virt)
        }
        &&& forall|w: VirtAddr| #[trigger]
            post.tree.translate(w) == if result is Ok && w.same_page(virt) && w.spec_is_aligned() {
                Some((phys % 0x10_0000_0000_0000) as u64)
            } else {
                pre.tree.translate(w)
            }
    }
}

/// The flags of every entry that the engine writes: present and writable.
fn table_flags() -> (flags: PageTableFlags)
    ensures
        flags == PageTableFlags::spec_present().spec_union(PageTableFlags::spec_writable()),
{
    PageTableFlags::present().union(PageTableFlags::writable())
}

/// Finishes the creation of a table from what the allocator answered.
///
/// With a frame, the entry is made to name it and the address at which the
/// new table is accessed is returned. Without one, the entry is left as it
/// is and the failure is passed on.
pub fn link_new_table(
    page_table_entry: &mut PageTableEntry,
    allocated: Result<u64, OutOfMemory>,
    offset: u64,
) -> (table: Result<u64, MapError>)
    requires
        allocated matches Ok(frame) ==> frame % 4096 == 0 && frame + offset <= u64::MAX,
    ensures
        match allocated {
            Ok(frame) => table == Ok::<u64, MapError>((frame + offset) as u64) && *final(page_table_entry) == entry_for(frame),
            Err(_) => table == Err::<u64, MapError>(MapError::OutOfMemory) && *final(page_table_entry) == *old(page_table_entry),
        },
{
    match allocated {
        Ok(frame) => {
            page_table_entry.set_addr(frame, table_flags());
            Ok(frame + offset)
        },
        Err(_) => Err(MapError::OutOfMemory),
    }
}

/// The address at which the table named by an entry is accessed. Where the
/// entry is absent, a new table is requested and the entry made to name it.
fn create_next_table<A: PageTablesAllocator>(
    page_table_entry: &mut PageTableEntry,
    page_tables_allocator: &mut A,
    offset: u64,
) -> (table: Result<u64, MapError>)
    requires
        old(page_table_entry).spec_is_present() ==> old(page_table_entry).spec_addr() + offset
            <= u64::MAX,
    ensures
        old(page_table_entry).spec_is_present() ==> {
            &&& table == Ok::<u64, MapError>((old(page_table_entry).spec_addr() + offset) as u64)
            &&& *final(page_table_entry) == *old(page_table_entry)
            &&& final(page_tables_allocator).tables() == old(page_tables_allocator).tables()
            &&& final(page_tables_allocator).supply(offset) == old(page_tables_allocator).supply(
                offset,
            )
            &&& final(page_tables_allocator).requests() == old(page_tables_allocator).requests()
        },
        !old(page_table_entry).spec_is_present() ==> {
            &&& final(page_tables_allocator).requests() == old(page_tables_allocator).requests()
                + 1
            &&& table is Ok <==> old(page_tables_allocator).supply(offset).len() > 0
            &&& final(page_tables_allocator).supply(offset) == if table is Ok {
                old(page_tables_allocator).supply(offset).drop_first()
            } else {
                old(page_tables_allocator).supply(offset)
            }
        },
        !old(page_table_entry).spec_is_present() ==> match table {
            Ok(t) => {
                &&& t == old(page_tables_allocator).supply(offset)[0] + offset
                &&& t >= offset
                &&& (t - offset) % 4096 == 0
                &&& t - offset <= ADDR_MASK
                &&& !old(page_tables_allocator).tables().contains_key(t)
                &&& final(page_tables_allocator).tables() == old(page_tables_allocator).tables().insert(t, empty_table())
                &&& *final(page_table_entry) == entry_for((t - offset) as u64)
            },
            Err(e) => {
                &&& e == MapError::OutOfMemory
                &&& *final(page_table_entry) == *old(page_table_entry)
                &&& final(page_tables_allocator).tables() == old(page_tables_allocator).tables()
            },
        },
{
    if page_table_entry.is_present() {
        Ok(page_table_entry.addr() + offset)
    } else {
        let allocated = page_tables_allocator.allocate_page_table(offset);
        link_new_table(page_table_entry, allocated, offset)
    }
}

/// Walks from the root to the level-1 table for `virt`, creating each table
/// that is missing on the way, and returns the address at which that table
/// is accessed.
fn descend<A: PageTablesAllocator>(
    l4_page_table: &mut PageTable,
    virt: VirtAddr,
    page_tables_allocator: &mut A,
    offset: u64,
) -> (table: Result<u64, MapError>)
    requires
        tree_of(*old(l4_page_table), *old(page_tables_allocator), offset).well_formed(),
    ensures
        descends(
            space_of(*old(l4_page_table), *old(page_tables_allocator), offset),
            space_of(*final(l4_page_table), *final(page_tables_allocator), offset),
            virt,
            table,
        ),
{
    let ghost pre = space_of(*l4_page_table, *page_tables_allocator, offset);
    let ghost frames = pre.supply;
    proof {
        assert(pre.tree.walkable(virt));
        assert(pre.tree.grown_to(pre.tree, virt));
        assert(frames.skip(0) =~= frames);
    }

    let p4: u16 = virt.p4_index();
    let mut l4_entry: PageTableEntry = *l4_page_table.index(p4);
    let l3_missing: bool = !l4_entry.is_present();
    let l3_table: u64 = match create_next_table(&mut l4_entry, page_tables_allocator, offset) {
        Ok(t) => t,
        Err(e) => {
            return Err(e);
        },
    };
    if l3_missing {
        *l4_page_table.index_mut(p4) = l4_entry;
        proof {
            lemma_entry_for(frames[0]);
            lemma_link_root(pre.tree, virt, l4_entry, l3_table);
            lemma_empty_table_absent(virt.spec_p3_index() as int);
            let linked = pre.tree.link_l3(virt, frames[0]);
            assert(tree_of(*l4_page_table, *page_tables_allocator, offset) == linked);
            assert(frames.drop_first() =~= frames.skip(1));
        }
    }
    let ghost at3 = space_of(*l4_page_table, *page_tables_allocator, offset);
    let ghost taken3: int = if l3_missing { 1 } else { 0 };
    assert(at3.tree.well_formed());
    assert(pre.tree.grown_to(at3.tree, virt));
    assert(at3.tree.l3_table(virt) == Some(l3_table));
    assert(at3.tree == if l3_missing { pre.tree.link_l3(virt, frames[0]) } else { pre.tree });
    assert(l3_missing ==> at3.tree.tables[l3_table] == empty_table());
    assert(at3.supply == frames.skip(taken3));
    assert(at3.requests == pre.requests + taken3);

    let p3: u16 = virt.p3_index();
    let mut l3_entry: PageTableEntry = page_tables_allocator.entry(l3_table, p3);
    let l2_missing: bool = !l3_entry.is_present();
    proof {
        assert(at3.tree.walkable(virt));
        assert(at3.tree.l3_entry(virt) == Some(l3_entry));
        assert(pre.tree.kept_in(at3.tree, virt));
        assert(l3_missing ==> l2_missing);
        assert(frames.skip(taken3).len() > 0 ==> frames.skip(taken3)[0] == frames[taken3]);
    }
    let l2_table: u64 = match create_next_table(&mut l3_entry, page_tables_allocator, offset) {
        Ok(t) => t,
        Err(e) => {
            proof {
                assert(frames.len() == taken3);
                assert(at3.tree == pre.tree.descended(virt, frames));
            }
            return Err(e);
        },
    };
    if l2_missing {
        page_tables_allocator.set_entry(l3_table, p3, l3_entry);
        proof {
            lemma_entry_for(frames[taken3]);
            lemma_link_l3(at3.tree, virt, l3_entry, l2_table);
            lemma_empty_table_absent(virt.spec_p2_index() as int);
            let linked = at3.tree.link_l2(virt, frames[taken3]);
            assert(tree_of(*l4_page_table, *page_tables_allocator, offset) == linked);
            lemma_grown_twice(pre.tree, at3.tree, linked, virt);
            assert(frames.skip(taken3).drop_first() =~= frames.skip(taken3 + 1));
        }
    }
    let ghost at2 = space_of(*l4_page_table, *page_tables_allocator, offset);
    let ghost taken2: int = if l2_missing { taken3 + 1 } else { taken3 };
    assert(at2.tree.well_formed());
    assert(pre.tree.grown_to(at2.tree, virt));
    assert(at2.tree.l2_table(virt) == Some(l2_table));
    assert(at2.tree == if l2_missing { at3.tree.link_l2(virt, frames[taken3]) } else { at3.tree });
    assert(l2_missing ==> at2.tree.tables[l2_table] == empty_table());
    assert(at2.supply == frames.skip(taken2));
    assert(at2.requests == pre.requests + taken2);

    let p2: u16 = virt.p2_index();
    let mut l2_entry: PageTableEntry = page_tables_allocator.entry(l2_table, p2);
    let l1_missing: bool = !l2_entry.is_present();
    proof {
        assert(at2.tree.walkable(virt));
        assert(at2.tree.l2_entry(virt) == Some(l2_entry));
        assert(pre.tree.kept_in(at2.tree, virt));
        assert(l2_missing ==> l1_missing);
        assert(at2.tree.missing(virt) > 0 <==> l1_missing);
        assert(frames.skip(taken2).len() > 0 ==> frames.skip(taken2)[0] == frames[taken2]);
    }
    let l1_table: u64 = match create_next_table(&mut l2_entry, page_tables_allocator, offset) {
        Ok(t) => t,
        Err(e) => {
            proof {
                assert(frames.len() == taken2);
                assert(at2.tree == pre.tree.descended(virt, frames));
            }
            return Err(e);
        },
    };
    if l1_missing {
        page_tables_allocator.set_entry(l2_table, p2, l2_entry);
        proof {
            lemma_entry_for(frames[taken2]);
            lemma_link_l2(at2.tree, virt, l2_entry, l1_table);
            lemma_empty_table_absent(virt.spec_p1_index() as int);
            let linked = at2.tree.link_l1(virt, frames[taken2]);
            assert(tree_of(*l4_page_table, *page_tables_allocator, offset) == linked);
            lemma_grown_twice(pre.tree, at2.tree, linked, virt);
            assert(frames.skip(taken2).drop_first() =~= frames.skip(taken2 + 1));
        }
    }
    let ghost at1 = space_of(*l4_page_table, *page_tables_allocator, offset);
    let ghost taken1: int = if l1_missing { taken2 + 1 } else { taken2 };
    assert(at1.tree.well_formed());
    assert(pre.tree.grown_to(at1.tree, virt));
    assert(at1.tree.l1_table(virt) == Some(l1_table));
    assert(at1.tree == if l1_missing { at2.tree.link_l1(virt, frames[taken2]) } else { at2.tree });
    assert(l1_missing ==> at1.tree.tables[l1_table] == empty_table());
    assert(at1.supply == frames.skip(taken1));
    assert(at1.requests == pre.requests + taken1);
    assert(pre.tree.kept_in(at1.tree, virt));
    assert(pre.tree.missing(virt) == taken1);
    assert(at1.tree == pre.tree.descended(virt, frames));
    Ok(l1_table)
}

/// Installs the mapping `virt -> phys` in the tree under `l4_page_table`,
/// whose tables are accessed through `offset`.
///
/// The walk goes from the root down to the leaf entry and creates each table
/// that is missing on the way. What happens at the leaf entry depends on
/// `mapping_mode`. [`Space::install`] gives the state afterwards and the
/// result.
pub fn map_address_impl<A: PageTablesAllocator>(
    l4_page_table: &mut PageTable,
    virt: VirtAddr,
    phys: u64,
    page_tables_allocator: &mut A,
    mapping_mode: MappingMode,
    offset: u64,
) -> (result: Result<MapOutcome, MapError>)
    requires
        virt.spec_is_aligned() && phys % 4096 == 0 ==> tree_of(
            *old(l4_page_table),
            *old(page_tables_allocator),
            offset,
        ).well_formed(),
    ensures
        installs(
            space_of(*old(l4_page_table), *old(page_tables_allocator), offset),
            space_of(*final(l4_page_table), *final(page_tables_allocator), offset),
            virt,
            phys,
            mapping_mode,
            result,
        ),
{
    if !virt.is_aligned() {
        return Err(MapError::UnalignedVirtual);
    }
    if phys % 4096 != 0 {
        return Err(MapError::UnalignedPhysical);
    }
    let ghost pre = space_of(*l4_page_table, *page_tables_allocator, offset);

    let l1_table: u64 = match descend(l4_page_table, virt, page_tables_allocator, offset) {
        Ok(t) => t,
        Err(e) => {
            return Err(e);
        },
    };
    let ghost ready = space_of(*l4_page_table, *page_tables_allocator, offset);

    let p1: u16 = virt.p1_index();
    let leaf: PageTableEntry = page_tables_allocator.entry(l1_table, p1);
    proof {
        lemma_entry_for(phys);
        assert(0u64 & 1 == 0) by (bit_vector);
        assert(ready.tree.l1_entry(virt) == Some(leaf));
        assert(pre.tree.kept_in(ready.tree, virt));
        let word: u64 = leaf.entry;
        assert(word & 0x000f_ffff_ffff_f000 < 0x10_0000_0000_0000) by (bit_vector);
    }
    let outcome: MapOutcome = if leaf.is_present() {
        if leaf.addr() == phys {
            proof {
                assert forall|w: VirtAddr| #[trigger]
                    ready.tree.translate(w) == if w.same_page(virt) && w.spec_is_aligned() {
                        Some((phys % 0x10_0000_0000_0000) as u64)
                    } else {
                        pre.tree.translate(w)
                    } by {
                    assert(ready.tree.translate(w) == pre.tree.translate(w));
                }
            }
            return Ok(MapOutcome::Unchanged);
        }
        match mapping_mode {
            MappingMode::CheckFrameIsFree => {
                return Err(MapError::AlreadyMapped);
            },
            MappingMode::Remapping => MapOutcome::Replaced,
        }
    } else {
        MapOutcome::Installed
    };
    let mut written: PageTableEntry = leaf;
    written.set_addr(phys, table_flags());
    page_tables_allocator.set_entry(l1_table, p1, written);
    proof {
        let post = space_of(*l4_page_table, *page_tables_allocator, offset);
        assert(post.tree == ready.tree.set_leaf(virt, written));
        assert(post.supply == ready.supply);
        lemma_write_leaf(ready.tree, virt, written);
        lemma_extended_twice(pre.tree, ready.tree, post.tree, virt);
        assert forall|w: VirtAddr| #[trigger]
            post.tree.translate(w) == if w.same_page(virt) && w.spec_is_aligned() {
                Some((phys % 0x10_0000_0000_0000) as u64)
            } else {
                pre.tree.translate(w)
            } by {
            assert(ready.tree.translate(w) == pre.tree.translate(w));
        }
    }
    Ok(outcome)
}

/// Installs the mapping `virt -> phys` unless the page is mapped to another
/// frame already. The tables are accessed at their frame addresses.
pub fn map_address<A: PageTablesAllocator>(
    l4_page_table: &mut PageTable,
    virt: VirtAddr,
    phys: u64,
    page_tables_allocator: &mut A,
) -> (result: Result<MapOutcome, MapError>)
    requires
        virt.spec_is_aligned() && phys % 4096 == 0 ==> tree_of(
            *old(l4_page_table),
            *old(page_tables_allocator),
            0,
        ).well_formed(),
    ensures
        installs(
            space_of(*old(l4_page_table), *old(page_tables_allocator), 0),
            space_of(*final(l4_page_table), *final(page_tables_allocator), 0),
            virt,
            phys,
            MappingMode::CheckFrameIsFree,
            result,
        ),
{
    map_address_impl(
        l4_page_table,
        virt,
        phys,
        page_tables_allocator,
        MappingMode::CheckFrameIsFree,
        0,
    )
}

/// Installs the mapping `virt -> phys`, overwriting a mapping of the page to
/// another frame. The tables are accessed at their frame addresses.
///
/// Where the result is [`MapOutcome::Replaced`] the caller has to invalidate
/// the translation that the processor may have cached for the page.
pub fn remap_address<A: PageTablesAllocator>(
    l4_page_table: &mut PageTable,
    virt: VirtAddr,
    phys: u64,
    page_tables_allocator: &mut A,
) -> (result: Result<MapOutcome, MapError>)
    requires
        virt.spec_is_aligned() && phys % 4096 == 0 ==> tree_of(
            *old(l4_page_table),
            *old(page_tables_allocator),
            0,
        ).well_formed(),
    ensures
        installs(
            space_of(*old(l4_page_table), *old(page_tables_allocator), 0),
            space_of(*final(l4_page_table), *final(page_tables_allocator), 0),
            virt,
            phys,
            MappingMode::Remapping,
            result,
        ),
{
    map_address_impl(l4_page_table, virt, phys, page_tables_allocator, MappingMode::Remapping, 0)
}

/// Installs the mapping `virt -> phys` unless the page is mapped to another
/// frame already. Each table is accessed at its frame address plus `offset`.
pub fn map_address_with_offset<A: PageTablesAllocator>(
    l4_page_table: &mut PageTable,
    virt: VirtAddr,
    phys: u64,
    page_tables_allocator: &mut A,
    offset: u64,
) -> (result: Result<MapOutcome, MapError>)
    requires
        virt.spec_is_aligned() && phys % 4096 == 0 ==> tree_of(
            *old(l4_page_table),
            *old(page_tables_allocator),
            offset,
        ).well_formed(),
    ensures
        installs(
            space_of(*old(l4_page_table), *old(page_tables_allocator), offset),
            space_of(*final(l4_page_table), *final(page_tables_allocator), offset),
            virt,
            phys,
            MappingMode::CheckFrameIsFree,
            result,
        ),
{
    map_address_impl(
        l4_page_table,
        virt,
        phys,
        page_tables_allocator,
        MappingMode::CheckFrameIsFree,
        offset,
    )
}

/// The frame that `virt` is mapped to in the tree under `l4_page_table`,
/// whose tables are accessed at their frame addresses.
///
/// The walk reads and never writes. A misaligned address is refused before
/// any table is read: the answer is `None`. For an aligned one the answer is
/// `None` as soon as the walk meets an absent entry.
pub fn get_physical_address<A: PageTablesAllocator>(
    l4_page_table: &PageTable,
    virt: VirtAddr,
    page_tables: &A,
) -> (phys: Option<u64>)
    requires
        virt.spec_is_aligned() ==> tree_of(*l4_page_table, *page_tables, 0).walkable(virt),
    ensures
        phys == tree_of(*l4_page_table, *page_tables, 0).translate(virt),
{
    if !virt.is_aligned() {
        return None;
    }
    let l4_entry: PageTableEntry = *l4_page_table.index(virt.p4_index());
    if !l4_entry.is_present() {
        return None;
    }
    let l3_entry: PageTableEntry = page_tables.entry(l4_entry.addr(), virt.p3_index());
    if !l3_entry.is_present() {
        return None;
    }
    let l2_entry: PageTableEntry = page_tables.entry(l3_entry.addr(), virt.p2_index());
    if !l2_entry.is_present() {
        return None;
    }
    let l1_entry: PageTableEntry = page_tables.entry(l2_entry.addr(), virt.p1_index());
    if !l1_entry.is_present() {
        return None;
    }
    Some(l1_entry.addr())
}

/// The start of the page that holds `val`.
pub fn align_down(val: VirtAddr) -> (page: VirtAddr)
    ensures
        page.0 == val.0 & 0xffff_ffff_ffff_f000,
        page.0 == val.0 - val.0 % 4096,
        page.spec_is_aligned(),
{
    VirtAddr::new(align_down_u64(val.as_u64()))
}

/// The start of the page that holds the address `val`.
pub fn align_down_u64(val: u64) -> (page: u64)
    ensures
        page == val & 0xffff_ffff_ffff_f000,
        page == val - val % 4096,
        page % 4096 == 0,
{
    assert(val & 0xffff_ffff_ffff_f000 == val - val % 4096 && (val & 0xffff_ffff_ffff_f000) % 4096
        == 0) by (bit_vector);
    val & 0xffff_ffff_ffff_f000
}

/// Every address of the page that starts at `4096 * k` is aligned down to
/// `4096 * k`.
pub proof fn lemma_align_down_page(val: u64, k: int)
    requires
        4096 * k <= val <= 4096 * k + 4095,
    ensures
        val - val % 4096 == 4096 * k,
        val & 0xffff_ffff_ffff_f000 == 4096 * k,
{
    assert(val & 0xffff_ffff_ffff_f000 == val - val % 4096) by (bit_vector);
}

} // verus!
