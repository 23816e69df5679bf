//! The translation tree as a mathematical object: a root table, the tables
//! that can be accessed by address, and the walk that leads from a virtual
//! address through them.

use vstd::prelude::*;
use crate::addr::VirtAddr;
use crate::entry::{entry_for, PageTableEntry};
use crate::table::empty_table;

verus! {

/// A root table together with the tables that can be accessed by address.
///
/// An entry above the leaf level names the next table by its frame address;
/// the table is accessed at that address plus `offset`.
pub struct TableTree {
    pub root: Seq<PageTableEntry>,
    pub tables: Map<u64, Seq<PageTableEntry>>,
    pub offset: u64,
}

/// Every slot of an empty table is absent.
pub proof fn lemma_empty_table_absent(index: int)
    requires
        0 <= index < 512,
    ensures
        empty_table().len() == 512,
        empty_table()[index] == (PageTableEntry { entry: 0 }),
        !empty_table()[index].spec_is_present(),
{
    assert(0u64 & 1 == 0) by (bit_vector);
}

impl TableTree {
    /// The address at which the table named by `entry` is accessed.
    pub open spec fn target(self, entry: PageTableEntry) -> int {
        entry.spec_addr() + self.offset
    }

    /// Whether `entry` names a table that can be accessed.
    pub open spec fn resolves(self, entry: PageTableEntry) -> bool {
        &&& self.target(entry) <= u64::MAX
        &&& self.tables.contains_key(self.target(entry) as u64)
        &&& self.tables[self.target(entry) as u64].len() == 512
    }

    /// The table one level down from `entry`, if the entry is present and
    /// names one.
    pub open spec fn follow(self, entry: PageTableEntry) -> Option<u64> {
        if entry.spec_is_present() && self.resolves(entry) {
            Some(self.target(entry) as u64)
        } else {
            None
        }
    }

    /// The entry in slot `index` of `table`, when there is such a table.
    pub open spec fn slot(self, table: Option<u64>, index: u16) -> Option<PageTableEntry> {
        match table {
            Some(t) => Some(self.tables[t][index as int]),
            None => None,
        }
    }

    /// The table one level down from `entry`, when there is such an entry.
    pub open spec fn next(self, entry: Option<PageTableEntry>) -> Option<u64> {
        match entry {
            Some(e) => self.follow(e),
            None => None,
        }
    }

    /// The root entry that the walk for `v` reads.
    pub open spec fn l4_entry(self, v: VirtAddr) -> PageTableEntry {
        self.root[v.spec_p4_index() as int]
    }

    /// The level-3 table on the walk for `v`.
    pub open spec fn l3_table(self, v: VirtAddr) -> Option<u64> {
        self.follow(self.l4_entry(v))
    }

    /// The level-3 entry that the walk for `v` reads.
    pub open spec fn l3_entry(self, v: VirtAddr) -> Option<PageTableEntry> {
        self.slot(self.l3_table(v), v.spec_p3_index())
    }

    /// The level-2 table on the walk for `v`.
    pub open spec fn l2_table(self, v: VirtAddr) -> Option<u64> {
        self.next(self.l3_entry(v))
    }

    /// The level-2 entry that the walk for `v` reads.
    pub open spec fn l2_entry(self, v: VirtAddr) -> Option<PageTableEntry> {
        self.slot(self.l2_table(v), v.spec_p2_index())
    }

    /// The level-1 table on the walk for `v`.
    pub open spec fn l1_table(self, v: VirtAddr) -> Option<u64> {
        self.next(self.l2_entry(v))
    }

    /// The leaf entry for `v`: the level-1 entry that the walk reads.
    pub open spec fn l1_entry(self, v: VirtAddr) -> Option<PageTableEntry> {
        self.slot(self.l1_table(v), v.spec_p1_index())
    }

    /// The frame that `v` is mapped to. A misaligned address is mapped to
    /// nothing; an aligned one to the address in its leaf entry, when the
    /// walk reaches a leaf entry and that entry is present.
    pub open spec fn translate(self, v: VirtAddr) -> Option<u64> {
        if !v.spec_is_aligned() {
            None
        } else {
            match self.l1_entry(v) {
                Some(e) => if e.spec_is_present() {
                    Some(e.spec_addr())
                } else {
                    None
                },
                None => None,
            }
        }
    }

    /// Whether every present entry that the walk for `v` reads above the leaf
    /// names a table that can be accessed.
    pub open spec fn walkable(self, v: VirtAddr) -> bool {
        &&& self.root.len() == 512
        &&& self.l4_entry(v).spec_is_present() ==> self.resolves(self.l4_entry(v))
        &&& self.l3_entry(v) matches Some(e) ==> (e.spec_is_present() ==> self.resolves(e))
        &&& self.l2_entry(v) matches Some(e) ==> (e.spec_is_present() ==> self.resolves(e))
    }

    /// Whether the walks for `v` and `w` keep apart: they meet in a table
    /// only at the same level and only where the indices that lead to it are
    /// the same.
    pub open spec fn apart(self, v: VirtAddr, w: VirtAddr) -> bool {
        &&& self.l3_table(v) is Some && self.l3_table(v) == self.l3_table(w) ==> v.spec_p4_index()
            == w.spec_p4_index()
        &&& self.l2_table(v) is Some && self.l2_table(v) == self.l2_table(w) ==> v.spec_p4_index()
            == w.spec_p4_index() && v.spec_p3_index() == w.spec_p3_index()
        &&& self.l1_table(v) is Some && self.l1_table(v) == self.l1_table(w) ==> v.spec_p4_index()
            == w.spec_p4_index() && v.spec_p3_index() == w.spec_p3_index() && v.spec_p2_index()
            == w.spec_p2_index()
        &&& self.l3_table(v) is Some ==> self.l3_table(v) != self.l2_table(w) && self.l3_table(v)
            != self.l1_table(w)
        &&& self.l2_table(v) is Some ==> self.l2_table(v) != self.l1_table(w)
    }

    /// A well-formed tree: every walk finds the tables it is sent to, and
    /// the tables hang off the root as a tree, each one reached by one
    /// sequence of indices only.
    pub open spec fn well_formed(self) -> bool {
        &&& forall|v: VirtAddr| #[trigger] self.walkable(v)
        &&& forall|v: VirtAddr, w: VirtAddr| #[trigger] self.apart(v, w)
    }

    /// Whether the tables on the walk for `w` in this tree are still on it
    /// in `later`.
    pub open spec fn kept_in(self, later: TableTree, w: VirtAddr) -> bool {
        &&& self.l3_table(w) is Some ==> later.l3_table(w) == self.l3_table(w)
        &&& self.l2_table(w) is Some ==> later.l2_table(w) == self.l2_table(w)
        &&& self.l1_table(w) is Some ==> later.l1_table(w) == self.l1_table(w)
    }

    /// Whether `later` has all the tables of this tree, at least.
    pub open spec fn tables_kept_in(self, later: TableTree) -> bool {
        forall|a: u64| #[trigger] self.tables.contains_key(a) ==> later.tables.contains_key(a)
    }

    /// The entry in slot `index` of the table accessed at `table`, with a
    /// blank entry standing for a table that is not there.
    pub open spec fn slot_before(self, table: u64, index: int) -> PageTableEntry {
        if self.tables.contains_key(table) {
            self.tables[table][index]
        } else {
            PageTableEntry { entry: 0 }
        }
    }

    /// Whether `entry` is the link to the table accessed at `child`: the
    /// present and writable entry that holds the table's frame address.
    pub open spec fn names(self, entry: PageTableEntry, child: Option<u64>) -> bool {
        &&& entry.spec_is_present()
        &&& child is Some
        &&& child.unwrap() >= self.offset
        &&& entry == entry_for((child.unwrap() - self.offset) as u64)
    }

    /// Whether the table accessed at `table` is on the walk for `u`.
    pub open spec fn on_walk(self, u: VirtAddr, table: u64) -> bool {
        ||| self.l3_table(u) == Some(table)
        ||| self.l2_table(u) == Some(table)
        ||| self.l1_table(u) == Some(table)
    }

    /// Whether slot `index` of the table accessed at `table`, which held
    /// `before`, may differ from it now: either the slot is the one that the
    /// walk for `u` reads in a table above the leaf level, it was absent and
    /// is now the link to the next table on the walk; or it is the leaf slot
    /// for `u`.
    pub open spec fn slot_written(
        self,
        before: PageTableEntry,
        u: VirtAddr,
        table: u64,
        index: int,
    ) -> bool {
        ||| {
            &&& self.l3_table(u) == Some(table)
            &&& index == u.spec_p3_index()
            &&& !before.spec_is_present()
            &&& self.names(self.tables[table][index], self.l2_table(u))
        }
        ||| {
            &&& self.l2_table(u) == Some(table)
            &&& index == u.spec_p2_index()
            &&& !before.spec_is_present()
            &&& self.names(self.tables[table][index], self.l1_table(u))
        }
        ||| self.l1_table(u) == Some(table) && index == u.spec_p1_index()
    }

    /// Whether `later` may have come from this tree by a change to the walk
    /// for `u`:
    /// - it has the same offset;
    /// - a root slot differs only if it is the one for `u`, was absent and is
    ///   now the link to the level-3 table on the walk;
    /// - it has all the tables of this tree, and beside them only tables on
    ///   the walk for `u`;
    /// - every table is still on the walk it was on;
    /// - a slot of a table differs from what it was, or from blank in a new
    ///   table, only as [`TableTree::slot_written`] allows.
    pub open spec fn extended_to(self, later: TableTree, u: VirtAddr) -> bool {
        &&& later.offset == self.offset
        &&& forall|i: int|
            0 <= i < 512 && #[trigger] later.root[i] != self.root[i] ==> {
                &&& i == u.spec_p4_index()
                &&& !self.root[i].spec_is_present()
                &&& later.names(later.root[i], later.l3_table(u))
            }
        &&& self.tables_kept_in(later)
        &&& forall|a: u64| #[trigger]
            later.tables.contains_key(a) ==> self.tables.contains_key(a) || later.on_walk(u, a)
        &&& forall|w: VirtAddr| #[trigger] self.kept_in(later, w)
        &&& forall|a: u64, i: int|
            #![trigger later.tables[a][i]]
            later.tables.contains_key(a) && 0 <= i < 512 && later.tables[a][i] != self.slot_before(
                a,
                i,
            ) ==> later.slot_written(self.slot_before(a, i), u, a, i)
    }

    /// Whether `later` may have come from this tree by linking empty tables
    /// into the walk for `u`: an extension that changes no translation.
    pub open spec fn grown_to(self, later: TableTree, u: VirtAddr) -> bool {
        &&& self.extended_to(later, u)
        &&& forall|w: VirtAddr| #[trigger] later.translate(w) == self.translate(w)
    }

    /// The tree with one more table, empty, accessed at `address`.
    pub open spec fn add_table(self, address: u64) -> TableTree {
        TableTree { tables: self.tables.insert(address, empty_table()), ..self }
    }

    /// The tree with `entry` in slot `index` of the root.
    pub open spec fn set_root(self, index: u16, entry: PageTableEntry) -> TableTree {
        TableTree { root: self.root.update(index as int, entry), ..self }
    }

    /// The tree with `entry` in slot `index` of the table accessed at
    /// `table`.
    pub open spec fn set_slot(self, table: u64, index: u16, entry: PageTableEntry) -> TableTree {
        TableTree {
            tables: self.tables.insert(table, self.tables[table].update(index as int, entry)),
            ..self
        }
    }

    /// The number of tables that the walk for `v` lacks before it reaches a
    /// leaf entry: three where the root slot names no table, none where the
    /// walk reaches the level-1 table.
    pub open spec fn missing(self, v: VirtAddr) -> nat {
        if self.l3_table(v) is None {
            3
        } else if self.l2_table(v) is None {
            2
        } else if self.l1_table(v) is None {
            1
        } else {
            0
        }
    }

    /// The tree with a new empty level-3 table in `frame`, named by a
    /// present and writable entry in the root slot for `v`.
    pub open spec fn link_l3(self, v: VirtAddr, frame: u64) -> TableTree {
        self.add_table((frame + self.offset) as u64).set_root(v.spec_p4_index(), entry_for(frame))
    }

    /// The tree with a new empty level-2 table in `frame`, named by a
    /// present and writable entry in the level-3 slot for `v`.
    pub open spec fn link_l2(self, v: VirtAddr, frame: u64) -> TableTree {
        self.add_table((frame + self.offset) as u64).set_slot(
            self.l3_table(v).unwrap(),
            v.spec_p3_index(),
            entry_for(frame),
        )
    }

    /// The tree with a new empty level-1 table in `frame`, named by a
    /// present and writable entry in the level-2 slot for `v`.
    pub open spec fn link_l1(self, v: VirtAddr, frame: u64) -> TableTree {
        self.add_table((frame + self.offset) as u64).set_slot(
            self.l2_table(v).unwrap(),
            v.spec_p2_index(),
            entry_for(frame),
        )
    }

    /// The tree with the topmost table that the walk for `v` lacks created
    /// in `frame`.
    pub open spec fn link_next(self, v: VirtAddr, frame: u64) -> TableTree {
        if self.l3_table(v) is None {
            self.link_l3(v, frame)
        } else if self.l2_table(v) is None {
            self.link_l2(v, frame)
        } else {
            self.link_l1(v, frame)
        }
    }

    /// One step of the descent for `v`: where a table is lacking and frame
    /// number `i` is there, the topmost lacking table is created in it;
    /// otherwise nothing changes.
    pub open spec fn step(self, v: VirtAddr, frames: Seq<u64>, i: int) -> TableTree {
        if self.missing(v) > 0 && i < frames.len() {
            self.link_next(v, frames[i])
        } else {
            self
        }
    }

    /// The tree after the descent for `v` with `frames` to draw on: the
    /// tables that the walk lacks are created from the top down, one in each
    /// frame in turn, until the walk is complete or the frames are used up.
    pub open spec fn descended(self, v: VirtAddr, frames: Seq<u64>) -> TableTree {
        self.step(v, frames, 0).step(v, frames, 1).step(v, frames, 2)
    }

    /// The tree with `entry` as the leaf entry for `v`.
    pub open spec fn set_leaf(self, v: VirtAddr, entry: PageTableEntry) -> TableTree {
        self.set_slot(self.l1_table(v).unwrap(), v.spec_p1_index(), entry)
    }
}

/// A tree whose root has no present entry is well formed and maps nothing.
pub proof fn lemma_empty_root(tree: TableTree)
    requires
        tree.root.len() == 512,
        forall|i: int| 0 <= i < 512 ==> !(#[trigger] tree.root[i]).spec_is_present(),
    ensures
        tree.well_formed(),
        forall|v: VirtAddr| #[trigger] tree.translate(v) is None,
        forall|v: VirtAddr| #[trigger] tree.l3_table(v) is None,
{
    assert(forall|v: VirtAddr| tree.l3_table(v) is None);
    assert forall|v: VirtAddr| #[trigger] tree.walkable(v) by {
        assert(tree.l3_table(v) is None);
    }
    assert forall|v: VirtAddr, w: VirtAddr| #[trigger] tree.apart(v, w) by {
        assert(tree.l3_table(v) is None);
        assert(tree.l3_table(w) is None);
    }
    assert forall|v: VirtAddr| #[trigger] tree.translate(v) is None by {
        assert(tree.l3_table(v) is None);
    }
}

/// What the walk for `w` finds after a fresh empty table has been linked
/// into the root slot for `u`.
proof fn lemma_root_link_walk(
    tree: TableTree,
    u: VirtAddr,
    entry: PageTableEntry,
    address: u64,
    w: VirtAddr,
)
    requires
        tree.well_formed(),
        !tree.l4_entry(u).spec_is_present(),
        entry.spec_is_present(),
        tree.target(entry) == address,
        !tree.tables.contains_key(address),
    ensures
        ({
            let later = tree.add_table(address).set_root(u.spec_p4_index(), entry);
            let hit = w.spec_p4_index() == u.spec_p4_index();
            &&& hit ==> tree.l3_table(w) is None
            &&& later.l3_table(w) == if hit {
                Some(address)
            } else {
                tree.l3_table(w)
            }
            &&& hit ==> later.l2_table(w) is None
            &&& !hit ==> later.l2_table(w) == tree.l2_table(w)
            &&& later.l1_table(w) == tree.l1_table(w)
            &&& later.l1_entry(w) == tree.l1_entry(w)
            &&& later.walkable(w)
        }),
{
    let later = tree.add_table(address).set_root(u.spec_p4_index(), entry);
    lemma_empty_table_absent(w.spec_p3_index() as int);
    assert(tree.walkable(w));
    assert(tree.walkable(u));
    if w.spec_p4_index() == u.spec_p4_index() {
        assert(later.l4_entry(w) == entry);
        assert(later.tables[address] == empty_table());
        assert(later.resolves(entry));
        assert(later.l3_table(w) == Some(address));
        assert(later.l3_entry(w) == Some(empty_table()[w.spec_p3_index() as int]));
        assert(later.l2_table(w) is None);
    }
}

/// Linking a fresh empty table into an absent root slot keeps the tree well
/// formed, keeps every table on its walk, and changes no translation.
pub proof fn lemma_link_root(tree: TableTree, u: VirtAddr, entry: PageTableEntry, address: u64)
    requires
        tree.well_formed(),
        !tree.l4_entry(u).spec_is_present(),
        entry.spec_is_present(),
        tree.target(entry) == address,
        !tree.tables.contains_key(address),
    ensures
        ({
            let later = tree.add_table(address).set_root(u.spec_p4_index(), entry);
            &&& later.well_formed()
            &&& later.l3_table(u) == Some(address)
            &&& forall|w: VirtAddr| #[trigger] later.translate(w) == tree.translate(w)
            &&& forall|w: VirtAddr| #[trigger] tree.kept_in(later, w)
        }),
{
    let later = tree.add_table(address).set_root(u.spec_p4_index(), entry);
    lemma_root_link_walk(tree, u, entry, address, u);
    assert forall|w: VirtAddr| #[trigger] later.walkable(w) by {
        lemma_root_link_walk(tree, u, entry, address, w);
    }
    assert forall|w: VirtAddr| #[trigger] later.translate(w) == tree.translate(w) by {
        lemma_root_link_walk(tree, u, entry, address, w);
    }
    assert forall|w: VirtAddr| #[trigger] tree.kept_in(later, w) by {
        lemma_root_link_walk(tree, u, entry, address, w);
    }
    assert forall|v: VirtAddr, w: VirtAddr| #[trigger] later.apart(v, w) by {
        lemma_root_link_walk(tree, u, entry, address, v);
        lemma_root_link_walk(tree, u, entry, address, w);
        assert(tree.apart(v, w));
        assert(tree.walkable(v));
        assert(tree.walkable(w));
    }
}

/// What the walk for `w` finds after a fresh empty table has been linked
/// into the level-3 slot for `u`.
proof fn lemma_l3_link_walk(
    tree: TableTree,
    u: VirtAddr,
    entry: PageTableEntry,
    address: u64,
    w: VirtAddr,
)
    requires
        tree.well_formed(),
        tree.l3_entry(u) matches Some(e) && !e.spec_is_present(),
        entry.spec_is_present(),
        tree.target(entry) == address,
        !tree.tables.contains_key(address),
    ensures
        ({
            let later = tree.add_table(address).set_slot(
                tree.l3_table(u).unwrap(),
                u.spec_p3_index(),
                entry,
            );
            let hit = w.spec_p4_index() == u.spec_p4_index() && w.spec_p3_index()
                == u.spec_p3_index();
            &&& later.l3_table(w) == tree.l3_table(w)
            &&& hit ==> tree.l2_table(w) is None
            &&& later.l2_table(w) == if hit {
                Some(address)
            } else {
                tree.l2_table(w)
            }
            &&& hit ==> later.l1_table(w) is None
            &&& !hit ==> later.l1_table(w) == tree.l1_table(w)
            &&& later.l1_entry(w) == tree.l1_entry(w)
            &&& later.walkable(w)
        }),
{
    let t3 = tree.l3_table(u).unwrap();
    let later = tree.add_table(address).set_slot(t3, u.spec_p3_index(), entry);
    lemma_empty_table_absent(w.spec_p2_index() as int);
    assert(tree.walkable(w));
    assert(tree.walkable(u));
    assert(tree.apart(u, w));
    assert(later.tables[address] == empty_table());
    if w.spec_p4_index() == u.spec_p4_index() && w.spec_p3_index() == u.spec_p3_index() {
        assert(tree.l3_table(w) == Some(t3));
        assert(later.l3_entry(w) == Some(entry));
        assert(later.resolves(entry));
        assert(later.l2_table(w) == Some(address));
        assert(later.l2_entry(w) == Some(empty_table()[w.spec_p2_index() as int]));
        assert(later.l1_table(w) is None);
    }
}

/// Linking a fresh empty table into an absent level-3 slot keeps the tree
/// well formed, keeps every table on its walk, and changes no translation.
pub proof fn lemma_link_l3(tree: TableTree, u: VirtAddr, entry: PageTableEntry, address: u64)
    requires
        tree.well_formed(),
        tree.l3_entry(u) matches Some(e) && !e.spec_is_present(),
        entry.spec_is_present(),
        tree.target(entry) == address,
        !tree.tables.contains_key(address),
    ensures
        ({
            let later = tree.add_table(address).set_slot(
                tree.l3_table(u).unwrap(),
                u.spec_p3_index(),
                entry,
            );
            &&& later.well_formed()
            &&& later.l2_table(u) == Some(address)
            &&& forall|w: VirtAddr| #[trigger] later.translate(w) == tree.translate(w)
            &&& forall|w: VirtAddr| #[trigger] tree.kept_in(later, w)
        }),
{
    let later = tree.add_table(address).set_slot(
        tree.l3_table(u).unwrap(),
        u.spec_p3_index(),
        entry,
    );
    lemma_l3_link_walk(tree, u, entry, address, u);
    assert forall|w: VirtAddr| #[trigger] later.walkable(w) by {
        lemma_l3_link_walk(tree, u, entry, address, w);
    }
    assert forall|w: VirtAddr| #[trigger] later.translate(w) == tree.translate(w) by {
        lemma_l3_link_walk(tree, u, entry, address, w);
    }
    assert forall|w: VirtAddr| #[trigger] tree.kept_in(later, w) by {
        lemma_l3_link_walk(tree, u, entry, address, w);
    }
    assert forall|v: VirtAddr, w: VirtAddr| #[trigger] later.apart(v, w) by {
        lemma_l3_link_walk(tree, u, entry, address, v);
        lemma_l3_link_walk(tree, u, entry, address, w);
        assert(tree.apart(v, w));
        assert(tree.walkable(v));
        assert(tree.walkable(w));
    }
}

/// What the walk for `w` finds after a fresh empty table has been linked
/// into the level-2 slot for `u`.
proof fn lemma_l2_link_walk(
    tree: TableTree,
    u: VirtAddr,
    entry: PageTableEntry,
    address: u64,
    w: VirtAddr,
)
    requires
        tree.well_formed(),
        tree.l2_entry(u) matches Some(e) && !e.spec_is_present(),
        entry.spec_is_present(),
        tree.target(entry) == address,
        !tree.tables.contains_key(address),
    ensures
        ({
            let later = tree.add_table(address).set_slot(
                tree.l2_table(u).unwrap(),
                u.spec_p2_index(),
                entry,
            );
            let hit = w.spec_p4_index() == u.spec_p4_index() && w.spec_p3_index()
                == u.spec_p3_index() && w.spec_p2_index() == u.spec_p2_index();
            &&& later.l3_table(w) == tree.l3_table(w)
            &&& later.l2_table(w) == tree.l2_table(w)
            &&& hit ==> tree.l1_table(w) is None
            &&& later.l1_table(w) == if hit {
                Some(address)
            } else {
                tree.l1_table(w)
            }
            &&& hit ==> later.l1_entry(w) == Some(PageTableEntry { entry: 0 })
            &&& !hit ==> later.l1_entry(w) == tree.l1_entry(w)
            &&& later.walkable(w)
        }),
{
    let t2 = tree.l2_table(u).unwrap();
    let later = tree.add_table(address).set_slot(t2, u.spec_p2_index(), entry);
    lemma_empty_table_absent(w.spec_p1_index() as int);
    assert(tree.walkable(w));
    assert(tree.walkable(u));
    assert(tree.apart(u, w));
    assert(tree.apart(w, u));
    assert(later.tables[address] == empty_table());
    if w.spec_p4_index() == u.spec_p4_index() && w.spec_p3_index() == u.spec_p3_index()
        && w.spec_p2_index() == u.spec_p2_index() {
        assert(tree.l2_table(w) == Some(t2));
        assert(later.l2_entry(w) == Some(entry));
        assert(later.resolves(entry));
        assert(later.l1_table(w) == Some(address));
    }
}

/// Linking a fresh empty table into an absent level-2 slot keeps the tree
/// well formed, keeps every table on its walk, and changes no translation.
pub proof fn lemma_link_l2(tree: TableTree, u: VirtAddr, entry: PageTableEntry, address: u64)
    requires
        tree.well_formed(),
        tree.l2_entry(u) matches Some(e) && !e.spec_is_present(),
        entry.spec_is_present(),
        tree.target(entry) == address,
        !tree.tables.contains_key(address),
    ensures
        ({
            let later = tree.add_table(address).set_slot(
                tree.l2_table(u).unwrap(),
                u.spec_p2_index(),
                entry,
            );
            &&& later.well_formed()
            &&& later.l1_table(u) == Some(address)
            &&& forall|w: VirtAddr| #[trigger] later.translate(w) == tree.translate(w)
            &&& forall|w: VirtAddr| #[trigger] tree.kept_in(later, w)
        }),
{
    let later = tree.add_table(address).set_slot(
        tree.l2_table(u).unwrap(),
        u.spec_p2_index(),
        entry,
    );
    lemma_l2_link_walk(tree, u, entry, address, u);
    assert(0u64 & 1 == 0) by (bit_vector);
    assert forall|w: VirtAddr| #[trigger] later.walkable(w) by {
        lemma_l2_link_walk(tree, u, entry, address, w);
    }
    assert forall|w: VirtAddr| #[trigger] later.translate(w) == tree.translate(w) by {
        lemma_l2_link_walk(tree, u, entry, address, w);
    }
    assert forall|w: VirtAddr| #[trigger] tree.kept_in(later, w) by {
        lemma_l2_link_walk(tree, u, entry, address, w);
    }
    assert forall|v: VirtAddr, w: VirtAddr| #[trigger] later.apart(v, w) by {
        lemma_l2_link_walk(tree, u, entry, address, v);
        lemma_l2_link_walk(tree, u, entry, address, w);
        assert(tree.apart(v, w));
        assert(tree.walkable(v));
        assert(tree.walkable(w));
    }
}

/// What the walk for `w` finds after the leaf entry for `u` has been
/// written.
proof fn lemma_leaf_walk(tree: TableTree, u: VirtAddr, entry: PageTableEntry, w: VirtAddr)
    requires
        tree.well_formed(),
        tree.l1_table(u) is Some,
    ensures
        ({
            let later = tree.set_leaf(u, entry);
            &&& later.l3_table(w) == tree.l3_table(w)
            &&& later.l2_table(w) == tree.l2_table(w)
            &&& later.l1_table(w) == tree.l1_table(w)
            &&& later.l1_entry(w) == if w.same_page(u) {
                Some(entry)
            } else {
                tree.l1_entry(w)
            }
            &&& later.walkable(w)
        }),
{
    let t1 = tree.l1_table(u).unwrap();
    let later = tree.set_leaf(u, entry);
    assert(tree.walkable(w));
    assert(tree.walkable(u));
    assert(tree.apart(u, w));
    assert(tree.apart(w, u));
}

/// Writing the leaf entry for `u` keeps the tree well formed and every
/// table on its walk. The addresses that select the same four slots as `u`
/// now have the new entry as their leaf entry; the leaf entry of every other
/// address is what it was.
pub proof fn lemma_write_leaf(tree: TableTree, u: VirtAddr, entry: PageTableEntry)
    requires
        tree.well_formed(),
        tree.l1_table(u) is Some,
    ensures
        ({
            let later = tree.set_leaf(u, entry);
            &&& later.well_formed()
            &&& forall|w: VirtAddr| #[trigger]
                later.l1_entry(w) == if w.same_page(u) {
                    Some(entry)
                } else {
                    tree.l1_entry(w)
                }
            &&& forall|w: VirtAddr| #[trigger] tree.kept_in(later, w)
            &&& tree.extended_to(later, u)
        }),
{
    let later = tree.set_leaf(u, entry);
    lemma_leaf_walk(tree, u, entry, u);
    assert forall|w: VirtAddr| #[trigger] later.walkable(w) by {
        lemma_leaf_walk(tree, u, entry, w);
    }
    assert forall|w: VirtAddr| #[trigger]
        later.l1_entry(w) == if w.same_page(u) {
            Some(entry)
        } else {
            tree.l1_entry(w)
        } by {
        lemma_leaf_walk(tree, u, entry, w);
    }
    assert forall|w: VirtAddr| #[trigger] tree.kept_in(later, w) by {
        lemma_leaf_walk(tree, u, entry, w);
    }
    assert forall|v: VirtAddr, w: VirtAddr| #[trigger] later.apart(v, w) by {
        lemma_leaf_walk(tree, u, entry, v);
        lemma_leaf_walk(tree, u, entry, w);
        assert(tree.apart(v, w));
    }
}

/// An extension of an extension, both for the same address, is an extension.
pub proof fn lemma_extended_twice(first: TableTree, second: TableTree, third: TableTree, u: VirtAddr)
    requires
        first.extended_to(second, u),
        second.extended_to(third, u),
    ensures
        first.extended_to(third, u),
{
    assert(0u64 & 1 == 0) by (bit_vector);
    assert(second.kept_in(third, u));
    assert forall|w: VirtAddr| #[trigger] first.kept_in(third, w) by {
        assert(first.kept_in(second, w));
        assert(second.kept_in(third, w));
    }
    assert forall|a: u64| #[trigger] first.tables.contains_key(a) implies third.tables.contains_key(
        a,
    ) by {
        assert(second.tables.contains_key(a));
    }
    assert forall|a: u64| #[trigger] third.tables.contains_key(a) implies first.tables.contains_key(
        a,
    ) || third.on_walk(u, a) by {
        if second.tables.contains_key(a) && !first.tables.contains_key(a) {
            assert(second.on_walk(u, a));
        }
    }
    assert forall|i: int| 0 <= i < 512 && #[trigger] third.root[i] != first.root[i] implies i
        == u.spec_p4_index() && !first.root[i].spec_is_present() && third.names(
        third.root[i],
        third.l3_table(u),
    ) by {
        if second.root[i] != first.root[i] {
            assert(second.names(second.root[i], second.l3_table(u)));
            assert(third.root[i] == second.root[i]);
        }
    }
    assert forall|a: u64, i: int|
        #![trigger third.tables[a][i]]
        third.tables.contains_key(a) && 0 <= i < 512 && third.tables[a][i] != first.slot_before(
            a,
            i,
        ) implies third.slot_written(first.slot_before(a, i), u, a, i) by {
        let old1 = first.slot_before(a, i);
        let old2 = second.slot_before(a, i);
        if third.tables[a][i] != old2 {
            assert(third.slot_written(old2, u, a, i));
            if old2 != old1 {
                assert(second.tables.contains_key(a));
                assert(second.slot_written(old1, u, a, i));
            }
        } else {
            assert(second.tables.contains_key(a));
            assert(second.slot_written(old1, u, a, i));
        }
    }
}

/// A tree grown from a grown tree, both for the same address, is a grown
/// tree.
pub proof fn lemma_grown_twice(first: TableTree, second: TableTree, third: TableTree, u: VirtAddr)
    requires
        first.grown_to(second, u),
        second.grown_to(third, u),
    ensures
        first.grown_to(third, u),
{
    lemma_extended_twice(first, second, third, u);
    assert forall|w: VirtAddr| #[trigger] third.translate(w) == first.translate(w) by {
        assert(second.translate(w) == first.translate(w));
    }
}

} // verus!
