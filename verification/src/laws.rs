//! What holds of installing and resolving mappings, across calls.

use vstd::prelude::*;
use crate::addr::VirtAddr;
use crate::entry::ADDR_MASK;
use crate::mapper::{installs, MapError, MapOutcome, MappingMode, Space};
use crate::tree::lemma_empty_root;

verus! {

/// An installation succeeds exactly when both addresses are aligned, the
/// supply holds a frame for each table that the walk lacks, and the leaf
/// entry is free, or holds the requested address, or may be overwritten.
pub proof fn lemma_success_owed(
    pre: Space,
    post: Space,
    virt: VirtAddr,
    phys: u64,
    mode: MappingMode,
    result: Result<MapOutcome, MapError>,
)
    requires
        installs(pre, post, virt, phys, mode, result),
    ensures
        result is Ok <==> {
            &&& virt.0 % 4096 == 0
            &&& phys % 4096 == 0
            &&& pre.supply.len() >= pre.tree.missing(virt)
            &&& {
                ||| pre.tree.missing(virt) > 0
                ||| !pre.tree.l1_entry(virt).unwrap().spec_is_present()
                ||| pre.tree.l1_entry(virt).unwrap().spec_addr() == phys
                ||| mode == MappingMode::Remapping
            }
        },
        result == Err::<MapOutcome, MapError>(MapError::OutOfMemory) <==> virt.0 % 4096 == 0 && phys
            % 4096 == 0 && pre.supply.len() < pre.tree.missing(virt),
{
}

/// An installation with aligned addresses makes one request for each table
/// that the walk lacks, up to and including the first that is refused, and
/// takes the frames it is served with off the front of the supply. With
/// misaligned addresses it makes none.
pub proof fn lemma_requests_made(
    pre: Space,
    post: Space,
    virt: VirtAddr,
    phys: u64,
    mode: MappingMode,
    result: Result<MapOutcome, MapError>,
)
    requires
        installs(pre, post, virt, phys, mode, result),
    ensures
        virt.0 % 4096 != 0 || phys % 4096 != 0 ==> post == pre,
        virt.0 % 4096 == 0 && phys % 4096 == 0 ==> {
            &&& post.requests == pre.requests + pre.asked(virt)
            &&& post.supply == pre.supply.skip(pre.taken(virt) as int)
            &&& result is Ok ==> post.requests == pre.requests + pre.tree.missing(virt)
            &&& result == Err::<MapOutcome, MapError>(MapError::OutOfMemory) ==> post.requests
                == pre.requests + pre.supply.len() + 1 && post.supply.len() == 0
        },
{
}

/// The first installation into a tree with an empty root asks for three
/// tables. With three frames in the supply it succeeds and takes those
/// three; with fewer it fails after one request more than there are frames.
pub proof fn lemma_first_install(
    pre: Space,
    post: Space,
    virt: VirtAddr,
    phys: u64,
    mode: MappingMode,
    result: Result<MapOutcome, MapError>,
)
    requires
        pre.tree.root.len() == 512,
        forall|i: int| 0 <= i < 512 ==> !(#[trigger] pre.tree.root[i]).spec_is_present(),
        virt.0 % 4096 == 0,
        phys % 4096 == 0,
        installs(pre, post, virt, phys, mode, result),
    ensures
        pre.tree.missing(virt) == 3,
        pre.supply.len() >= 3 ==> {
            &&& result == Ok::<MapOutcome, MapError>(MapOutcome::Installed)
            &&& post.requests == pre.requests + 3
            &&& post.supply == pre.supply.skip(3)
            &&& post.tree.translate(virt) == Some((phys % 0x10_0000_0000_0000) as u64)
        },
        pre.supply.len() < 3 ==> {
            &&& result == Err::<MapOutcome, MapError>(MapError::OutOfMemory)
            &&& post.requests == pre.requests + pre.supply.len() + 1
            &&& post.tree.translate(virt) is None
        },
        pre.supply.len() == 0 ==> post.tree == pre.tree,
{
    lemma_empty_root(pre.tree);
    assert(pre.tree.l3_table(virt) is None);
}

/// After an installation with aligned addresses the tables are those that
/// were there before and those that are on the walk for `virt` now and were
/// not on it before. A table that was there before and is not on the walk
/// has every slot as it was.
pub proof fn lemma_new_tables(
    pre: Space,
    post: Space,
    virt: VirtAddr,
    phys: u64,
    mode: MappingMode,
    result: Result<MapOutcome, MapError>,
    table: u64,
)
    requires
        virt.0 % 4096 == 0,
        phys % 4096 == 0,
        installs(pre, post, virt, phys, mode, result),
    ensures
        post.tree.tables.contains_key(table) <==> pre.tree.tables.contains_key(table) || (
        post.tree.on_walk(virt, table) && !pre.tree.on_walk(virt, table)),
        pre.tree.tables.contains_key(table) && !post.tree.on_walk(virt, table) ==> forall|i: int|
            0 <= i < 512 ==> #[trigger] post.tree.tables[table][i] == pre.tree.tables[table][i],
{
    assert(pre.tree.kept_in(post.tree, virt));
    if pre.tree.tables.contains_key(table) {
        assert(post.tree.tables.contains_key(table));
        if !post.tree.on_walk(virt, table) {
            assert forall|i: int| 0 <= i < 512 implies #[trigger] post.tree.tables[table][i]
                == pre.tree.tables[table][i] by {
                if post.tree.tables[table][i] != pre.tree.slot_before(table, i) {
                    assert(post.tree.slot_written(pre.tree.slot_before(table, i), virt, table, i));
                }
            }
        }
    }
}

/// After a successful installation of `virt -> phys` the address `virt`
/// translates to `phys`, given that `phys` fits into the address bits of an
/// entry.
pub proof fn lemma_installed_translates(
    pre: Space,
    post: Space,
    virt: VirtAddr,
    phys: u64,
    mode: MappingMode,
    result: Result<MapOutcome, MapError>,
)
    requires
        installs(pre, post, virt, phys, mode, result),
        result is Ok,
        phys <= ADDR_MASK,
    ensures
        post.tree.translate(virt) == Some(phys),
{
}

/// A misaligned virtual or physical address is refused with the error that
/// names it, and nothing is left changed.
pub proof fn lemma_unaligned_refused(
    pre: Space,
    post: Space,
    virt: VirtAddr,
    phys: u64,
    mode: MappingMode,
    result: Result<MapOutcome, MapError>,
)
    requires
        installs(pre, post, virt, phys, mode, result),
    ensures
        virt.0 % 4096 != 0 ==> result == Err::<MapOutcome, MapError>(MapError::UnalignedVirtual)
            && post == pre,
        virt.0 % 4096 == 0 && phys % 4096 != 0 ==> result == Err::<MapOutcome, MapError>(
            MapError::UnalignedPhysical,
        ) && post == pre,
        virt.0 % 4096 == 0 && phys % 4096 == 0 ==> result != Err::<MapOutcome, MapError>(
            MapError::UnalignedVirtual,
        ) && result != Err::<MapOutcome, MapError>(MapError::UnalignedPhysical),
        virt.0 % 4096 != 0 ==> post.tree.translate(virt) is None,
{
}

/// Installing the same mapping a second time succeeds, asks for no table,
/// writes nothing and leaves everything as the first installation left it.
pub proof fn lemma_install_twice(
    first: Space,
    second: Space,
    third: Space,
    virt: VirtAddr,
    phys: u64,
    mode: MappingMode,
    again: MappingMode,
    result: Result<MapOutcome, MapError>,
    repeated: Result<MapOutcome, MapError>,
)
    requires
        installs(first, second, virt, phys, mode, result),
        result is Ok,
        phys <= ADDR_MASK,
        installs(second, third, virt, phys, again, repeated),
    ensures
        repeated == Ok::<MapOutcome, MapError>(MapOutcome::Unchanged),
        third == second,
        third.tree.translate(virt) == Some(phys),
{
    assert(second.tree.translate(virt) == Some(phys));
    assert(second.supply.skip(0) =~= second.supply);
}

/// In the checking mode, installing another frame for a page that is mapped
/// is refused, and everything stays as it was.
pub proof fn lemma_conflict_refused(
    first: Space,
    second: Space,
    third: Space,
    virt: VirtAddr,
    phys: u64,
    other: u64,
    mode: MappingMode,
    result: Result<MapOutcome, MapError>,
    refused: Result<MapOutcome, MapError>,
)
    requires
        installs(first, second, virt, phys, mode, result),
        result is Ok,
        phys <= ADDR_MASK,
        other != phys,
        other % 4096 == 0,
        installs(second, third, virt, other, MappingMode::CheckFrameIsFree, refused),
    ensures
        refused == Err::<MapOutcome, MapError>(MapError::AlreadyMapped),
        third == second,
        third.tree.translate(virt) == Some(phys),
{
    assert(second.tree.translate(virt) == Some(phys));
    assert(second.supply.skip(0) =~= second.supply);
}

/// In the remapping mode, installing another frame for a page that is
/// mapped succeeds without a request for a table, and the page is then
/// mapped to the new frame.
pub proof fn lemma_remap_replaces(
    first: Space,
    second: Space,
    third: Space,
    virt: VirtAddr,
    phys: u64,
    other: u64,
    mode: MappingMode,
    result: Result<MapOutcome, MapError>,
    replaced: Result<MapOutcome, MapError>,
)
    requires
        installs(first, second, virt, phys, mode, result),
        result is Ok,
        phys <= ADDR_MASK,
        other != phys,
        other % 4096 == 0,
        other <= ADDR_MASK,
        installs(second, third, virt, other, MappingMode::Remapping, replaced),
    ensures
        replaced == Ok::<MapOutcome, MapError>(MapOutcome::Replaced),
        third.requests == second.requests,
        third.tree.translate(virt) == Some(other),
{
    assert(second.tree.translate(virt) == Some(phys));
}

/// One installation: the address, the frame, the mode and the result.
pub struct Installation {
    pub virt: VirtAddr,
    pub phys: u64,
    pub mode: MappingMode,
    pub result: Result<MapOutcome, MapError>,
}

/// Whether `states` is what a run of installations that started from an
/// empty root went through: the first tree has no present root entry, and
/// each installation leads from one state to the next.
pub open spec fn run_from_empty(states: Seq<Space>, run: Seq<Installation>) -> bool {
    &&& states.len() == run.len() + 1
    &&& states[0].tree.root.len() == 512
    &&& forall|i: int| 0 <= i < 512 ==> !(#[trigger] states[0].tree.root[i]).spec_is_present()
    &&& forall|k: int|
        0 <= k < run.len() ==> installs(
            #[trigger] states[k],
            states[k + 1],
            run[k].virt,
            run[k].phys,
            run[k].mode,
            run[k].result,
        )
}

/// An address for which no installation of a run succeeded, nor for any
/// address that selects the same four slots, translates to nothing at the
/// end of the run.
pub proof fn lemma_never_installed(states: Seq<Space>, run: Seq<Installation>, w: VirtAddr)
    requires
        run_from_empty(states, run),
        forall|k: int|
            0 <= k < run.len() && (#[trigger] run[k]).result is Ok ==> !w.same_page(run[k].virt),
    ensures
        states.last().tree.translate(w) is None,
        states.last().tree.well_formed(),
    decreases run.len(),
{
    if run.len() == 0 {
        lemma_empty_root(states[0].tree);
    } else {
        let k = run.len() - 1;
        let earlier = states.drop_last();
        let before = run.drop_last();
        assert forall|i: int| 0 <= i < before.len() implies installs(
            #[trigger] earlier[i],
            earlier[i + 1],
            before[i].virt,
            before[i].phys,
            before[i].mode,
            before[i].result,
        ) by {
            assert(earlier[i] == states[i]);
            assert(earlier[i + 1] == states[i + 1]);
            assert(before[i] == run[i]);
        }
        assert(earlier[0] == states[0]);
        assert forall|i: int| 0 <= i < before.len() && (#[trigger] before[i]).result is Ok implies !w.same_page(
            before[i].virt,
        ) by {
            assert(before[i] == run[i]);
        }
        lemma_never_installed(earlier, before, w);
        assert(earlier.last() == states[k]);
        assert(installs(
            states[k],
            states[k + 1],
            run[k].virt,
            run[k].phys,
            run[k].mode,
            run[k].result,
        ));
        assert(run[k].result is Ok ==> !w.same_page(run[k].virt));
        assert(states.last() == states[k + 1]);
    }
}

} // verus!
