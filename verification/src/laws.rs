//! The ordering guarantees of the dynamic depth assignment, stated and
//! proved against the assignment predicate that `assign_depths` ensures.

use vstd::prelude::*;

use crate::depth::Depth;
use crate::depth::lemma_same_base_order;
use crate::sprite_render_layers::Entry;
use crate::sprite_render_layers::distinct_ids;
use crate::sprite_render_layers::dynamic_assignment;
use crate::sprite_render_layers::entry_before;
use crate::sprite_render_layers::entry_of;

verus! {

/// Cross-layer containment: whenever one assigned entity's layer base depth
/// is below another's, the first's final depth is strictly below the
/// second's, whatever their world positions — the y-sort offset never
/// pushes a depth across a layer boundary.
pub proof fn lemma_total_order_containment(
    entries: Seq<Entry>,
    out: Seq<(u64, Depth)>,
    i: int,
    j: int,
)
    requires
        dynamic_assignment(entries, out),
        0 <= i < out.len(),
        0 <= j < out.len(),
        entry_of(entries, out[i].0).tag.spec_base_depth() < entry_of(
            entries,
            out[j].0,
        ).tag.spec_base_depth(),
    ensures
        out[i].1.lt(out[j].1),
{
    crate::render_layers::lemma_base_depth_range(
        entry_of(entries, out[i].0).tag.spec_effective_layer(),
    );
    crate::render_layers::lemma_base_depth_range(
        entry_of(entries, out[j].0).tag.spec_effective_layer(),
    );
}

/// Intra-layer monotonicity: among entities assigned within one frame, any
/// pair sharing one effective layer receives strictly increasing depths in
/// output order, which the assignment keeps back-to-front by descending
/// world Y (ties broken by identifier) — no ties and no inversions, for
/// snapshots of any size.
pub proof fn lemma_intra_layer_monotonic(
    entries: Seq<Entry>,
    out: Seq<(u64, Depth)>,
    i: int,
    j: int,
)
    requires
        dynamic_assignment(entries, out),
        0 <= i < j < out.len(),
        entry_of(entries, out[i].0).tag.spec_base_depth() == entry_of(
            entries,
            out[j].0,
        ).tag.spec_base_depth(),
    ensures
        out[i].1.lt(out[j].1),
        entry_before(entry_of(entries, out[i].0), entry_of(entries, out[j].0)),
{
    lemma_same_base_order(out[i].1, out[j].1);
}

/// Determinism: a snapshot with distinct entity identifiers admits exactly
/// one dynamic assignment, so two evaluations of one snapshot — whatever
/// the parallel sort did internally — produce identical depth maps.
pub proof fn lemma_dynamic_assignment_unique(
    entries: Seq<Entry>,
    out1: Seq<(u64, Depth)>,
    out2: Seq<(u64, Depth)>,
)
    requires
        distinct_ids(entries),
        dynamic_assignment(entries, out1),
        dynamic_assignment(entries, out2),
    ensures
        out1 == out2,
{
    let ids1 = Seq::new(out1.len(), |i: int| out1[i].0);
    let ids2 = Seq::new(out2.len(), |i: int| out2[i].0);
    assert forall|id: u64| ids1.contains(id) implies ids2.contains(id) by {
        let i = choose|i: int| 0 <= i < ids1.len() && ids1[i] == id;
        assert(has_id_witness(entries, out1, i));
        let k = choose|k: int| 0 <= k < entries.len() && (#[trigger] entries[k]).id == id;
        let i2 = choose|i2: int| 0 <= i2 < out2.len() && (#[trigger] out2[i2]).0 == entries[k].id;
        assert(ids2[i2] == id);
    }
    assert forall|id: u64| ids2.contains(id) implies ids1.contains(id) by {
        let i = choose|i: int| 0 <= i < ids2.len() && ids2[i] == id;
        assert(has_id_witness(entries, out2, i));
        let k = choose|k: int| 0 <= k < entries.len() && (#[trigger] entries[k]).id == id;
        let i1 = choose|i1: int| 0 <= i1 < out1.len() && (#[trigger] out1[i1]).0 == entries[k].id;
        assert(ids1[i1] == id);
    }
    lemma_ordered_ids_unique(entries, ids1, ids2);
    assert forall|i: int| 0 <= i < out1.len() implies #[trigger] out1[i] == out2[i] by {
        assert(ids1[i] == ids2[i]);
        assert(out1[i].0 == out2[i].0);
        assert(out1[i].1 == out2[i].1);
    }
    assert(out1 =~= out2);
}

/// Stability under a no-op frame: if no entity's position or tag changed
/// between two frames, the two frames' snapshots are equal, and the dynamic
/// assignment is identical across both.
pub proof fn lemma_no_op_frame_stable(
    entries1: Seq<Entry>,
    entries2: Seq<Entry>,
    out1: Seq<(u64, Depth)>,
    out2: Seq<(u64, Depth)>,
)
    requires
        entries1 == entries2,
        distinct_ids(entries1),
        dynamic_assignment(entries1, out1),
        dynamic_assignment(entries2, out2),
    ensures
        out1 == out2,
{
    lemma_dynamic_assignment_unique(entries1, out1, out2);
}

/// Helper trigger shape: position `i` of an assignment names an entity of
/// the snapshot.
spec fn has_id_witness(entries: Seq<Entry>, out: Seq<(u64, Depth)>, i: int) -> bool {
    0 <= i < out.len() && exists|k: int|
        0 <= k < entries.len() && (#[trigger] entries[k]).id == out[i].0
}

/// Two enumerations of the same entities, both strictly ordered by the draw
/// order of the entries they name, list them identically.
proof fn lemma_ordered_ids_unique(entries: Seq<Entry>, ids1: Seq<u64>, ids2: Seq<u64>)
    requires
        ids1.len() == ids2.len(),
        forall|i: int, j: int|
            0 <= i < j < ids1.len() ==> entry_before(
                entry_of(entries, #[trigger] ids1[i]),
                entry_of(entries, #[trigger] ids1[j]),
            ),
        forall|i: int, j: int|
            0 <= i < j < ids2.len() ==> entry_before(
                entry_of(entries, #[trigger] ids2[i]),
                entry_of(entries, #[trigger] ids2[j]),
            ),
        forall|id: u64| ids1.contains(id) <==> ids2.contains(id),
    ensures
        ids1 =~= ids2,
    decreases ids1.len(),
{
    if ids1.len() > 0 {
        let h1 = ids1[0];
        let h2 = ids2[0];
        assert(ids1.contains(h1));
        assert(ids2.contains(h2));
        assert(ids2.contains(h1));
        assert(ids1.contains(h2));
        let k2 = choose|k: int| 0 <= k < ids2.len() && ids2[k] == h1;
        let k1 = choose|k: int| 0 <= k < ids1.len() && ids1[k] == h2;
        if k1 > 0 && k2 > 0 {
            assert(entry_before(entry_of(entries, ids1[0]), entry_of(entries, ids1[k1])));
            assert(entry_before(entry_of(entries, ids2[0]), entry_of(entries, ids2[k2])));
            assert(false);
        }
        assert(h1 == h2);
        let t1 = ids1.drop_first();
        let t2 = ids2.drop_first();
        assert forall|id: u64| t1.contains(id) implies t2.contains(id) by {
            lemma_tail_contains(entries, ids1, id);
            assert(ids2.contains(id));
            lemma_tail_contains(entries, ids2, id);
        }
        assert forall|id: u64| t2.contains(id) implies t1.contains(id) by {
            lemma_tail_contains(entries, ids2, id);
            assert(ids1.contains(id));
            lemma_tail_contains(entries, ids1, id);
        }
        lemma_ordered_ids_unique(entries, t1, t2);
        assert forall|i: int| 0 <= i < ids1.len() implies ids1[i] == ids2[i] by {
            if i > 0 {
                assert(t1[i - 1] == t2[i - 1]);
            }
        }
    }
}

/// In a strictly ordered enumeration the head never recurs, so the tail
/// holds exactly the other entities.
proof fn lemma_tail_contains(entries: Seq<Entry>, ids: Seq<u64>, id: u64)
    requires
        ids.len() > 0,
        forall|i: int, j: int|
            0 <= i < j < ids.len() ==> entry_before(
                entry_of(entries, #[trigger] ids[i]),
                entry_of(entries, #[trigger] ids[j]),
            ),
    ensures
        ids.drop_first().contains(id) <==> (ids.contains(id) && id != ids[0]),
{
    let t = ids.drop_first();
    if t.contains(id) {
        let p = choose|p: int| 0 <= p < t.len() && t[p] == id;
        assert(ids[p + 1] == id);
        if id == ids[0] {
            assert(entry_before(entry_of(entries, ids[0]), entry_of(entries, ids[p + 1])));
            assert(false);
        }
        assert(ids.contains(id));
    }
    if ids.contains(id) && id != ids[0] {
        let p = choose|p: int| 0 <= p < ids.len() && ids[p] == id;
        assert(t[p - 1] == id);
        assert(t.contains(id));
    }
}

} // verus!
