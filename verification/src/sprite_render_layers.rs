//! The per-frame depth assigner and its frame-integration hooks.
//!
//! Each frame, the host scene hands over one snapshot entry per renderable
//! entity carrying a layer tag: the entity's identifier, its world-space
//! vertical position, and the tag. In static mode every entity receives its
//! layer's base depth unchanged. In dynamic (y-sort) mode all entries are
//! ordered back-to-front — greater world Y first, ties broken by the
//! entity identifier — and the entity at position `i` of that order
//! receives its base depth plus the offset `i / n`, which keeps every
//! offset inside `[0, 1)` and therefore inside its layer's depth band.

use vstd::prelude::*;
use vstd::seq_lib::group_to_multiset_ensures;

use rayon::slice::ParallelSliceMut;

use crate::depth::Depth;
use crate::render_layers::RenderLayers;

verus! {

/// One snapshot entry: a tagged renderable entity as collected from the
/// scene at the start of the frame.
#[derive(Debug, Clone)]
pub struct Entry {
    /// Stable entity identifier; unique within one snapshot.
    pub id: u64,
    /// World-space vertical position, in the renderer's depth-order units.
    pub y: i64,
    /// The layer tag the entity carries.
    pub tag: RenderLayers,
}

/// Process-wide configuration: chooses between static and dynamic depth
/// assignment for the whole frame.
#[derive(Debug, Clone, Copy, PartialEq, Eq, Structural)]
pub struct SpriteLayerOptions {
    /// True selects the dynamic y-sort pass; false the static pass.
    pub y_sort: bool,
}

impl Default for SpriteLayerOptions {
    /// Y-sorting is on unless the host turns it off.
    fn default() -> (r: Self)
        ensures
            r.y_sort,
    {
        SpriteLayerOptions { y_sort: true }
    }
}

/// Draw order between two snapshot entries: `a` draws before (further back
/// than) `b` when its world Y is greater, with ties broken by the entity
/// identifier so the order is strict and total over distinct entities.
pub open spec fn entry_before(a: Entry, b: Entry) -> bool {
    a.y > b.y || (a.y == b.y && a.id < b.id)
}

/// No two snapshot entries name the same entity.
pub open spec fn distinct_ids(entries: Seq<Entry>) -> bool {
    forall|i: int, j: int|
        0 <= i < j < entries.len() ==> (#[trigger] entries[i]).id != (#[trigger] entries[j]).id
}

/// Every entry carries a well-formed tag.
pub open spec fn wf_tags(entries: Seq<Entry>) -> bool {
    forall|i: int| 0 <= i < entries.len() ==> (#[trigger] entries[i]).tag.wf()
}

/// Some entry names this entity.
pub open spec fn has_id(entries: Seq<Entry>, id: u64) -> bool {
    exists|k: int| 0 <= k < entries.len() && (#[trigger] entries[k]).id == id
}

/// The entry naming this entity (unique when identifiers are distinct).
pub open spec fn entry_of(entries: Seq<Entry>, id: u64) -> Entry {
    entries[choose|k: int| 0 <= k < entries.len() && (#[trigger] entries[k]).id == id]
}

/// With distinct identifiers, `entry_of` recovers exactly the entry at any
/// position.
pub proof fn lemma_entry_of(entries: Seq<Entry>, k: int)
    requires
        distinct_ids(entries),
        0 <= k < entries.len(),
    ensures
        has_id(entries, entries[k].id),
        entry_of(entries, entries[k].id) == entries[k],
{
    let id = entries[k].id;
    assert(has_id(entries, id));
    let j = choose|j: int| 0 <= j < entries.len() && (#[trigger] entries[j]).id == id;
    if j != k {
        assert(entries[j].id != entries[k].id);
    }
}

/// The sort key fed to the parallel sort, as a tuple ordered by the
/// standard lexicographic tuple order: negated world Y first (so greater Y
/// sorts first), then the entity identifier, then the layer base depth as a
/// carried payload.
pub open spec fn triple_of(e: Entry) -> (i64, u64, i64) {
    ((-1 - e.y) as i64, e.id, e.tag.spec_base_depth() as i64)
}

/// The lexicographic order on sort-key triples, as std documents for
/// tuples of integers.
pub open spec fn triple_le(a: (i64, u64, i64), b: (i64, u64, i64)) -> bool {
    ||| a.0 < b.0
    ||| (a.0 == b.0 && a.1 < b.1)
    ||| (a.0 == b.0 && a.1 == b.1 && a.2 <= b.2)
}

/// Relies on rayon's `ParallelSliceMut::par_sort_unstable`: it reorders the
/// vector in place (the result is a permutation of the input) into
/// ascending order under the tuple's derived `Ord`, which for integer
/// tuples is the documented lexicographic order.
#[verifier::external_body]
fn par_sort_triples(v: &mut Vec<(i64, u64, i64)>)
    ensures
        final(v)@.to_multiset() == old(v)@.to_multiset(),
        final(v)@.len() == old(v)@.len(),
        forall|i: int, j: int|
            0 <= i < j < final(v)@.len() ==> triple_le(
                #[trigger] final(v)@[i],
                #[trigger] final(v)@[j],
            ),
{
    v.par_sort_unstable();
}

/// What the dynamic (y-sort) pass produces for a snapshot: one pair per
/// entry, each entity appearing exactly once, listed back-to-front by
/// descending world Y (ties broken by identifier), where the entity at
/// position `i` gets its layer's base depth plus the offset `i / n`.
///
/// For a snapshot with distinct identifiers exactly one sequence satisfies
/// this predicate (`lemma_dynamic_assignment_unique`).
pub open spec fn dynamic_assignment(entries: Seq<Entry>, out: Seq<(u64, Depth)>) -> bool {
    &&& entries.len() <= usize::MAX
    &&& out.len() == entries.len()
    &&& forall|i: int| 0 <= i < out.len() ==> has_id(entries, (#[trigger] out[i]).0)
    &&& forall|i: int, j: int|
        0 <= i < j < out.len() ==> (#[trigger] out[i]).0 != (#[trigger] out[j]).0
    &&& forall|k: int|
        0 <= k < entries.len() ==> exists|i: int|
            0 <= i < out.len() && (#[trigger] out[i]).0 == (#[trigger] entries[k]).id
    &&& forall|i: int|
        0 <= i < out.len() ==> (#[trigger] out[i]).1 == (Depth {
            base: entry_of(entries, out[i].0).tag.spec_base_depth() as i64,
            num: i as usize,
            den: entries.len() as usize,
        })
    &&& forall|i: int, j: int|
        0 <= i < j < out.len() ==> entry_before(
            entry_of(entries, (#[trigger] out[i]).0),
            entry_of(entries, (#[trigger] out[j]).0),
        )
}

/// Dynamic-mode depth assignment: orders the snapshot back-to-front and
/// gives the entity at position `i` the depth `base + i / n`.
pub fn map_z_indices(entries: &Vec<Entry>) -> (out: Vec<(u64, Depth)>)
    requires
        distinct_ids(entries@),
        wf_tags(entries@),
    ensures
        dynamic_assignment(entries@, out@),
{
    broadcast use group_to_multiset_ensures;

    let n = entries.len();
    let mut triples: Vec<(i64, u64, i64)> = Vec::new();
    let mut k: usize = 0;
    while k < n
        invariant
            n == entries@.len(),
            wf_tags(entries@),
            0 <= k <= n,
            triples@.len() == k,
            forall|t: int| 0 <= t < k ==> #[trigger] triples@[t] == triple_of(entries@[t]),
        decreases n - k,
    {
        let rev: i64 = -1 - entries[k].y;
        let base: i64 = entries[k].tag.base_depth();
        triples.push((rev, entries[k].id, base));
        k = k + 1;
    }
    let ghost orig = triples@;
    proof {
        lemma_triples_no_duplicates(entries@, orig);
    }
    par_sort_triples(&mut triples);
    proof {
        orig.lemma_multiset_has_no_duplicates();
        triples@.lemma_multiset_has_no_duplicates_conv();
        assert forall|i: int| 0 <= i < triples@.len() implies orig.contains(
            #[trigger] triples@[i],
        ) by {
            assert(triples@.contains(triples@[i]));
            assert(triples@.to_multiset().count(triples@[i]) > 0);
            assert(orig.to_multiset().count(triples@[i]) > 0);
        }
        assert forall|k2: int| 0 <= k2 < orig.len() implies triples@.contains(
            #[trigger] orig[k2],
        ) by {
            assert(orig.contains(orig[k2]));
            assert(orig.to_multiset().count(orig[k2]) > 0);
            assert(triples@.to_multiset().count(orig[k2]) > 0);
        }
    }
    let mut out: Vec<(u64, Depth)> = Vec::new();
    let mut i: usize = 0;
    while i < n
        invariant
            n == entries@.len(),
            n == triples@.len(),
            0 <= i <= n,
            out@.len() == i,
            forall|t: int|
                0 <= t < i ==> #[trigger] out@[t] == (
                triples@[t].1,
                Depth { base: triples@[t].2, num: t as usize, den: n },
                ),
        decreases n - i,
    {
        let t = triples[i];
        out.push((t.1, Depth { base: t.2, num: i, den: n }));
        i = i + 1;
    }
    proof {
        lemma_sorted_triples_give_assignment(entries@, orig, triples@, out@);
    }
    out
}

/// What the static pass produces for a snapshot: each entity, in snapshot
/// order, paired with exactly its layer's base depth — no ordering is
/// imposed and no offset is added.
pub open spec fn static_assignment(entries: Seq<Entry>, out: Seq<(u64, Depth)>) -> bool {
    &&& out.len() == entries.len()
    &&& forall|i: int|
        0 <= i < out.len() ==> (#[trigger] out[i]) == (
        entries[i].id,
        Depth { base: entries[i].tag.spec_base_depth() as i64, num: 0 as usize, den: 1 as usize },
        )
}

/// Static-mode depth assignment: every entity's final depth is its base
/// depth, passed through unchanged.
pub fn static_depths(entries: &Vec<Entry>) -> (out: Vec<(u64, Depth)>)
    requires
        wf_tags(entries@),
    ensures
        static_assignment(entries@, out@),
{
    let n = entries.len();
    let mut out: Vec<(u64, Depth)> = Vec::new();
    let mut i: usize = 0;
    while i < n
        invariant
            n == entries@.len(),
            wf_tags(entries@),
            0 <= i <= n,
            out@.len() == i,
            forall|t: int|
                0 <= t < i ==> (#[trigger] out@[t]) == (
                entries@[t].id,
                Depth {
                    base: entries@[t].tag.spec_base_depth() as i64,
                    num: 0 as usize,
                    den: 1 as usize,
                },
                ),
        decreases n - i,
    {
        let base: i64 = entries[i].tag.base_depth();
        out.push((entries[i].id, Depth { base, num: 0, den: 1 }));
        i = i + 1;
    }
    out
}

/// The frame's depth map: dynamic y-sorted depths when the options ask for
/// them, otherwise the static base-depth passthrough.
pub fn assign_depths(entries: &Vec<Entry>, options: &SpriteLayerOptions) -> (out: Vec<(u64, Depth)>)
    requires
        distinct_ids(entries@),
        wf_tags(entries@),
    ensures
        options.y_sort ==> dynamic_assignment(entries@, out@),
        !options.y_sort ==> static_assignment(entries@, out@),
{
    if options.y_sort {
        map_z_indices(entries)
    } else {
        static_depths(entries)
    }
}

/// Distinct entity identifiers make the sort-key triples pairwise distinct.
proof fn lemma_triples_no_duplicates(entries: Seq<Entry>, triples: Seq<(i64, u64, i64)>)
    requires
        distinct_ids(entries),
        triples.len() == entries.len(),
        forall|t: int| 0 <= t < triples.len() ==> #[trigger] triples[t] == triple_of(entries[t]),
    ensures
        triples.no_duplicates(),
{
    assert forall|i: int, j: int| 0 <= i < j < triples.len() implies triples[i] != triples[j] by {
        assert(entries[i].id != entries[j].id);
    }
}

/// Reading the sorted triples off into depths yields exactly the dynamic
/// assignment the snapshot calls for.
proof fn lemma_sorted_triples_give_assignment(
    entries: Seq<Entry>,
    orig: Seq<(i64, u64, i64)>,
    sorted: Seq<(i64, u64, i64)>,
    out: Seq<(u64, Depth)>,
)
    requires
        distinct_ids(entries),
        entries.len() <= usize::MAX,
        orig.len() == entries.len(),
        forall|t: int| 0 <= t < orig.len() ==> #[trigger] orig[t] == triple_of(entries[t]),
        sorted.len() == orig.len(),
        sorted.no_duplicates(),
        forall|i: int| 0 <= i < sorted.len() ==> orig.contains(#[trigger] sorted[i]),
        forall|k: int| 0 <= k < orig.len() ==> sorted.contains(#[trigger] orig[k]),
        forall|i: int, j: int|
            0 <= i < j < sorted.len() ==> triple_le(#[trigger] sorted[i], #[trigger] sorted[j]),
        out.len() == sorted.len(),
        forall|t: int|
            0 <= t < out.len() ==> #[trigger] out[t] == (
            sorted[t].1,
            Depth { base: sorted[t].2, num: t as usize, den: entries.len() as usize },
            ),
    ensures
        dynamic_assignment(entries, out),
{
    // Each sorted triple is the key of exactly one entry.
    assert forall|i: int| 0 <= i < sorted.len() implies exists|k: int|
        0 <= k < entries.len() && #[trigger] orig[k] == #[trigger] sorted[i] by {
        assert(orig.contains(sorted[i]));
    }
    let source = |i: int| choose|k: int| 0 <= k < entries.len() && #[trigger] orig[k] == sorted[i];
    assert forall|i: int| 0 <= i < out.len() implies has_id(entries, (#[trigger] out[i]).0)
        && entry_of(entries, out[i].0) == entries[source(i)] by {
        let k = source(i);
        assert(orig[k] == sorted[i]);
        assert(entries[k].id == sorted[i].1);
        lemma_entry_of(entries, k);
    }
    // Distinct output entities: a repeated identifier would force a repeated
    // triple, which no_duplicates rules out.
    assert forall|i: int, j: int| 0 <= i < j < out.len() implies (#[trigger] out[i]).0 != (
    #[trigger] out[j]).0 by {
        let ki = source(i);
        let kj = source(j);
        if out[i].0 == out[j].0 {
            assert(entries[ki].id == entries[kj].id);
            if ki != kj {
                assert(entries[ki].id != entries[kj].id);
            }
            assert(sorted[i] == sorted[j]);
        }
    }
    // Every snapshot entity appears in the output.
    assert forall|k: int| 0 <= k < entries.len() implies exists|i: int|
        0 <= i < out.len() && (#[trigger] out[i]).0 == (#[trigger] entries[k]).id by {
        assert(sorted.contains(orig[k]));
        let i = choose|i: int| 0 <= i < sorted.len() && #[trigger] sorted[i] == orig[k];
        assert(out[i].0 == entries[k].id);
    }
    // Back-to-front ordering of the underlying entries.
    assert forall|i: int, j: int| 0 <= i < j < out.len() implies entry_before(
        entry_of(entries, (#[trigger] out[i]).0),
        entry_of(entries, (#[trigger] out[j]).0),
    ) by {
        let ki = source(i);
        let kj = source(j);
        assert(triple_le(sorted[i], sorted[j]));
        assert(sorted[i] != sorted[j]);
        let a = entries[ki];
        let b = entries[kj];
        assert(sorted[i] == triple_of(a));
        assert(sorted[j] == triple_of(b));
        if a.id == b.id {
            if ki != kj {
                assert(entries[ki].id != entries[kj].id);
            }
            assert(false);
        }
        assert(entry_before(a, b));
    }
}

} // verus!
