//! The layer catalog and the layer tag attached to renderable entities.
//!
//! Logical layers form a fixed, closed, totally ordered enumeration from
//! background to foreground; each maps to one integer base depth, and the
//! declaration order is the depth order. A tag names either a single layer
//! or a non-empty set of layers, whose effective layer is the one with the
//! greatest base depth.

use vstd::prelude::*;

verus! {

/// A logical rendering layer. Declaration order is depth order: each later
/// variant has a strictly greater base depth.
#[derive(Debug, Clone, Copy, PartialEq, Eq, PartialOrd, Ord, Structural)]
pub enum EntityLayer {
    Background,
    Debugging,
    Furniture,
    Object,
    Accent,
    Player,
    HeldObject,
    OfficeLevelFurniture,
    OfficeLevelAccent,
    SuperVisor,
}

/// The base depth of a logical layer. Gameplay layers sit well above the
/// scenery band, and consecutive bases are at least one apart, so a y-sort
/// offset in `[0, 1)` can never cross from one layer's band into the next.
pub open spec fn spec_base_depth(layer: EntityLayer) -> int {
    match layer {
        EntityLayer::Background => -1,
        EntityLayer::Debugging => 0,
        EntityLayer::Furniture => 1,
        EntityLayer::Object => 2,
        EntityLayer::Accent => 3,
        EntityLayer::Player => 20,
        EntityLayer::HeldObject => 21,
        EntityLayer::OfficeLevelFurniture => 22,
        EntityLayer::OfficeLevelAccent => 23,
        EntityLayer::SuperVisor => 24,
    }
}

/// The layer of greatest base depth in a non-empty sequence; on ties the
/// earliest occurrence wins. (Bases are distinct across distinct layers, so
/// a tie can only repeat one layer.)
pub open spec fn max_base_layer(layers: Seq<EntityLayer>) -> EntityLayer
    decreases layers.len(),
{
    if layers.len() <= 1 {
        layers[0]
    } else {
        let rest = max_base_layer(layers.drop_last());
        if spec_base_depth(layers.last()) > spec_base_depth(rest) {
            layers.last()
        } else {
            rest
        }
    }
}

/// The chosen layer is a member of the sequence and its base depth is
/// maximal among the members.
pub proof fn lemma_max_base_layer(layers: Seq<EntityLayer>)
    requires
        layers.len() > 0,
    ensures
        layers.contains(max_base_layer(layers)),
        forall|i: int|
            0 <= i < layers.len() ==> spec_base_depth(#[trigger] layers[i]) <= spec_base_depth(
                max_base_layer(layers),
            ),
    decreases layers.len(),
{
    if layers.len() > 1 {
        lemma_max_base_layer(layers.drop_last());
        let rest = max_base_layer(layers.drop_last());
        if spec_base_depth(layers.last()) > spec_base_depth(rest) {
            assert(layers[layers.len() - 1] == max_base_layer(layers));
        } else {
            let j = choose|j: int|
                0 <= j < layers.drop_last().len() && layers.drop_last()[j] == rest;
            assert(layers[j] == max_base_layer(layers));
        }
        assert(forall|i: int|
            0 <= i < layers.len() - 1 ==> layers.drop_last()[i] == #[trigger] layers[i]);
    }
}

/// Every base depth lies in the catalog's fixed band, so it always fits
/// the integer part of a depth value.
pub proof fn lemma_base_depth_range(layer: EntityLayer)
    ensures
        -1 <= spec_base_depth(layer) <= 24,
{
}

impl EntityLayer {
    /// The base depth value reserved for this layer.
    pub fn base_depth(&self) -> (r: i64)
        ensures
            r == spec_base_depth(*self),
    {
        match self {
            EntityLayer::Background => -1,
            EntityLayer::Debugging => 0,
            EntityLayer::Furniture => 1,
            EntityLayer::Object => 2,
            EntityLayer::Accent => 3,
            EntityLayer::Player => 20,
            EntityLayer::HeldObject => 21,
            EntityLayer::OfficeLevelFurniture => 22,
            EntityLayer::OfficeLevelAccent => 23,
            EntityLayer::SuperVisor => 24,
        }
    }
}

/// Rejected layer-tag constructions.
#[derive(Debug, Clone, Copy, PartialEq, Eq, Structural)]
pub enum LayerTagError {
    /// A multi-layer tag was given an empty layer set.
    EmptyMulti,
}

/// The layer tag a renderable entity carries: one logical layer, or a
/// non-empty set of logical layers.
#[derive(Debug, Clone)]
pub enum RenderLayers {
    Single(EntityLayer),
    Multi(Vec<EntityLayer>),
}

impl RenderLayers {
    /// A multi-layer tag holds at least one layer.
    pub open spec fn wf(self) -> bool {
        match self {
            RenderLayers::Single(_) => true,
            RenderLayers::Multi(layers) => layers@.len() > 0,
        }
    }

    /// The effective layer: the single layer, or the member of greatest
    /// base depth of a multi tag.
    pub open spec fn spec_effective_layer(self) -> EntityLayer {
        match self {
            RenderLayers::Single(layer) => layer,
            RenderLayers::Multi(layers) => max_base_layer(layers@),
        }
    }

    /// The base depth the tag derives: that of its effective layer.
    pub open spec fn spec_base_depth(self) -> int {
        spec_base_depth(self.spec_effective_layer())
    }

    /// Tags an entity with a single logical layer.
    pub fn single(layer: EntityLayer) -> (r: RenderLayers)
        ensures
            r == RenderLayers::Single(layer),
            r.wf(),
    {
        RenderLayers::Single(layer)
    }

    /// Tags an entity with a set of logical layers. An empty set is an
    /// input-validation error, never silently defaulted.
    pub fn multi(layers: Vec<EntityLayer>) -> (r: Result<RenderLayers, LayerTagError>)
        ensures
            r is Err <==> layers@.len() == 0,
            r matches Err(e) ==> e == LayerTagError::EmptyMulti,
            r matches Ok(t) ==> t == RenderLayers::Multi(layers) && t.wf(),
    {
        if layers.len() == 0 {
            Err(LayerTagError::EmptyMulti)
        } else {
            Ok(RenderLayers::Multi(layers))
        }
    }

    /// The layer this tag resolves to: for a multi tag, the member with the
    /// greatest base depth (ties can only repeat one layer, so the choice is
    /// unambiguous).
    pub fn effective_layer(&self) -> (r: EntityLayer)
        requires
            self.wf(),
        ensures
            r == self.spec_effective_layer(),
    {
        match self {
            RenderLayers::Single(layer) => *layer,
            RenderLayers::Multi(layers) => {
                let mut best: EntityLayer = layers[0];
                let mut i: usize = 1;
                while i < layers.len()
                    invariant
                        1 <= i <= layers@.len(),
                        best == max_base_layer(layers@.subrange(0, i as int)),
                    decreases layers@.len() - i,
                {
                    proof {
                        assert(layers@.subrange(0, i + 1 as int).drop_last() =~= layers@.subrange(
                            0,
                            i as int,
                        ));
                    }
                    if layers[i].base_depth() > best.base_depth() {
                        best = layers[i];
                    }
                    i = i + 1;
                }
                proof {
                    assert(layers@.subrange(0, layers@.len() as int) =~= layers@);
                }
                best
            },
        }
    }

    /// The base depth of the effective layer.
    pub fn base_depth(&self) -> (r: i64)
        requires
            self.wf(),
        ensures
            r == self.spec_base_depth(),
    {
        self.effective_layer().base_depth()
    }
}

} // verus!
