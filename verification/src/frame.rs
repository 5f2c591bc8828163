//! Write-back of the frame's depth map into the extracted sprites.
//!
//! After the host collects its extracted sprites and before it queues them
//! for drawing, the depth each tagged entity was assigned is written into
//! that sprite's transform, leaving the horizontal and vertical components
//! untouched. A sprite whose depth was already non-zero is reported: some
//! other mechanism also claimed the depth field, which this subsystem owns.
//! The value is overwritten regardless and the frame never fails.

use vstd::prelude::*;

use crate::depth::Depth;
use crate::sprite_render_layers::Entry;
use crate::sprite_render_layers::SpriteLayerOptions;
use crate::sprite_render_layers::assign_depths;
use crate::sprite_render_layers::distinct_ids;
use crate::sprite_render_layers::dynamic_assignment;
use crate::sprite_render_layers::static_assignment;
use crate::sprite_render_layers::wf_tags;

verus! {

/// One extracted sprite's draw transform, as this subsystem sees it: the
/// entity it belongs to, the translation components it must not touch, and
/// the depth component it owns.
#[derive(Debug, Clone, Copy, PartialEq, Eq, Structural)]
pub struct SpriteSlot {
    /// The entity the sprite was extracted from.
    pub id: u64,
    /// Horizontal translation; never written by this subsystem.
    pub x: i64,
    /// Vertical translation; never written by this subsystem.
    pub y: i64,
    /// The depth component this subsystem owns and overwrites.
    pub z: Depth,
}

/// The depth the map assigns to an entity: the first pair naming it, or
/// nothing for an entity outside the map.
pub open spec fn map_lookup(map: Seq<(u64, Depth)>, id: u64) -> Option<Depth>
    decreases map.len(),
{
    if map.len() == 0 {
        None
    } else if map[0].0 == id {
        Some(map[0].1)
    } else {
        map_lookup(map.drop_first(), id)
    }
}

/// Finds the depth assigned to an entity this frame.
pub fn find_depth(map: &Vec<(u64, Depth)>, id: u64) -> (r: Option<Depth>)
    ensures
        r == map_lookup(map@, id),
{
    let n = map.len();
    let mut k: usize = 0;
    proof {
        assert(map@.skip(0) =~= map@);
    }
    while k < n
        invariant
            n == map@.len(),
            0 <= k <= n,
            map_lookup(map@, id) == map_lookup(map@.skip(k as int), id),
        decreases n - k,
    {
        proof {
            assert(map@.skip(k as int).drop_first() =~= map@.skip(k + 1 as int));
        }
        if map[k].0 == id {
            return Some(map[k].1);
        }
        k = k + 1;
    }
    None
}

/// The entities warned about this frame, in sprite order: those that both
/// received a depth and already had a non-zero depth before the write.
pub open spec fn warn_list(sprites: Seq<SpriteSlot>, map: Seq<(u64, Depth)>) -> Seq<u64>
    decreases sprites.len(),
{
    if sprites.len() == 0 {
        Seq::empty()
    } else {
        let rest = warn_list(sprites.drop_last(), map);
        if map_lookup(map, sprites.last().id) is Some && !sprites.last().z.spec_is_zero() {
            rest.push(sprites.last().id)
        } else {
            rest
        }
    }
}

/// How one frame's write-back relates the sprites after it to the sprites
/// before it: every sprite keeps its entity and translation, a sprite whose
/// entity is in the depth map takes exactly the mapped depth (overwritten
/// regardless of what was there), and every other sprite is untouched.
pub open spec fn frame_written(
    old_sprites: Seq<SpriteSlot>,
    new_sprites: Seq<SpriteSlot>,
    map: Seq<(u64, Depth)>,
) -> bool {
    &&& new_sprites.len() == old_sprites.len()
    &&& forall|i: int|
        0 <= i < old_sprites.len() ==> (#[trigger] new_sprites[i]) == (match map_lookup(
            map,
            old_sprites[i].id,
        ) {
            Some(d) => SpriteSlot { z: d, ..old_sprites[i] },
            None => old_sprites[i],
        })
}

/// Writes the frame's depth map into the sprites and reports, once per
/// sprite and in sprite order, every entity whose depth was already
/// non-zero before this subsystem wrote it.
pub fn write_back(sprites: &mut Vec<SpriteSlot>, map: &Vec<(u64, Depth)>) -> (warned: Vec<u64>)
    ensures
        frame_written(old(sprites)@, final(sprites)@, map@),
        warned@ == warn_list(old(sprites)@, map@),
{
    let n = sprites.len();
    let mut warned: Vec<u64> = Vec::new();
    let mut i: usize = 0;
    while i < n
        invariant
            n == old(sprites)@.len(),
            sprites@.len() == n,
            0 <= i <= n,
            forall|t: int| i <= t < n ==> #[trigger] sprites@[t] == old(sprites)@[t],
            forall|t: int|
                0 <= t < i ==> (#[trigger] sprites@[t]) == (match map_lookup(
                    map@,
                    old(sprites)@[t].id,
                ) {
                    Some(d) => SpriteSlot { z: d, ..old(sprites)@[t] },
                    None => old(sprites)@[t],
                }),
            warned@ == warn_list(old(sprites)@.subrange(0, i as int), map@),
        decreases n - i,
    {
        proof {
            assert(old(sprites)@.subrange(0, i + 1 as int).drop_last() =~= old(
                sprites,
            )@.subrange(0, i as int));
            assert(old(sprites)@.subrange(0, i + 1 as int).last() == old(sprites)@[i as int]);
        }
        let slot = sprites[i];
        match find_depth(map, slot.id) {
            Some(d) => {
                if !slot.z.is_zero() {
                    warned.push(slot.id);
                }
                sprites[i] = SpriteSlot { z: d, ..slot };
            },
            None => {},
        }
        i = i + 1;
    }
    proof {
        assert(old(sprites)@.subrange(0, n as int) =~= old(sprites)@);
    }
    warned
}

/// One whole frame: assigns this frame's depths from the snapshot (dynamic
/// or static, as the options say) and writes them back into the sprites,
/// returning the conflicting-depth report.
pub fn update_sprite_z_coordinate(
    sprites: &mut Vec<SpriteSlot>,
    entries: &Vec<Entry>,
    options: &SpriteLayerOptions,
) -> (warned: Vec<u64>)
    requires
        distinct_ids(entries@),
        wf_tags(entries@),
    ensures
        exists|m: Seq<(u64, Depth)>|
            {
                &&& #[trigger] frame_written(old(sprites)@, final(sprites)@, m)
                &&& warned@ == warn_list(old(sprites)@, m)
                &&& options.y_sort ==> dynamic_assignment(entries@, m)
                &&& !options.y_sort ==> static_assignment(entries@, m)
            },
{
    let map = assign_depths(entries, options);
    let warned = write_back(sprites, &map);
    proof {
        assert(frame_written(old(sprites)@, sprites@, map@));
    }
    warned
}

} // verus!
