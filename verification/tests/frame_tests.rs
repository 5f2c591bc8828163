use play_nice::Depth;
use play_nice::Entry;
use play_nice::EntityLayer;
use play_nice::RenderLayers;
use play_nice::SpriteLayerOptions;
use play_nice::SpriteSlot;
use play_nice::find_depth;
use play_nice::update_sprite_z_coordinate;
use play_nice::write_back;

fn player_entry(id: u64, y: i64) -> Entry {
    Entry { id, y, tag: RenderLayers::single(EntityLayer::Player) }
}

#[test]
fn preset_depth_is_overwritten_and_warned_once() {
    // The sprite arrives with a non-zero depth of 5: the subsystem owns the
    // field, overwrites it, and reports the conflict exactly once.
    let entries = vec![player_entry(1, 10), player_entry(2, 5), player_entry(3, 0)];
    let mut sprites = vec![
        SpriteSlot { id: 1, x: 3, y: 10, z: Depth::whole(0) },
        SpriteSlot { id: 2, x: -8, y: 5, z: Depth::whole(5) },
        SpriteSlot { id: 3, x: 0, y: 0, z: Depth::whole(0) },
    ];
    let warned = update_sprite_z_coordinate(&mut sprites, &entries, &SpriteLayerOptions::default());
    assert_eq!(sprites[1].z, Depth { base: 20, num: 1, den: 3 });
    assert_eq!(warned, vec![2]);
}

#[test]
fn zero_depth_sprites_are_not_warned() {
    let entries = vec![player_entry(1, 0)];
    let mut sprites = vec![SpriteSlot { id: 1, x: 0, y: 0, z: Depth::whole(0) }];
    let warned = update_sprite_z_coordinate(&mut sprites, &entries, &SpriteLayerOptions::default());
    assert_eq!(sprites[0].z, Depth { base: 20, num: 0, den: 1 });
    assert!(warned.is_empty());
}

#[test]
fn untagged_sprites_are_left_alone() {
    // Entity 7 carries no layer tag, so it is not in the snapshot: its
    // pre-existing transform survives the frame untouched.
    let entries = vec![player_entry(1, 0)];
    let mut sprites = vec![
        SpriteSlot { id: 1, x: 1, y: 2, z: Depth::whole(0) },
        SpriteSlot { id: 7, x: 4, y: 9, z: Depth::whole(3) },
    ];
    update_sprite_z_coordinate(&mut sprites, &entries, &SpriteLayerOptions::default());
    assert_eq!(sprites[1], SpriteSlot { id: 7, x: 4, y: 9, z: Depth::whole(3) });
}

#[test]
fn write_back_keeps_translation_components() {
    let map = vec![(1, Depth { base: 2, num: 1, den: 4 })];
    let mut sprites = vec![SpriteSlot { id: 1, x: -17, y: 99, z: Depth::whole(0) }];
    let warned = write_back(&mut sprites, &map);
    assert_eq!(sprites[0], SpriteSlot { id: 1, x: -17, y: 99, z: Depth { base: 2, num: 1, den: 4 } });
    assert!(warned.is_empty());
}

#[test]
fn static_frame_writes_base_depths() {
    let entries = vec![
        player_entry(1, 10),
        Entry { id: 2, y: 0, tag: RenderLayers::single(EntityLayer::Accent) },
    ];
    let mut sprites = vec![
        SpriteSlot { id: 1, x: 0, y: 10, z: Depth::whole(0) },
        SpriteSlot { id: 2, x: 0, y: 0, z: Depth::whole(0) },
    ];
    let options = SpriteLayerOptions { y_sort: false };
    update_sprite_z_coordinate(&mut sprites, &entries, &options);
    assert_eq!(sprites[0].z, Depth::whole(20));
    assert_eq!(sprites[1].z, Depth::whole(3));
}

#[test]
fn depth_map_lookup_finds_assigned_entities_only() {
    let map = vec![(4, Depth::whole(1)), (6, Depth::whole(2))];
    assert_eq!(find_depth(&map, 4), Some(Depth::whole(1)));
    assert_eq!(find_depth(&map, 6), Some(Depth::whole(2)));
    assert_eq!(find_depth(&map, 5), None);
}
