use play_nice::Depth;
use play_nice::Entry;
use play_nice::EntityLayer;
use play_nice::RenderLayers;
use play_nice::SpriteLayerOptions;
use play_nice::assign_depths;
use play_nice::map_z_indices;
use play_nice::static_depths;

fn player_entry(id: u64, y: i64) -> Entry {
    Entry { id, y, tag: RenderLayers::single(EntityLayer::Player) }
}

fn as_f64(d: &Depth) -> f64 {
    d.base as f64 + d.num as f64 / d.den as f64
}

#[test]
fn three_players_get_thirds_back_to_front() {
    // World Y 10, 5, 0 with base depth 20: offsets 0/3, 1/3, 2/3 in
    // descending-Y order.
    let entries = vec![player_entry(1, 10), player_entry(2, 5), player_entry(3, 0)];
    let out = map_z_indices(&entries);
    assert_eq!(
        out,
        vec![
            (1, Depth { base: 20, num: 0, den: 3 }),
            (2, Depth { base: 20, num: 1, den: 3 }),
            (3, Depth { base: 20, num: 2, den: 3 }),
        ]
    );
    assert!((as_f64(&out[0].1) - 20.0).abs() < 1e-9);
    assert!((as_f64(&out[1].1) - 20.333333333).abs() < 1e-6);
    assert!((as_f64(&out[2].1) - 20.666666667).abs() < 1e-6);
}

#[test]
fn snapshot_order_does_not_matter() {
    // Same entities handed over in a different order: the sort decides.
    let entries = vec![player_entry(3, 0), player_entry(1, 10), player_entry(2, 5)];
    let out = map_z_indices(&entries);
    assert_eq!(
        out,
        vec![
            (1, Depth { base: 20, num: 0, den: 3 }),
            (2, Depth { base: 20, num: 1, den: 3 }),
            (3, Depth { base: 20, num: 2, den: 3 }),
        ]
    );
}

#[test]
fn equal_y_breaks_ties_by_identifier() {
    let entries = vec![player_entry(9, 4), player_entry(2, 4), player_entry(5, 4)];
    let out = map_z_indices(&entries);
    assert_eq!(out[0].0, 2);
    assert_eq!(out[1].0, 5);
    assert_eq!(out[2].0, 9);
}

#[test]
fn identical_snapshots_give_identical_output() {
    let entries = vec![
        player_entry(4, -3),
        player_entry(7, 12),
        Entry { id: 11, y: -3, tag: RenderLayers::single(EntityLayer::Object) },
    ];
    let twin = vec![
        player_entry(4, -3),
        player_entry(7, 12),
        Entry { id: 11, y: -3, tag: RenderLayers::single(EntityLayer::Object) },
    ];
    assert_eq!(map_z_indices(&entries), map_z_indices(&twin));
}

#[test]
fn lower_layer_stays_below_whatever_the_positions() {
    // A Background entity far below on screen still draws behind a Player
    // far above: the offset never crosses the layer gap.
    let entries = vec![
        Entry { id: 1, y: -100, tag: RenderLayers::single(EntityLayer::Background) },
        Entry { id: 2, y: 100, tag: RenderLayers::single(EntityLayer::Player) },
    ];
    let out = map_z_indices(&entries);
    let bg = out.iter().find(|p| p.0 == 1).unwrap().1;
    let player = out.iter().find(|p| p.0 == 2).unwrap().1;
    assert!(bg.is_lt(&player));
    assert!(!player.is_lt(&bg));
}

#[test]
fn empty_snapshot_is_a_no_op() {
    let entries: Vec<Entry> = vec![];
    assert_eq!(map_z_indices(&entries), vec![]);
}

#[test]
fn static_mode_passes_base_depth_through() {
    let entries = vec![
        player_entry(1, 10),
        Entry { id: 2, y: -50, tag: RenderLayers::single(EntityLayer::Background) },
    ];
    let options = SpriteLayerOptions { y_sort: false };
    let out = assign_depths(&entries, &options);
    assert_eq!(
        out,
        vec![(1, Depth { base: 20, num: 0, den: 1 }), (2, Depth { base: -1, num: 0, den: 1 })]
    );
    assert_eq!(out, static_depths(&entries));
}

#[test]
fn dynamic_mode_is_the_default() {
    let options = SpriteLayerOptions::default();
    assert!(options.y_sort);
    let entries = vec![player_entry(1, 1), player_entry(2, 0)];
    let out = assign_depths(&entries, &options);
    assert_eq!(out, map_z_indices(&entries));
    assert_eq!(out[0].1.den, 2);
}

#[test]
fn many_entities_in_one_layer_get_strictly_increasing_depths() {
    let mut entries = Vec::new();
    for k in 0..10_000u64 {
        // Descending Y so the snapshot order is already back-to-front.
        entries.push(player_entry(k + 1, 10_000 - k as i64));
    }
    let out = map_z_indices(&entries);
    assert_eq!(out.len(), 10_000);
    for k in 0..9_999 {
        assert!(out[k].1.is_lt(&out[k + 1].1));
        assert!(!out[k + 1].1.is_lt(&out[k].1));
    }
    assert_eq!(out[0].0, 1);
    assert_eq!(out[9_999].0, 10_000);
}
