use play_nice::AxisDirection;
use play_nice::KeyAction;
use play_nice::PlayerIndex;
use play_nice::TextureTarget;
use play_nice::default_texture_pack_key;

#[test]
fn texture_pack_key_defaults_to_default() {
    assert_eq!(default_texture_pack_key(), "default");
}

#[test]
fn player_indices_are_zero_based() {
    assert_eq!(PlayerIndex::Player1.index(), 0);
    assert_eq!(PlayerIndex::Player2.index(), 1);
}

#[test]
fn configuration_vocabulary_is_usable() {
    assert_ne!(AxisDirection::Positive, AxisDirection::Negative);
    assert_ne!(KeyAction::Sprint, KeyAction::PickupOrThrow);
    assert_ne!(TextureTarget::Package, TextureTarget::Conveyor);
}
