//! Layer-indexed sprite depth assignment.
//!
//! A renderable entity carries a layer tag: a single logical layer, or a
//! non-empty set of layers from which an effective layer is derived. Each
//! frame, every tagged entity receives a depth value: in static mode, the
//! base depth of its effective layer; in dynamic (y-sort) mode, the base
//! depth plus a fractional offset that orders entities back-to-front by
//! descending world Y, so that sprites lower on screen draw on top, while
//! never crossing into another layer's depth band.

pub mod configuration;
pub mod depth;
pub mod frame;
pub mod laws;
pub mod player_identification;
pub mod render_layers;
pub mod sprite_render_layers;

pub use configuration::AxisDirection;
pub use configuration::KeyAction;
pub use configuration::TextureTarget;
pub use configuration::default_texture_pack_key;
pub use depth::Depth;
pub use frame::SpriteSlot;
pub use frame::find_depth;
pub use frame::update_sprite_z_coordinate;
pub use frame::write_back;
pub use player_identification::PlayerIndex;
pub use render_layers::EntityLayer;
pub use render_layers::LayerTagError;
pub use render_layers::RenderLayers;
pub use sprite_render_layers::Entry;
pub use sprite_render_layers::SpriteLayerOptions;
pub use sprite_render_layers::assign_depths;
pub use sprite_render_layers::map_z_indices;
pub use sprite_render_layers::static_depths;
