//! Configuration vocabulary shared with the host application: the key
//! actions and texture targets its settings file speaks of, and the default
//! texture-pack key.
//!
//! Reading, parsing and defaulting the settings file itself is the host's
//! concern; these are the plain values its configuration is built from.

use vstd::prelude::*;
use vstd::string::StringExecFns;

verus! {

/// Which way a controller axis must move to trigger a binding.
#[derive(Debug, Clone, Copy, PartialEq, Eq, Structural)]
pub enum AxisDirection {
    Positive,
    Negative,
}

/// An input action a key binding can be mapped to.
#[derive(Debug, Clone, Copy, PartialEq, Eq, Structural)]
pub enum KeyAction {
    MoveUp,
    MoveDown,
    MoveLeft,
    MoveRight,
    Sprint,
    PickupOrThrow,
}

/// A slot a texture pack supplies sprites for.
#[derive(Debug, Clone, Copy, PartialEq, Eq, Structural)]
pub enum TextureTarget {
    AllPlayers,
    Supervisor,
    Package,
    Conveyor,
    Background,
    SupervisorOffice,
    ScoreDisplay,
}

/// The key under which the built-in texture pack is registered.
pub fn default_texture_pack_key() -> (r: String)
    ensures
        r@ == "default"@,
{
    String::from_str("default")
}

} // verus!
