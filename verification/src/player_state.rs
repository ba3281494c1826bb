//! Physical state flags of a player entity.

use vstd::prelude::*;

verus! {

/// Physical state flags for a player entity: what the player is doing
/// with its body.
#[derive(Clone, Copy, PartialEq, Eq, Structural, Debug)]
pub struct EntityState {
    /// Whether the player is sleeping in a bed.
    pub sleeping: bool,
    /// Whether the player is fall flying (elytra gliding).
    pub fall_flying: bool,
    /// Whether the player is on the ground.
    pub on_ground: bool,
    /// Whether the player is sneaking.
    pub crouching: bool,
    /// Whether the player is sprinting.
    pub sprinting: bool,
}

impl EntityState {
    /// A newly spawned player: no flag set.
    pub fn new() -> (s: EntityState)
        ensures
            !s.sleeping && !s.fall_flying && !s.on_ground && !s.crouching && !s.sprinting,
    {
        EntityState {
            sleeping: false,
            fall_flying: false,
            on_ground: false,
            crouching: false,
            sprinting: false,
        }
    }
}

} // verus!
