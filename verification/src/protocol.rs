//! Plain protocol data carried between client and server around the
//! generator: the client command and player command packets, and the
//! attribute modifier operations.  Reading and writing them on the wire
//! happens outside the library; here they are the values the game logic
//! decides over.

use vstd::prelude::*;

verus! {

/// The action a client command packet requests.
#[derive(Clone, Copy, PartialEq, Eq, Structural, Debug)]
pub enum ClientCommandAction {
    /// The client clicked the respawn button on the death screen.
    PerformRespawn,
    /// The client requests its statistics.
    RequestStats,
    /// The client requests the game rule values.
    RequestGameRuleValues,
}

/// Sent by the client to perform an action such as respawning.
#[derive(Clone, Copy, PartialEq, Eq, Structural, Debug)]
pub struct SClientCommand {
    /// The requested action.
    pub action: ClientCommandAction,
}

/// The action a player command packet reports.
#[derive(Clone, Copy, PartialEq, Eq, Structural, Debug)]
pub enum PlayerCommandAction {
    /// The player leaves a bed.
    LeaveBed,
    /// The player starts sprinting.
    StartSprinting,
    /// The player stops sprinting.
    StopSprinting,
    /// The player starts a riding jump.
    StartRidingJump,
    /// The player stops a riding jump.
    StopRidingJump,
    /// The player opens a vehicle inventory.
    OpenVehicleInventory,
    /// The player starts elytra flight.
    StartFallFlying,
}

/// Sent when a player performs a movement-related command action.
#[derive(Clone, Copy, PartialEq, Eq, Structural, Debug)]
pub struct SPlayerCommand {
    /// The entity id of the player.
    pub entity_id: i32,
    /// The action performed.
    pub action: PlayerCommandAction,
    /// Jump boost for a riding jump, 0 to 100; otherwise 0.
    pub jump_boost: i32,
}

/// An attribute modifier operation, in the reference's ordinal order.
#[derive(Clone, Copy, PartialEq, Eq, Structural, Debug)]
pub enum AttributeModifierOperation {
    /// Adds the value to the base.
    AddValue,
    /// Adds `base * value` to the result.
    AddMultipliedBase,
    /// Multiplies the result by `1 + value`.
    AddMultipliedTotal,
}

} // verus!
