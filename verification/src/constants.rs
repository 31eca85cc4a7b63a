//! Balancing constants of the environment.

use vstd::prelude::*;

verus! {

/// How far below and above the player's level a unit may spawn.
pub const UNIT_SPAWN_RANGE: u8 = 5;

/// The chance, in hundredths, that a unit moves in one unit of time.
pub const UNIT_MOVE_CHANCE: u8 = 25;

/// How far below the player's level the lowest level of a spawned item lies.
pub const ITEM_SPAWN_RANGE_MIN: u8 = 10;

/// How far below the player's level the highest level of a spawned item lies.
pub const ITEM_SPAWN_RANGE_MAX: u8 = 3;

/// The chance, in hundredths, that an item moves in one unit of time.
pub const ITEM_MOVE_CHANCE: u8 = 5;

} // verus!
