//! Rise of the Frogs: a text-driven role-playing game engine.

pub mod ability;
pub mod catalog;
pub mod combat;
pub mod combat_commands;
pub mod commands;
pub mod constants;
pub mod context;
pub mod context_state_commands;
pub mod credits;
pub mod cutscene;
pub mod data;
pub mod entity;
pub mod entity_map;
pub mod environment;
pub mod environment_commands;
pub mod game;
pub mod inventory;
pub mod item;
pub mod item_loader;
pub mod numeric;
pub mod options;
pub mod player;
pub mod round_trip;
pub mod save;
pub mod system_commands;
pub mod text;
pub mod traits;
pub mod unit;
pub mod unit_loader;
