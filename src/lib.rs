//! Simulation core of a top-down tank arena: stable-id entity storage, the
//! firing and collision rules, the game-mode state machine and menu navigation.

pub mod slot_store;
pub mod entity;
pub mod world;
pub mod collision;
pub mod input;
pub mod ui;
pub mod game;
