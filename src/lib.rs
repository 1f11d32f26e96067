//! Battle progression for a turn-based game: per-combatant readiness clocks
//! and the four-stage command selection cascade.
pub mod characters;
pub mod battle;
pub mod ui;
pub mod game;
