//! Core of a turn-based dungeon crawler: level generation, visibility,
//! actors with optional components, equipment-aware stats, combat, monster
//! behaviour and the per-turn engine.

pub mod ai;
pub mod entity;
pub mod fighter;
pub mod game;
pub mod item;
pub mod laws;
pub mod log;
pub mod map;
pub mod object;
pub mod random;
pub mod rect;
pub mod spawn;
