//! A tick-based shoot-em-up simulation: entities with glyph shapes, per-kind
//! behaviours that emit deferred commands, waves of enemies and the board that
//! runs one tick at a time.

pub mod point;
pub mod sprite;
pub mod entity;
pub mod ai;
pub mod level;
pub mod board;
