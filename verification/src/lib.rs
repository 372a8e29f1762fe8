//! Simulation core of a small 2D arcade shooter.
//!
//! The crate holds the rules of the game and nothing of the engine that
//! draws it: how cohorts of enemies get their shared orbit, how entities
//! move and leave the play field, which shots destroy which ships, and how
//! an explosion plays out. Every quantity is a fixed-point integer (see
//! [`geometry::ONE`]), entities are named by the `u64` the host gives them,
//! and each per-step operation hands back the requests (despawns,
//! explosions to spawn) that the host then carries out.
pub mod bodies;

pub mod enemy_hits;

pub mod explosion;

pub mod formation;

pub mod geometry;

pub mod movement;

pub mod player_hits;

pub mod resources;

pub mod rng;

mod timer;
