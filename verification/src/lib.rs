//! Core logic of a small real-time arena simulation: appetite-driven creature
//! behavior, punch combat with per-activation hit deduplication, area-effect
//! explosions with linear falloff, and spawner health feedback.
//!
//! Positions, velocities and impulses are modelled as integer vectors (whole
//! world units for coordinates, a milli-unit scale for directions), so that
//! every rule is stated and proved exactly. Rendering, audio, input polling
//! and the rigid-body engine are outside collaborators: the library consumes
//! plain positions and collision events and emits typed spawn requests.

pub mod cursor;
pub mod enemy;
pub mod events;
pub mod explosion;
pub mod food;
pub mod physics;
pub mod player;
pub mod rng;
pub mod spawner;
pub mod timer;
pub mod vec2;
