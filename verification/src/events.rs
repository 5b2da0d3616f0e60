//! Events the simulation consumes and the requests it emits.
//!
//! Collision-start events come in from the physics collaborator; spawn
//! requests and fire-and-forget sound cues go out to the orchestration,
//! audio and rendering collaborators, to be drained at tick boundaries.

use vstd::prelude::*;

use crate::vec2::Vec2i;

verus! {

/// A discrete "two bodies started overlapping" notification from the
/// collision engine, carrying the two participant identities.
#[derive(Clone, Copy, Debug, PartialEq, Eq, Structural)]
pub struct CollisionStarted {
    pub a: u64,
    pub b: u64,
}

/// Typed creation requests and sound cues emitted by the core. Entity
/// creation is deferred: the host drains these between ticks.
#[derive(Clone, Copy, Debug, PartialEq, Eq, Structural)]
pub enum SpawnEvent {
    /// Create one enemy creature at the given position.
    Enemy { position: Vec2i },
    /// Create one food item at the given position.
    Food { position: Vec2i },
    /// Create an explosion of the given size at the given position.
    Explosion { position: Vec2i, size: i64 },
    /// Create one spawner structure at the given position.
    Spawner { position: Vec2i },
    /// A punch connected with a target.
    PunchHit,
    /// A punch was started.
    PunchSwish,
    /// A spawner lost one point of health.
    SpawnerDamaged,
    /// An explosion was created.
    ExplosionSound,
    /// A creature began its exploding countdown.
    ExplodingLoop,
}

} // verus!
