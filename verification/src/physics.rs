//! The position/velocity/impulse abstraction the simulation reads and
//! writes, and the shared capped-acceleration steering rule.
//!
//! The rigid-body engine owns the real physical state; the core sees it as
//! a `Body`: a position, a velocity, and an accumulated-impulse sink.
//! Cross-entity effects are applied by saturating accumulation into the
//! impulse sink; while the sum stays within the impulse limit, ordering
//! among sources within one tick does not affect it.

use vstd::prelude::*;

use crate::vec2::{
    add_clamped, clamp_length_max, in_bounds, spec_add_clamped, spec_clamp_length_max,
    spec_sub, vec_sub, Vec2i, COORD_LIMIT, IMPULSE_LIMIT, VEL_LIMIT,
};
use crate::timer::TIME_LIMIT_MS;

verus! {

/// Physical state of one entity, as the simulation sees it.
#[derive(Clone, Copy, Debug, PartialEq, Eq, Structural)]
pub struct Body {
    pub pos: Vec2i,
    pub vel: Vec2i,
    pub impulse: Vec2i,
}

impl Body {
    pub open spec fn wf(self) -> bool {
        in_bounds(self.pos, COORD_LIMIT as int) && in_bounds(self.vel, VEL_LIMIT as int)
            && in_bounds(self.impulse, IMPULSE_LIMIT as int)
    }

    pub open spec fn spec_with_impulse(self, delta: Vec2i) -> Body {
        Body {
            pos: self.pos,
            vel: self.vel,
            impulse: spec_add_clamped(self.impulse, delta, IMPULSE_LIMIT as int),
        }
    }

    pub fn at(pos: Vec2i) -> (r: Body)
        requires
            in_bounds(pos, COORD_LIMIT as int),
        ensures
            r == (Body { pos, vel: (Vec2i { x: 0i64, y: 0i64 }), impulse: (Vec2i { x: 0i64, y: 0i64 }) }),
            r.wf(),
    {
        Body { pos, vel: Vec2i { x: 0, y: 0 }, impulse: Vec2i { x: 0, y: 0 } }
    }

    /// Accumulates an impulse into this body's sink, saturating at the
    /// impulse limit.
    pub fn apply_impulse(&mut self, delta: Vec2i)
        requires
            old(self).wf(),
            in_bounds(delta, 1_000_000_000),
        ensures
            *final(self) == old(self).spec_with_impulse(delta),
            final(self).wf(),
    {
        let i = add_clamped(self.impulse, delta, IMPULSE_LIMIT);
        self.impulse = i;
    }
}

/// The per-tick velocity change allowed by an acceleration of
/// `accel` units per second over `dt_ms` milliseconds, capped at the
/// steering step limit.
pub open spec fn spec_accel_step(accel: int, dt_ms: u64) -> int {
    let raw = accel * dt_ms / 1000;
    if raw > 1_000_000 {
        1_000_000
    } else {
        raw
    }
}

pub fn accel_step(accel: i64, dt_ms: u64) -> (r: i64)
    requires
        0 <= accel <= 1_000_000,
        dt_ms <= TIME_LIMIT_MS,
    ensures
        r == spec_accel_step(accel as int, dt_ms),
        0 <= r <= 1_000_000,
{
    proof {
        assert(0 <= accel * dt_ms <= 1_000_000_000_000_000i64) by (nonlinear_arith)
            requires 0 <= accel <= 1_000_000 && 0 <= dt_ms <= 1_000_000_000u64;
        vstd::arithmetic::div_mod::lemma_div_pos_is_pos(accel as int * dt_ms as int, 1000);
    }
    let raw = accel * (dt_ms as i64) / 1000;
    if raw > 1_000_000 {
        1_000_000
    } else {
        raw
    }
}

/// One capped-acceleration steering update: the velocity moves toward
/// `target_vel` by at most `max_step`, and the result saturates at the
/// velocity limit.
pub open spec fn spec_steer(vel: Vec2i, target_vel: Vec2i, max_step: int) -> Vec2i {
    spec_add_clamped(
        vel,
        spec_clamp_length_max(spec_sub(target_vel, vel), max_step),
        VEL_LIMIT as int,
    )
}

pub fn steer(vel: Vec2i, target_vel: Vec2i, max_step: i64) -> (r: Vec2i)
    requires
        in_bounds(vel, VEL_LIMIT as int),
        in_bounds(target_vel, VEL_LIMIT as int),
        0 <= max_step <= 1_000_000,
    ensures
        r == spec_steer(vel, target_vel, max_step as int),
        in_bounds(r, VEL_LIMIT as int),
{
    let diff = vec_sub(target_vel, vel);
    let step = clamp_length_max(diff, max_step);
    add_clamped(vel, step, VEL_LIMIT)
}

} // verus!
