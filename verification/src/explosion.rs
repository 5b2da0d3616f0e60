//! Explosions: timed, stationary circular hazards with linear-falloff
//! impulses.
//!
//! An explosion's lifetime is a clamped linear map of its size, and every
//! tick it pushes every physics-bearing entity within its radius outward
//! with a force that falls off linearly from full at the center to zero at
//! the boundary.

use vstd::prelude::*;

use crate::physics::Body;
use crate::timer::{CountdownTimer, TIME_LIMIT_MS};
use crate::vec2::{
    dist, div_trunc, in_bounds, lemma_div_trunc_bound, scale_to, spec_dist, spec_div_trunc,
    spec_scale_to, spec_sub, vec_sub, Vec2i, COORD_LIMIT, DIR_SCALE,
};

verus! {

/// Default explosion size, also used as the hazard radius of a standard
/// blast.
pub const EXPLOSION_RADIUS: i64 = 70;

/// Impulse applied at an explosion's center.
pub const EXPLOSION_FORCE: i64 = 12_000;

/// Shortest explosion lifetime, for sizes at or below
/// `EXPLOSION_SIZE_FLOOR`.
pub const EXPLOSION_MIN_DURATION_MS: u64 = 50;

/// Longest explosion lifetime, for sizes at or above
/// `EXPLOSION_SIZE_FLOOR + EXPLOSION_SIZE_SPAN`.
pub const EXPLOSION_MAX_DURATION_MS: u64 = 250;

/// Size at which the lifetime map starts to grow.
pub const EXPLOSION_SIZE_FLOOR: i64 = 50;

/// Size span over which the lifetime map grows from shortest to longest.
pub const EXPLOSION_SIZE_SPAN: i64 = 60;

/// Largest explosion size the simulation admits.
pub const EXPLOSION_SIZE_LIMIT: i64 = 1_000_000;

/// A timed circular hazard. The size doubles as the hazard radius.
#[derive(Clone, Copy, Debug, PartialEq, Eq, Structural)]
pub struct Explosion {
    pub pos: Vec2i,
    pub size: i64,
    pub timer: CountdownTimer,
}

/// Lifetime of an explosion of the given size: a linear map of the size,
/// clamped between the shortest and longest lifetimes.
pub open spec fn spec_explosion_duration_ms(size: int) -> int {
    let excess = if size - EXPLOSION_SIZE_FLOOR < 0 {
        0
    } else if size - EXPLOSION_SIZE_FLOOR > EXPLOSION_SIZE_SPAN {
        EXPLOSION_SIZE_SPAN as int
    } else {
        size - EXPLOSION_SIZE_FLOOR
    };
    EXPLOSION_MIN_DURATION_MS
        + excess * (EXPLOSION_MAX_DURATION_MS - EXPLOSION_MIN_DURATION_MS)
        / (EXPLOSION_SIZE_SPAN as int)
}

impl Explosion {
    pub open spec fn wf(self) -> bool {
        in_bounds(self.pos, COORD_LIMIT as int) && 1 <= self.size <= EXPLOSION_SIZE_LIMIT
            && self.timer.wf()
    }

    /// Creates an explosion whose lifetime is derived from its size:
    /// larger blasts linger longer.
    pub fn new(pos: Vec2i, size: i64) -> (r: Explosion)
        requires
            in_bounds(pos, COORD_LIMIT as int),
            1 <= size <= EXPLOSION_SIZE_LIMIT,
        ensures
            r.pos == pos,
            r.size == size,
            r.timer.duration_ms == spec_explosion_duration_ms(size as int),
            r.timer.elapsed_ms == 0,
            r.wf(),
    {
        let excess: i64 = if size - EXPLOSION_SIZE_FLOOR < 0 {
            0
        } else if size - EXPLOSION_SIZE_FLOOR > EXPLOSION_SIZE_SPAN {
            EXPLOSION_SIZE_SPAN
        } else {
            size - EXPLOSION_SIZE_FLOOR
        };
        proof {
            vstd::arithmetic::div_mod::lemma_div_pos_is_pos(excess as int * 200, 60);
            vstd::arithmetic::div_mod::lemma_div_nonincreasing(excess as int * 200, 60);
        }
        let duration: u64 = EXPLOSION_MIN_DURATION_MS
            + ((excess * ((EXPLOSION_MAX_DURATION_MS - EXPLOSION_MIN_DURATION_MS) as i64)
                / EXPLOSION_SIZE_SPAN) as u64);
        Explosion { pos, size, timer: CountdownTimer::new(duration) }
    }
}

impl Default for Explosion {
    /// A standard blast of the floor size at the origin.
    fn default() -> (r: Explosion)
        ensures
            r == Explosion::new_spec_default(),
    {
        Explosion::new(Vec2i { x: 0, y: 0 }, EXPLOSION_SIZE_FLOOR)
    }
}

impl Explosion {
    pub open spec fn new_spec_default() -> Explosion {
        Explosion {
            pos: Vec2i { x: 0i64, y: 0i64 },
            size: EXPLOSION_SIZE_FLOOR,
            timer: CountdownTimer {
                duration_ms: spec_explosion_duration_ms(EXPLOSION_SIZE_FLOOR as int) as u64,
                elapsed_ms: 0u64,
            },
        }
    }
}

/// Impulse magnitude at the given distance from an explosion center:
/// full force at the center, linear falloff, exactly zero at the radius
/// and beyond.
pub open spec fn spec_falloff_magnitude(distance: int, radius: int, base: int) -> int {
    if distance <= radius {
        base * (radius - distance) / radius
    } else {
        0
    }
}

pub fn falloff_magnitude(distance: i64, radius: i64, base: i64) -> (r: i64)
    requires
        0 <= distance <= 2_000_000_000,
        1 <= radius <= 1_000_000,
        0 <= base <= 1_000_000,
    ensures
        r == spec_falloff_magnitude(distance as int, radius as int, base as int),
        0 <= r <= base,
{
    if distance <= radius {
        proof {
            assert(0 <= base * (radius - distance) <= base * radius) by (nonlinear_arith)
                requires 0 <= base && 0 <= radius - distance <= radius;
            assert(base * radius <= 1_000_000_000_000i64) by (nonlinear_arith)
                requires 0 <= base <= 1_000_000 && 0 <= radius <= 1_000_000;
            vstd::arithmetic::div_mod::lemma_div_pos_is_pos(
                base as int * (radius as int - distance as int),
                radius as int,
            );
            vstd::arithmetic::div_mod::lemma_div_is_ordered(
                base as int * (radius as int - distance as int),
                base as int * radius as int,
                radius as int,
            );
            assert(base * radius == radius * base) by (nonlinear_arith);
            vstd::arithmetic::div_mod::lemma_div_multiples_vanish(base as int, radius as int);
        }
        base * (radius - distance) / radius
    } else {
        0
    }
}

/// The falloff law: the impulse magnitude equals the base force at the
/// center, is exactly zero at the radius and beyond, and never increases
/// as the distance grows.
pub proof fn lemma_falloff_properties(radius: int, base: int)
    requires
        1 <= radius,
        0 <= base,
    ensures
        spec_falloff_magnitude(0, radius, base) == base,
        spec_falloff_magnitude(radius, radius, base) == 0,
        forall|d1: int, d2: int|
            0 <= d1 <= d2 ==> spec_falloff_magnitude(d2, radius, base) <= spec_falloff_magnitude(
                d1,
                radius,
                base,
            ),
        forall|d: int| d > radius ==> spec_falloff_magnitude(d, radius, base) == 0,
{
    assert(base * radius == radius * base) by (nonlinear_arith);
    vstd::arithmetic::div_mod::lemma_div_multiples_vanish(base, radius);
    assert(spec_falloff_magnitude(radius, radius, base) == 0) by {
        assert(base * 0 == 0) by (nonlinear_arith);
        vstd::arithmetic::div_mod::lemma_div_pos_is_pos(0, radius);
        vstd::arithmetic::div_mod::lemma_div_nonincreasing(0, radius);
    }
    assert forall|d1: int, d2: int| 0 <= d1 <= d2 implies spec_falloff_magnitude(d2, radius, base)
        <= spec_falloff_magnitude(d1, radius, base) by {
        if d2 <= radius {
            assert(base * (radius - d2) <= base * (radius - d1)) by (nonlinear_arith)
                requires 0 <= base && d1 <= d2;
            vstd::arithmetic::div_mod::lemma_div_is_ordered(
                base * (radius - d2),
                base * (radius - d1),
                radius,
            );
        } else {
            if d1 <= radius {
                assert(0 <= base * (radius - d1)) by (nonlinear_arith)
                    requires 0 <= base && d1 <= radius;
                vstd::arithmetic::div_mod::lemma_div_pos_is_pos(base * (radius - d1), radius);
            }
        }
    }
}

/// The outward impulse an explosion of the given center and radius applies
/// to a target at the given position: along the direction from center to
/// target, with linear falloff; zero outside the radius.
pub open spec fn spec_explosion_impulse(center: Vec2i, radius: int, target: Vec2i) -> Vec2i {
    let d = spec_dist(center, target);
    if d <= radius {
        let dir = spec_scale_to(spec_sub(target, center), DIR_SCALE as int);
        let mag = spec_falloff_magnitude(d, radius, EXPLOSION_FORCE as int);
        Vec2i {
            x: spec_div_trunc(dir.x * mag, DIR_SCALE as int) as i64,
            y: spec_div_trunc(dir.y * mag, DIR_SCALE as int) as i64,
        }
    } else {
        Vec2i { x: 0i64, y: 0i64 }
    }
}

pub fn explosion_impulse(center: Vec2i, radius: i64, target: Vec2i) -> (r: Vec2i)
    requires
        in_bounds(center, COORD_LIMIT as int),
        in_bounds(target, COORD_LIMIT as int),
        1 <= radius <= EXPLOSION_SIZE_LIMIT,
    ensures
        r == spec_explosion_impulse(center, radius as int, target),
        in_bounds(r, EXPLOSION_FORCE as int),
{
    let d = dist(center, target);
    if d <= radius {
        let dir = scale_to(vec_sub(target, center), DIR_SCALE);
        let mag = falloff_magnitude(d, radius, EXPLOSION_FORCE);
        proof {
            assert(-(1000i64 * 12_000) <= dir.x * mag <= 1000i64 * 12_000) by (nonlinear_arith)
                requires -1000 <= dir.x <= 1000 && 0 <= mag <= 12_000;
            assert(-(1000i64 * 12_000) <= dir.y * mag <= 1000i64 * 12_000) by (nonlinear_arith)
                requires -1000 <= dir.y <= 1000 && 0 <= mag <= 12_000;
            lemma_div_trunc_bound(dir.x as int * mag as int, 1000, 12_000);
            lemma_div_trunc_bound(dir.y as int * mag as int, 1000, 12_000);
        }
        let ix = div_trunc(dir.x * mag, DIR_SCALE);
        let iy = div_trunc(dir.y * mag, DIR_SCALE);
        Vec2i { x: ix, y: iy }
    } else {
        Vec2i { x: 0, y: 0 }
    }
}

/// The impulse sink of `b` after every explosion in `es` has pushed on it,
/// in order.
pub open spec fn spec_explosions_on_body(b: Body, es: Seq<Explosion>) -> Body
    decreases es.len(),
{
    if es.len() == 0 {
        b
    } else {
        let prev = spec_explosions_on_body(b, es.drop_last());
        prev.spec_with_impulse(
            spec_explosion_impulse(es.last().pos, es.last().size as int, prev.pos),
        )
    }
}

/// Applying explosion impulses never moves a body or changes its velocity;
/// only the accumulated-impulse sink changes.
pub proof fn lemma_explosions_keep_motion_state(b: Body, es: Seq<Explosion>)
    ensures
        spec_explosions_on_body(b, es).pos == b.pos,
        spec_explosions_on_body(b, es).vel == b.vel,
    decreases es.len(),
{
    if es.len() == 0 {
    } else {
        lemma_explosions_keep_motion_state(b, es.drop_last());
    }
}

/// Every tick, every live explosion pushes every physics-bearing entity
/// within its radius away from the center, with linear falloff,
/// accumulating into each body's impulse sink.
pub fn explosion_force_system(explosions: &Vec<Explosion>, bodies: &mut Vec<Body>)
    requires
        forall|k: int| 0 <= k < explosions@.len() ==> (#[trigger] explosions@[k]).wf(),
        forall|j: int| 0 <= j < old(bodies)@.len() ==> (#[trigger] old(bodies)@[j]).wf(),
    ensures
        final(bodies)@.len() == old(bodies)@.len(),
        forall|j: int|
            0 <= j < old(bodies)@.len() ==> final(bodies)@[j] == spec_explosions_on_body(
                old(bodies)@[j],
                explosions@,
            ),
        forall|j: int| 0 <= j < final(bodies)@.len() ==> (#[trigger] final(bodies)@[j]).wf(),
{
    let ghost orig = bodies@;
    let mut j: usize = 0;
    while j < bodies.len()
        invariant
            forall|k: int| 0 <= k < explosions@.len() ==> (#[trigger] explosions@[k]).wf(),
            forall|i: int| 0 <= i < orig.len() ==> (#[trigger] orig[i]).wf(),
            bodies@.len() == orig.len(),
            j <= orig.len(),
            forall|i: int|
                0 <= i < j ==> bodies@[i] == spec_explosions_on_body(orig[i], explosions@),
            forall|i: int| j <= i < orig.len() ==> bodies@[i] == orig[i],
            forall|i: int| 0 <= i < j ==> (#[trigger] bodies@[i]).wf(),
        decreases orig.len() - j,
    {
        proof {
            assert(bodies@[j as int] == orig[j as int]);
            assert(orig[j as int].wf());
        }
        let mut body = bodies[j];
        let mut k: usize = 0;
        while k < explosions.len()
            invariant
                forall|kk: int| 0 <= kk < explosions@.len() ==> (#[trigger] explosions@[kk]).wf(),
                orig[j as int].wf(),
                j < orig.len(),
                k <= explosions@.len(),
                body == spec_explosions_on_body(orig[j as int], explosions@.subrange(0, k as int)),
                body.wf(),
            decreases explosions@.len() - k,
        {
            proof {
                lemma_explosions_keep_motion_state(
                    orig[j as int],
                    explosions@.subrange(0, k as int),
                );
            }
            let e = explosions[k];
            let delta = explosion_impulse(e.pos, e.size, body.pos);
            body.apply_impulse(delta);
            proof {
                assert(explosions@.subrange(0, k + 1).drop_last() =~= explosions@.subrange(
                    0,
                    k as int,
                ));
                assert(explosions@.subrange(0, k + 1).last() == explosions@[k as int]);
            }
            k = k + 1;
        }
        proof {
            assert(explosions@.subrange(0, explosions@.len() as int) =~= explosions@);
        }
        bodies.set(j, body);
        j = j + 1;
    }
}

/// Survivors of one tick: every explosion's lifetime timer advances, and
/// those whose lifetime has finished are removed, in order.
pub open spec fn spec_surviving_explosions(es: Seq<Explosion>, dt_ms: u64) -> Seq<Explosion>
    decreases es.len(),
{
    if es.len() == 0 {
        Seq::empty()
    } else {
        let rest = spec_surviving_explosions(es.drop_last(), dt_ms);
        let t = es.last().timer.spec_ticked(dt_ms);
        if t.spec_finished() {
            rest
        } else {
            rest.push(Explosion { pos: es.last().pos, size: es.last().size, timer: t })
        }
    }
}

/// Advances every explosion's lifetime and removes the ones that finished.
pub fn despawn_explosion(explosions: &mut Vec<Explosion>, dt_ms: u64) -> (removed: usize)
    requires
        forall|k: int| 0 <= k < old(explosions)@.len() ==> (#[trigger] old(explosions)@[k]).wf(),
        dt_ms <= TIME_LIMIT_MS,
    ensures
        final(explosions)@ == spec_surviving_explosions(old(explosions)@, dt_ms),
        forall|k: int| 0 <= k < final(explosions)@.len() ==> (#[trigger] final(explosions)@[k]).wf(),
        removed == old(explosions)@.len() - final(explosions)@.len(),
{
    let ghost orig = explosions@;
    let mut kept: Vec<Explosion> = Vec::new();
    let mut k: usize = 0;
    while k < explosions.len()
        invariant
            explosions@ == orig,
            forall|i: int| 0 <= i < orig.len() ==> (#[trigger] orig[i]).wf(),
            k <= orig.len(),
            kept@ == spec_surviving_explosions(orig.subrange(0, k as int), dt_ms),
            forall|i: int| 0 <= i < kept@.len() ==> (#[trigger] kept@[i]).wf(),
            kept@.len() <= k,
            dt_ms <= TIME_LIMIT_MS,
        decreases orig.len() - k,
    {
        let e = explosions[k];
        let mut t = e.timer;
        t.tick(dt_ms);
        proof {
            assert(orig.subrange(0, k + 1).drop_last() =~= orig.subrange(0, k as int));
            assert(orig.subrange(0, k + 1).last() == orig[k as int]);
        }
        if !t.finished() {
            kept.push(Explosion { pos: e.pos, size: e.size, timer: t });
        }
        k = k + 1;
    }
    proof {
        assert(orig.subrange(0, orig.len() as int) =~= orig);
    }
    let removed = explosions.len() - kept.len();
    *explosions = kept;
    removed
}

/// Animation frame for an explosion sprite: the elapsed fraction of the
/// lifetime, mapped over five frames and capped at the last one.
pub open spec fn spec_explosion_frame(e: Explosion) -> int {
    let f = e.timer.spec_progress_milli() * 5 / 1000;
    if f > 4 {
        4
    } else {
        f
    }
}

pub fn explosion_animation(e: &Explosion) -> (frame: usize)
    requires
        e.wf(),
        e.timer.duration_ms >= 1,
    ensures
        frame == spec_explosion_frame(*e),
        frame <= 4,
{
    let p = e.timer.progress_milli();
    proof {
        vstd::arithmetic::div_mod::lemma_div_pos_is_pos(p as int * 5, 1000);
    }
    let f = p * 5 / 1000;
    if f > 4 {
        4
    } else {
        f as usize
    }
}

} // verus!
