//! The player: keyboard-driven movement, health, and explosion damage
//! shared across all explosion sources behind one cooldown.

use vstd::prelude::*;

use crate::explosion::Explosion;
use crate::physics::{accel_step, spec_accel_step, spec_steer, steer};
use crate::timer::{CountdownTimer, TIME_LIMIT_MS};
use crate::vec2::{
    dist, div_trunc, in_bounds, scale_to, spec_dist, spec_div_trunc, spec_scale_to, Vec2i,
    COORD_LIMIT, DIR_SCALE, VEL_LIMIT,
};

verus! {

/// Health the player starts with.
pub const PLAYER_MAX_HEALTH: u32 = 5;

/// Minimum interval between two explosion hits on the player, in
/// milliseconds.
pub const PLAYER_DAMAGE_COOLDOWN_MS: u64 = 1000;

/// The player's hit radius.
pub const PLAYER_RADIUS: i64 = 20;

/// The player's target speed under full input, in units per second.
pub const PLAYER_MAX_SPEED: i64 = 200;

/// Capped per-tick acceleration of the player, in units per second per
/// second.
pub const PLAYER_ACCELERATION: i64 = 1000;

/// The player character's marker state: its physical position and
/// velocity live with the physics collaborator.
#[derive(Clone, Copy, Debug, PartialEq, Eq, Structural)]
pub struct Player {
    pub id: u64,
}

/// Player health with the damage cooldown shared across all explosion
/// sources.
#[derive(Clone, Copy, Debug, PartialEq, Eq, Structural)]
pub struct PlayerHealth {
    pub health: u32,
    pub cooldown: CountdownTimer,
}

impl PlayerHealth {
    pub open spec fn wf(self) -> bool {
        self.health <= PLAYER_MAX_HEALTH && self.cooldown.wf()
    }

    pub open spec fn spec_default() -> PlayerHealth {
        PlayerHealth {
            health: PLAYER_MAX_HEALTH,
            cooldown: CountdownTimer {
                duration_ms: PLAYER_DAMAGE_COOLDOWN_MS,
                elapsed_ms: 0u64,
            },
        }
    }
}

impl Default for PlayerHealth {
    /// Full health, damage cooldown running from zero.
    fn default() -> (r: PlayerHealth)
        ensures
            r == PlayerHealth::spec_default(),
            r.wf(),
    {
        PlayerHealth {
            health: PLAYER_MAX_HEALTH,
            cooldown: CountdownTimer::new(PLAYER_DAMAGE_COOLDOWN_MS),
        }
    }
}

/// Restores the player's health and damage cooldown to their starting
/// values.
pub fn reset_health(health: &mut PlayerHealth)
    ensures
        *final(health) == PlayerHealth::spec_default(),
        final(health).wf(),
{
    *health = PlayerHealth::default();
}

/// The game is over exactly when the player's health has reached zero.
pub fn trigger_game_over(health: &PlayerHealth) -> (over: bool)
    ensures
        over == (health.health == 0),
{
    health.health == 0
}

/// Some live explosion overlaps the player's hit radius.
pub open spec fn spec_any_explosion_overlaps(player_pos: Vec2i, es: Seq<Explosion>) -> bool {
    exists|k: int|
        0 <= k < es.len() && spec_dist(player_pos, (#[trigger] es[k]).pos) <= PLAYER_RADIUS
            + es[k].size
}

/// The player's health state after one damage tick: the cooldown
/// advances; then, if it has elapsed, health remains, and any live
/// explosion overlaps the player, health drops by one (once, whatever
/// the number of overlapping explosions) and the cooldown restarts.
pub open spec fn spec_damage_player(h: PlayerHealth, player_pos: Vec2i, es: Seq<Explosion>, dt_ms: u64) -> PlayerHealth {
    let h1 = PlayerHealth { health: h.health, cooldown: h.cooldown.spec_ticked(dt_ms) };
    if h1.cooldown.spec_finished() && h1.health > 0 && spec_any_explosion_overlaps(player_pos, es) {
        PlayerHealth { health: (h1.health - 1) as u32, cooldown: h1.cooldown.spec_reset() }
    } else {
        h1
    }
}

/// Applies explosion damage to the player: at most one health point per
/// cooldown window, however many explosions overlap.
pub fn damage_player_from_explosions(
    health: &mut PlayerHealth,
    player_pos: Vec2i,
    explosions: &Vec<Explosion>,
    dt_ms: u64,
) -> (damaged: bool)
    requires
        old(health).wf(),
        in_bounds(player_pos, COORD_LIMIT as int),
        forall|k: int| 0 <= k < explosions@.len() ==> (#[trigger] explosions@[k]).wf(),
        dt_ms <= TIME_LIMIT_MS,
    ensures
        *final(health) == spec_damage_player(*old(health), player_pos, explosions@, dt_ms),
        final(health).wf(),
        damaged == (final(health).health != old(health).health),
        final(health).health <= old(health).health,
{
    let mut cd = health.cooldown;
    cd.tick(dt_ms);
    health.cooldown = cd;
    if !health.cooldown.finished() || health.health == 0 {
        proof {
            assert(*health == spec_damage_player(*old(health), player_pos, explosions@, dt_ms));
        }
        return false;
    }
    let mut k: usize = 0;
    while k < explosions.len()
        invariant
            health.wf(),
            health.health == old(health).health,
            health.health > 0,
            health.cooldown == old(health).cooldown.spec_ticked(dt_ms),
            health.cooldown.spec_finished(),
            in_bounds(player_pos, COORD_LIMIT as int),
            forall|kk: int| 0 <= kk < explosions@.len() ==> (#[trigger] explosions@[kk]).wf(),
            k <= explosions@.len(),
            forall|kk: int|
                0 <= kk < k ==> !(spec_dist(player_pos, (#[trigger] explosions@[kk]).pos)
                    <= PLAYER_RADIUS + explosions@[kk].size),
        decreases explosions@.len() - k,
    {
        let e = explosions[k];
        if dist(player_pos, e.pos) <= PLAYER_RADIUS + e.size {
            health.health = health.health - 1;
            let mut cd2 = health.cooldown;
            cd2.reset();
            health.cooldown = cd2;
            return true;
        }
        k = k + 1;
    }
    proof {
        assert(!spec_any_explosion_overlaps(player_pos, explosions@));
    }
    false
}

/// The movement direction the held keys describe, as a unit-scaled
/// vector: each axis is the difference of its two keys, normalized.
pub open spec fn spec_player_move_direction(up: bool, down: bool, left: bool, right: bool) -> Vec2i {
    let dx: int = (if right { 1int } else { 0int }) - (if left { 1int } else { 0int });
    let dy: int = (if up { 1int } else { 0int }) - (if down { 1int } else { 0int });
    spec_scale_to(Vec2i { x: (dx * 1000) as i64, y: (dy * 1000) as i64 }, DIR_SCALE as int)
}

/// One steering update of the player's velocity: capped acceleration
/// toward the speed the held keys ask for.
pub open spec fn spec_player_steered(
    vel: Vec2i,
    up: bool,
    down: bool,
    left: bool,
    right: bool,
    dt_ms: u64,
) -> Vec2i {
    let dir = spec_player_move_direction(up, down, left, right);
    let desired = Vec2i {
        x: spec_div_trunc(dir.x * PLAYER_MAX_SPEED, DIR_SCALE as int) as i64,
        y: spec_div_trunc(dir.y * PLAYER_MAX_SPEED, DIR_SCALE as int) as i64,
    };
    spec_steer(vel, desired, spec_accel_step(PLAYER_ACCELERATION as int, dt_ms))
}

/// Accelerates the player toward the direction the held movement keys
/// describe, with the capped-acceleration steering rule.
pub fn player_movement_system(
    vel: &mut Vec2i,
    up: bool,
    down: bool,
    left: bool,
    right: bool,
    dt_ms: u64,
) -> (new_vel: Vec2i)
    requires
        in_bounds(*old(vel), VEL_LIMIT as int),
        dt_ms <= TIME_LIMIT_MS,
    ensures
        *final(vel) == spec_player_steered(*old(vel), up, down, left, right, dt_ms),
        new_vel == *final(vel),
        in_bounds(*final(vel), VEL_LIMIT as int),
{
    let dx: i64 = (if right { 1 } else { 0 }) - (if left { 1 } else { 0 });
    let dy: i64 = (if up { 1 } else { 0 }) - (if down { 1 } else { 0 });
    let dir = scale_to(Vec2i { x: dx * 1000, y: dy * 1000 }, DIR_SCALE);
    proof {
        assert(-(1000i64 * 200) <= dir.x * PLAYER_MAX_SPEED <= 1000i64 * 200) by (nonlinear_arith)
            requires -1000 <= dir.x <= 1000;
        assert(-(1000i64 * 200) <= dir.y * PLAYER_MAX_SPEED <= 1000i64 * 200) by (nonlinear_arith)
            requires -1000 <= dir.y <= 1000;
        crate::vec2::lemma_div_trunc_bound(
            dir.x as int * PLAYER_MAX_SPEED as int,
            DIR_SCALE as int,
            PLAYER_MAX_SPEED as int,
        );
        crate::vec2::lemma_div_trunc_bound(
            dir.y as int * PLAYER_MAX_SPEED as int,
            DIR_SCALE as int,
            PLAYER_MAX_SPEED as int,
        );
    }
    let desired = Vec2i {
        x: div_trunc(dir.x * PLAYER_MAX_SPEED, DIR_SCALE),
        y: div_trunc(dir.y * PLAYER_MAX_SPEED, DIR_SCALE),
    };
    let step = accel_step(PLAYER_ACCELERATION, dt_ms);
    let v = steer(*vel, desired, step);
    *vel = v;
    v
}

} // verus!
