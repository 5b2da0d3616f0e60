//! The creature behavior state machine.
//!
//! An enemy is always in exactly one behavior state: seeking food (the
//! initial state), hunting the player (entered exactly when its appetite
//! reaches the stomach cap), or exploding (terminal, entered from any
//! state, after which all food and hunting logic ignores it).

use vstd::prelude::*;

use crate::events::{CollisionStarted, SpawnEvent};
use crate::explosion::Explosion;
use crate::food::Food;
use crate::physics::{accel_step, spec_accel_step, spec_steer, steer, Body};
use crate::rng::sample_inclusive;
use crate::timer::{CountdownTimer, TIME_LIMIT_MS};
use crate::vec2::{
    dist, div_trunc, in_bounds, scale_to, spec_dist, spec_div_trunc, spec_scale_to, spec_sub,
    vec_sub, Vec2i, COORD_LIMIT, DIR_SCALE,
};

verus! {

/// Appetite at which a creature stops seeking food and starts hunting.
pub const STOMACH_CAP: u32 = 5;

/// Minimum interval between two eat events of one creature, in
/// milliseconds.
pub const EAT_COOLDOWN_MS: u64 = 100;

/// Speed multiplier a fresh creature starts with.
pub const ENEMY_BASE_SPEED_FACTOR: u32 = 2;

/// Fixed increment of the speed multiplier per eat event.
pub const ENEMY_SPEED_DELTA: u32 = 5;

/// Target speed of a creature seeking food, in units per second; hunting
/// speed is this times the creature's speed multiplier.
pub const ENEMY_MAX_SPEED_BASE: i64 = 100;

/// Capped per-tick acceleration toward the target speed, in units per
/// second per second.
pub const ENEMY_ACCELERATION: i64 = 500;

/// Impulse pushing a creature away from food it just consumed.
pub const BOUNCE_FORCE: i64 = 30_000;

/// A hunting creature closer to the player than this starts exploding.
pub const START_EXPLODING_DISTANCE: i64 = 80;

/// Shortest randomized exploding countdown, in milliseconds.
pub const EXPLODING_MIN_MS: u64 = 800;

/// Longest randomized exploding countdown, in milliseconds.
pub const EXPLODING_MAX_MS: u64 = 1400;

/// Magnitude of the per-tick visual shake of an exploding creature.
pub const SHAKE_INTENSITY: i64 = 4;

/// Blast size of a creature that exploded with appetite zero.
pub const EXPLOSION_BASE_SIZE: i64 = 70;

/// Blast size added per unit of appetite at explosion time.
pub const EXPLOSION_SIZE_PER_FOOD: i64 = 8;

/// The single active behavior mode of a creature; exactly one holds at
/// any time.
#[derive(Clone, Copy, Debug, PartialEq, Eq, Structural)]
pub enum BehaviorState {
    /// Initial state: steer toward the nearest food and eat on contact.
    SeekingFood,
    /// Terminal appetite state: steer toward the player.
    Hunting,
    /// Terminal state: count down, then blow up.
    Exploding { timer: CountdownTimer },
}

/// An enemy creature: identity, physical state, speed multiplier,
/// appetite counter with its eat cooldown, and the behavior state.
#[derive(Clone, Copy, Debug, PartialEq, Eq, Structural)]
pub struct Enemy {
    pub id: u64,
    pub body: Body,
    pub speed: u32,
    pub appetite: u32,
    pub eat_cooldown: CountdownTimer,
    pub state: BehaviorState,
}

impl Enemy {
    pub open spec fn wf(self) -> bool {
        &&& self.body.wf()
        &&& self.eat_cooldown.wf()
        &&& self.appetite <= STOMACH_CAP
        &&& self.speed <= ENEMY_BASE_SPEED_FACTOR + ENEMY_SPEED_DELTA * STOMACH_CAP
        &&& (self.state is SeekingFood ==> self.appetite < STOMACH_CAP && self.speed
            == ENEMY_BASE_SPEED_FACTOR + ENEMY_SPEED_DELTA * self.appetite)
        &&& (self.state matches BehaviorState::Exploding { timer } ==> timer.wf())
    }

    /// A fresh creature: seeking food, appetite zero, base speed, eat
    /// cooldown running from zero.
    pub fn new(id: u64, pos: Vec2i) -> (r: Enemy)
        requires
            in_bounds(pos, COORD_LIMIT as int),
        ensures
            r == (Enemy {
                id,
                body: Body {
                    pos,
                    vel: (Vec2i { x: 0i64, y: 0i64 }),
                    impulse: (Vec2i { x: 0i64, y: 0i64 }),
                },
                speed: ENEMY_BASE_SPEED_FACTOR,
                appetite: 0u32,
                eat_cooldown: (CountdownTimer { duration_ms: EAT_COOLDOWN_MS, elapsed_ms: 0u64 }),
                state: BehaviorState::SeekingFood,
            }),
            r.wf(),
    {
        Enemy {
            id,
            body: Body::at(pos),
            speed: ENEMY_BASE_SPEED_FACTOR,
            appetite: 0,
            eat_cooldown: CountdownTimer::new(EAT_COOLDOWN_MS),
            state: BehaviorState::SeekingFood,
        }
    }
}

/// Exactly one behavior state is active on any creature at any time: the
/// three modes are mutually exclusive and jointly exhaustive.
pub proof fn lemma_behavior_state_exclusive(c: Enemy)
    ensures
        c.state is SeekingFood || c.state is Hunting || c.state is Exploding,
        c.state is SeekingFood ==> !(c.state is Hunting) && !(c.state is Exploding),
        c.state is Hunting ==> !(c.state is SeekingFood) && !(c.state is Exploding),
        c.state is Exploding ==> !(c.state is SeekingFood) && !(c.state is Hunting),
{
}

/// One creature's eat-cooldown tick.
pub open spec fn spec_tick_eat_cooldown_one(c: Enemy, dt_ms: u64) -> Enemy {
    Enemy { eat_cooldown: c.eat_cooldown.spec_ticked(dt_ms), ..c }
}

/// Advances every creature's eat cooldown by the tick delta.
pub fn tick_eat_cooldown(creatures: &mut Vec<Enemy>, dt_ms: u64)
    requires
        forall|i: int| 0 <= i < old(creatures)@.len() ==> (#[trigger] old(creatures)@[i]).wf(),
        dt_ms <= TIME_LIMIT_MS,
    ensures
        final(creatures)@.len() == old(creatures)@.len(),
        forall|i: int|
            0 <= i < old(creatures)@.len() ==> final(creatures)@[i]
                == spec_tick_eat_cooldown_one(old(creatures)@[i], dt_ms),
        forall|i: int| 0 <= i < final(creatures)@.len() ==> (#[trigger] final(creatures)@[i]).wf(),
{
    let ghost orig = creatures@;
    let mut j: usize = 0;
    while j < creatures.len()
        invariant
            forall|i: int| 0 <= i < orig.len() ==> (#[trigger] orig[i]).wf(),
            creatures@.len() == orig.len(),
            j <= orig.len(),
            dt_ms <= TIME_LIMIT_MS,
            forall|i: int|
                0 <= i < j ==> creatures@[i] == spec_tick_eat_cooldown_one(orig[i], dt_ms),
            forall|i: int| j <= i < orig.len() ==> creatures@[i] == orig[i],
            forall|i: int| 0 <= i < j ==> (#[trigger] creatures@[i]).wf(),
        decreases orig.len() - j,
    {
        let mut c = creatures[j];
        proof {
            assert(c == orig[j as int]);
        }
        let mut t = c.eat_cooldown;
        t.tick(dt_ms);
        c.eat_cooldown = t;
        creatures.set(j, c);
        j = j + 1;
    }
}

/// One hunting creature's steering update toward the player: capped
/// acceleration toward a target velocity scaled by the creature's speed
/// multiplier. Creatures not hunting are untouched.
pub open spec fn spec_run_to_player_one(c: Enemy, player_pos: Vec2i, dt_ms: u64) -> Enemy {
    if c.state is Hunting {
        let target_vel = spec_scale_to(
            spec_sub(player_pos, c.body.pos),
            ENEMY_MAX_SPEED_BASE * c.speed,
        );
        let v = spec_steer(c.body.vel, target_vel, spec_accel_step(ENEMY_ACCELERATION as int, dt_ms));
        Enemy { body: Body { vel: v, ..c.body }, ..c }
    } else {
        c
    }
}

/// Steers every hunting creature toward the player position.
pub fn run_to_player(creatures: &mut Vec<Enemy>, player_pos: Vec2i, dt_ms: u64)
    requires
        forall|i: int| 0 <= i < old(creatures)@.len() ==> (#[trigger] old(creatures)@[i]).wf(),
        in_bounds(player_pos, COORD_LIMIT as int),
        dt_ms <= TIME_LIMIT_MS,
    ensures
        final(creatures)@.len() == old(creatures)@.len(),
        forall|i: int|
            0 <= i < old(creatures)@.len() ==> final(creatures)@[i] == spec_run_to_player_one(
                old(creatures)@[i],
                player_pos,
                dt_ms,
            ),
        forall|i: int| 0 <= i < final(creatures)@.len() ==> (#[trigger] final(creatures)@[i]).wf(),
{
    let step = accel_step(ENEMY_ACCELERATION, dt_ms);
    let ghost orig = creatures@;
    let mut j: usize = 0;
    while j < creatures.len()
        invariant
            forall|i: int| 0 <= i < orig.len() ==> (#[trigger] orig[i]).wf(),
            creatures@.len() == orig.len(),
            j <= orig.len(),
            in_bounds(player_pos, COORD_LIMIT as int),
            step == spec_accel_step(ENEMY_ACCELERATION as int, dt_ms),
            0 <= step <= 1_000_000,
            forall|i: int|
                0 <= i < j ==> creatures@[i] == spec_run_to_player_one(orig[i], player_pos, dt_ms),
            forall|i: int| j <= i < orig.len() ==> creatures@[i] == orig[i],
            forall|i: int| 0 <= i < j ==> (#[trigger] creatures@[i]).wf(),
        decreases orig.len() - j,
    {
        let mut c = creatures[j];
        proof {
            assert(c == orig[j as int]);
            assert(orig[j as int].wf());
        }
        if matches!(c.state, BehaviorState::Hunting) {
            let target_vel = scale_to(
                vec_sub(player_pos, c.body.pos),
                ENEMY_MAX_SPEED_BASE * (c.speed as i64),
            );
            let v = steer(c.body.vel, target_vel, step);
            c.body = Body { vel: v, ..c.body };
        }
        creatures.set(j, c);
        j = j + 1;
    }
}

/// Index of the food item nearest to `pos`, earliest index winning ties.
pub open spec fn spec_nearest_food(fs: Seq<Food>, pos: Vec2i) -> int
    decreases fs.len(),
{
    if fs.len() <= 1 {
        0
    } else {
        let rest = spec_nearest_food(fs.drop_last(), pos);
        if spec_dist(fs.last().pos, pos) < spec_dist(fs[rest].pos, pos) {
            fs.len() - 1
        } else {
            rest
        }
    }
}

/// Finds the nearest food item to `pos`, the earliest index winning ties.
pub fn nearest_food_index(foods: &Vec<Food>, pos: Vec2i) -> (r: usize)
    requires
        foods@.len() > 0,
        forall|i: int| 0 <= i < foods@.len() ==> (#[trigger] foods@[i]).wf(),
        in_bounds(pos, COORD_LIMIT as int),
    ensures
        r < foods@.len(),
        r == spec_nearest_food(foods@, pos),
{
    let mut best: usize = 0;
    let mut best_dist = dist(foods[0].pos, pos);
    proof {
        assert(foods@.subrange(0, 1).len() == 1);
        assert(foods@.subrange(0, 1)[0] == foods@[0]);
    }
    let mut i: usize = 1;
    while i < foods.len()
        invariant
            foods@.len() > 0,
            forall|k: int| 0 <= k < foods@.len() ==> (#[trigger] foods@[k]).wf(),
            in_bounds(pos, COORD_LIMIT as int),
            1 <= i <= foods@.len(),
            best < i,
            best == spec_nearest_food(foods@.subrange(0, i as int), pos),
            best_dist == spec_dist(foods@[best as int].pos, pos),
        decreases foods@.len() - i,
    {
        let d = dist(foods[i].pos, pos);
        proof {
            assert(foods@.subrange(0, i + 1).drop_last() =~= foods@.subrange(0, i as int));
            assert(foods@.subrange(0, i + 1).last() == foods@[i as int]);
        }
        if d < best_dist {
            best = i;
            best_dist = d;
        }
        i = i + 1;
    }
    proof {
        assert(foods@.subrange(0, foods@.len() as int) =~= foods@);
    }
    best
}

/// One seeking creature's steering update toward the nearest food, by the
/// same capped-acceleration rule at the base speed. With no food present,
/// or in any other state, the creature is untouched.
pub open spec fn spec_run_to_food_one(c: Enemy, fs: Seq<Food>, dt_ms: u64) -> Enemy {
    if c.state is SeekingFood && fs.len() > 0 {
        let target_pos = fs[spec_nearest_food(fs, c.body.pos)].pos;
        let target_vel = spec_scale_to(spec_sub(target_pos, c.body.pos), ENEMY_MAX_SPEED_BASE as int);
        let v = spec_steer(c.body.vel, target_vel, spec_accel_step(ENEMY_ACCELERATION as int, dt_ms));
        Enemy { body: Body { vel: v, ..c.body }, ..c }
    } else {
        c
    }
}

/// Steers every food-seeking creature toward its nearest food item; a tick
/// without food steers nobody.
pub fn run_to_food(creatures: &mut Vec<Enemy>, foods: &Vec<Food>, dt_ms: u64)
    requires
        forall|i: int| 0 <= i < old(creatures)@.len() ==> (#[trigger] old(creatures)@[i]).wf(),
        forall|i: int| 0 <= i < foods@.len() ==> (#[trigger] foods@[i]).wf(),
        dt_ms <= TIME_LIMIT_MS,
    ensures
        final(creatures)@.len() == old(creatures)@.len(),
        forall|i: int|
            0 <= i < old(creatures)@.len() ==> final(creatures)@[i] == spec_run_to_food_one(
                old(creatures)@[i],
                foods@,
                dt_ms,
            ),
        forall|i: int| 0 <= i < final(creatures)@.len() ==> (#[trigger] final(creatures)@[i]).wf(),
{
    if foods.len() == 0 {
        return ;
    }
    let step = accel_step(ENEMY_ACCELERATION, dt_ms);
    let ghost orig = creatures@;
    let mut j: usize = 0;
    while j < creatures.len()
        invariant
            forall|i: int| 0 <= i < orig.len() ==> (#[trigger] orig[i]).wf(),
            forall|i: int| 0 <= i < foods@.len() ==> (#[trigger] foods@[i]).wf(),
            foods@.len() > 0,
            creatures@.len() == orig.len(),
            j <= orig.len(),
            step == spec_accel_step(ENEMY_ACCELERATION as int, dt_ms),
            0 <= step <= 1_000_000,
            forall|i: int|
                0 <= i < j ==> creatures@[i] == spec_run_to_food_one(orig[i], foods@, dt_ms),
            forall|i: int| j <= i < orig.len() ==> creatures@[i] == orig[i],
            forall|i: int| 0 <= i < j ==> (#[trigger] creatures@[i]).wf(),
        decreases orig.len() - j,
    {
        let mut c = creatures[j];
        proof {
            assert(c == orig[j as int]);
            assert(orig[j as int].wf());
        }
        if matches!(c.state, BehaviorState::SeekingFood) {
            let ni = nearest_food_index(foods, c.body.pos);
            let target_vel = scale_to(
                vec_sub(foods[ni].pos, c.body.pos),
                ENEMY_MAX_SPEED_BASE,
            );
            let v = steer(c.body.vel, target_vel, step);
            c.body = Body { vel: v, ..c.body };
        }
        creatures.set(j, c);
        j = j + 1;
    }
}

/// First index in `cs` holding the creature with the given identity, or
/// `-1` when no creature has it.
pub open spec fn spec_find_enemy(cs: Seq<Enemy>, id: u64) -> int
    decreases cs.len(),
{
    if cs.len() == 0 {
        -1
    } else if cs[0].id == id {
        0
    } else {
        let r = spec_find_enemy(cs.subrange(1, cs.len() as int), id);
        if r == -1 {
            -1
        } else {
            r + 1
        }
    }
}

pub proof fn lemma_find_enemy_hit(cs: Seq<Enemy>, id: u64, i: int)
    requires
        0 <= i < cs.len(),
        forall|k: int| 0 <= k < i ==> (#[trigger] cs[k]).id != id,
        cs[i].id == id,
    ensures
        spec_find_enemy(cs, id) == i,
    decreases i,
{
    if i == 0 {
    } else {
        let rest = cs.subrange(1, cs.len() as int);
        assert(forall|k: int| 0 <= k < i - 1 ==> (#[trigger] rest[k]).id != id);
        lemma_find_enemy_hit(rest, id, i - 1);
    }
}

pub proof fn lemma_find_enemy_miss(cs: Seq<Enemy>, id: u64)
    requires
        forall|k: int| 0 <= k < cs.len() ==> (#[trigger] cs[k]).id != id,
    ensures
        spec_find_enemy(cs, id) == -1,
    decreases cs.len(),
{
    if cs.len() > 0 {
        let rest = cs.subrange(1, cs.len() as int);
        assert(forall|k: int| 0 <= k < rest.len() ==> (#[trigger] rest[k]).id != id);
        lemma_find_enemy_miss(rest, id);
    }
}

pub proof fn lemma_find_enemy_in_range(cs: Seq<Enemy>, id: u64)
    ensures
        spec_find_enemy(cs, id) == -1 || (0 <= spec_find_enemy(cs, id) < cs.len()
            && cs[spec_find_enemy(cs, id)].id == id),
    decreases cs.len(),
{
    if cs.len() > 0 && cs[0].id != id {
        lemma_find_enemy_in_range(cs.subrange(1, cs.len() as int), id);
    }
}

/// Linear search for a creature by identity.
pub fn find_enemy_index(creatures: &Vec<Enemy>, id: u64) -> (r: Option<usize>)
    ensures
        match r {
            Some(i) => i < creatures@.len() && i == spec_find_enemy(creatures@, id),
            None => spec_find_enemy(creatures@, id) == -1,
        },
{
    let mut i: usize = 0;
    while i < creatures.len()
        invariant
            i <= creatures@.len(),
            forall|k: int| 0 <= k < i ==> (#[trigger] creatures@[k]).id != id,
        decreases creatures@.len() - i,
    {
        if creatures[i].id == id {
            proof {
                lemma_find_enemy_hit(creatures@, id, i as int);
            }
            return Some(i);
        }
        i = i + 1;
    }
    proof {
        lemma_find_enemy_miss(creatures@, id);
    }
    None
}

/// First index in `fs` holding the food item with the given identity, or
/// `-1` when no item has it.
pub open spec fn spec_find_food(fs: Seq<Food>, id: u64) -> int
    decreases fs.len(),
{
    if fs.len() == 0 {
        -1
    } else if fs[0].id == id {
        0
    } else {
        let r = spec_find_food(fs.subrange(1, fs.len() as int), id);
        if r == -1 {
            -1
        } else {
            r + 1
        }
    }
}

pub proof fn lemma_find_food_hit(fs: Seq<Food>, id: u64, i: int)
    requires
        0 <= i < fs.len(),
        forall|k: int| 0 <= k < i ==> (#[trigger] fs[k]).id != id,
        fs[i].id == id,
    ensures
        spec_find_food(fs, id) == i,
    decreases i,
{
    if i == 0 {
    } else {
        let rest = fs.subrange(1, fs.len() as int);
        assert(forall|k: int| 0 <= k < i - 1 ==> (#[trigger] rest[k]).id != id);
        lemma_find_food_hit(rest, id, i - 1);
    }
}

pub proof fn lemma_find_food_miss(fs: Seq<Food>, id: u64)
    requires
        forall|k: int| 0 <= k < fs.len() ==> (#[trigger] fs[k]).id != id,
    ensures
        spec_find_food(fs, id) == -1,
    decreases fs.len(),
{
    if fs.len() > 0 {
        let rest = fs.subrange(1, fs.len() as int);
        assert(forall|k: int| 0 <= k < rest.len() ==> (#[trigger] rest[k]).id != id);
        lemma_find_food_miss(rest, id);
    }
}

/// Linear search for a food item by identity.
pub fn find_food_index(foods: &Vec<Food>, id: u64) -> (r: Option<usize>)
    ensures
        match r {
            Some(i) => i < foods@.len() && i == spec_find_food(foods@, id),
            None => spec_find_food(foods@, id) == -1,
        },
{
    let mut i: usize = 0;
    while i < foods.len()
        invariant
            i <= foods@.len(),
            forall|k: int| 0 <= k < i ==> (#[trigger] foods@[k]).id != id,
        decreases foods@.len() - i,
    {
        if foods[i].id == id {
            proof {
                lemma_find_food_hit(foods@, id, i as int);
            }
            return Some(i);
        }
        i = i + 1;
    }
    proof {
        lemma_find_food_miss(foods@, id);
    }
    None
}

/// An eat event applies exactly when the food has a unit left, the
/// creature's eat cooldown has elapsed, and the creature is seeking food.
pub open spec fn spec_eat_applies(c: Enemy, f: Food) -> bool {
    f.quantity > 0 && c.eat_cooldown.spec_finished() && c.state is SeekingFood
}

/// The creature after one successful eat: appetite up by one, speed
/// multiplier up by the fixed delta, eat cooldown restarted, a bounce
/// impulse directed from the food toward the creature, and the state
/// switched to hunting exactly when the appetite reaches the stomach cap.
pub open spec fn spec_eat_update_creature(c: Enemy, f: Food) -> Enemy {
    let dir = spec_scale_to(spec_sub(c.body.pos, f.pos), DIR_SCALE as int);
    let delta = Vec2i {
        x: spec_div_trunc(dir.x * BOUNCE_FORCE, DIR_SCALE as int) as i64,
        y: spec_div_trunc(dir.y * BOUNCE_FORCE, DIR_SCALE as int) as i64,
    };
    Enemy {
        id: c.id,
        body: c.body.spec_with_impulse(delta),
        speed: (c.speed + ENEMY_SPEED_DELTA) as u32,
        appetite: (c.appetite + 1) as u32,
        eat_cooldown: c.eat_cooldown.spec_reset(),
        state: if c.appetite + 1 >= STOMACH_CAP {
            BehaviorState::Hunting
        } else {
            BehaviorState::SeekingFood
        },
    }
}

/// Effect of one collision pair on a creature index and food index.
pub open spec fn spec_eat_pair(cs: Seq<Enemy>, fs: Seq<Food>, fi: int, ci: int) -> (Seq<Enemy>, Seq<
    Food,
>) {
    let c = cs[ci];
    let f = fs[fi];
    if spec_eat_applies(c, f) {
        (
            cs.update(ci, spec_eat_update_creature(c, f)),
            fs.update(fi, Food { id: f.id, pos: f.pos, quantity: (f.quantity - 1) as i64 }),
        )
    } else {
        (cs, fs)
    }
}

/// Effect of one collision-start event: if one participant is a food item
/// and the other a creature, the eat rule runs on that pair; any other
/// event changes nothing.
pub open spec fn spec_eat_step(cs: Seq<Enemy>, fs: Seq<Food>, ev: CollisionStarted) -> (Seq<Enemy>, Seq<
    Food,
>) {
    let fa = spec_find_food(fs, ev.a);
    let cb = spec_find_enemy(cs, ev.b);
    let fb = spec_find_food(fs, ev.b);
    let ca = spec_find_enemy(cs, ev.a);
    if fa != -1 && cb != -1 {
        spec_eat_pair(cs, fs, fa, cb)
    } else if fb != -1 && ca != -1 {
        spec_eat_pair(cs, fs, fb, ca)
    } else {
        (cs, fs)
    }
}

/// State of all creatures and food after the tick's collision-start
/// events are handled in order.
pub open spec fn spec_eat(cs: Seq<Enemy>, fs: Seq<Food>, evs: Seq<CollisionStarted>) -> (Seq<
    Enemy,
>, Seq<Food>)
    decreases evs.len(),
{
    if evs.len() == 0 {
        (cs, fs)
    } else {
        let (c1, f1) = spec_eat(cs, fs, evs.drop_last());
        spec_eat_step(c1, f1, evs.last())
    }
}

/// Eating is collision-driven: for each collision-start event between a
/// seeking creature and a food item with a unit left, provided the
/// creature's eat cooldown has elapsed, one unit of food is consumed, the
/// appetite and speed multiplier grow, the cooldown restarts, and the
/// creature is bounced away from the food. Reaching the stomach cap
/// switches the creature to hunting.
pub fn eat(creatures: &mut Vec<Enemy>, foods: &mut Vec<Food>, events: &Vec<CollisionStarted>)
    requires
        forall|i: int| 0 <= i < old(creatures)@.len() ==> (#[trigger] old(creatures)@[i]).wf(),
        forall|i: int| 0 <= i < old(foods)@.len() ==> (#[trigger] old(foods)@[i]).wf(),
    ensures
        (final(creatures)@, final(foods)@) == spec_eat(old(creatures)@, old(foods)@, events@),
        final(creatures)@.len() == old(creatures)@.len(),
        final(foods)@.len() == old(foods)@.len(),
        forall|i: int| 0 <= i < final(creatures)@.len() ==> (#[trigger] final(creatures)@[i]).wf(),
        forall|i: int| 0 <= i < final(foods)@.len() ==> (#[trigger] final(foods)@[i]).wf(),
{
    let ghost orig_c = creatures@;
    let ghost orig_f = foods@;
    let mut k: usize = 0;
    while k < events.len()
        invariant
            k <= events@.len(),
            (creatures@, foods@) == spec_eat(orig_c, orig_f, events@.subrange(0, k as int)),
            creatures@.len() == orig_c.len(),
            foods@.len() == orig_f.len(),
            forall|i: int| 0 <= i < creatures@.len() ==> (#[trigger] creatures@[i]).wf(),
            forall|i: int| 0 <= i < foods@.len() ==> (#[trigger] foods@[i]).wf(),
        decreases events@.len() - k,
    {
        let ev = events[k];
        proof {
            assert(events@.subrange(0, k + 1).drop_last() =~= events@.subrange(0, k as int));
            assert(events@.subrange(0, k + 1).last() == events@[k as int]);
        }
        let fa = find_food_index(foods, ev.a);
        let cb = find_enemy_index(creatures, ev.b);
        let pair: Option<(usize, usize)> = if fa.is_some() && cb.is_some() {
            Some((fa.unwrap(), cb.unwrap()))
        } else {
            let fb = find_food_index(foods, ev.b);
            let ca = find_enemy_index(creatures, ev.a);
            if fb.is_some() && ca.is_some() {
                Some((fb.unwrap(), ca.unwrap()))
            } else {
                None
            }
        };
        match pair {
            Some((fi, ci)) => {
                let f = foods[fi];
                let mut c = creatures[ci];
                let seeking = matches!(c.state, BehaviorState::SeekingFood);
                if f.quantity > 0 && c.eat_cooldown.finished() && seeking {
                    let dir = scale_to(vec_sub(c.body.pos, f.pos), DIR_SCALE);
                    proof {
                        assert(-(1000i64 * 30_000) <= dir.x * BOUNCE_FORCE <= 1000i64 * 30_000)
                            by (nonlinear_arith)
                            requires -1000 <= dir.x <= 1000;
                        assert(-(1000i64 * 30_000) <= dir.y * BOUNCE_FORCE <= 1000i64 * 30_000)
                            by (nonlinear_arith)
                            requires -1000 <= dir.y <= 1000;
                        crate::vec2::lemma_div_trunc_bound(
                            dir.x as int * BOUNCE_FORCE as int,
                            DIR_SCALE as int,
                            BOUNCE_FORCE as int,
                        );
                        crate::vec2::lemma_div_trunc_bound(
                            dir.y as int * BOUNCE_FORCE as int,
                            DIR_SCALE as int,
                            BOUNCE_FORCE as int,
                        );
                    }
                    let dx = div_trunc(dir.x * BOUNCE_FORCE, DIR_SCALE);
                    let dy = div_trunc(dir.y * BOUNCE_FORCE, DIR_SCALE);
                    let mut b = c.body;
                    b.apply_impulse(Vec2i { x: dx, y: dy });
                    c.body = b;
                    c.speed = c.speed + ENEMY_SPEED_DELTA;
                    c.appetite = c.appetite + 1;
                    let mut cd = c.eat_cooldown;
                    cd.reset();
                    c.eat_cooldown = cd;
                    c.state = if c.appetite >= STOMACH_CAP {
                        BehaviorState::Hunting
                    } else {
                        BehaviorState::SeekingFood
                    };
                    creatures.set(ci, c);
                    foods.set(fi, Food { id: f.id, pos: f.pos, quantity: f.quantity - 1 });
                }
            },
            None => {
            },
        }
        k = k + 1;
    }
    proof {
        assert(events@.subrange(0, events@.len() as int) =~= events@);
    }
}

pub proof fn lemma_find_food_in_range(fs: Seq<Food>, id: u64)
    ensures
        spec_find_food(fs, id) == -1 || (0 <= spec_find_food(fs, id) < fs.len()
            && fs[spec_find_food(fs, id)].id == id),
    decreases fs.len(),
{
    if fs.len() > 0 && fs[0].id != id {
        lemma_find_food_in_range(fs.subrange(1, fs.len() as int), id);
    }
}

/// Handling eat events never creates or destroys creatures or food items.
pub proof fn lemma_eat_lens(cs: Seq<Enemy>, fs: Seq<Food>, evs: Seq<CollisionStarted>)
    ensures
        spec_eat(cs, fs, evs).0.len() == cs.len(),
        spec_eat(cs, fs, evs).1.len() == fs.len(),
    decreases evs.len(),
{
    if evs.len() > 0 {
        lemma_eat_lens(cs, fs, evs.drop_last());
        let (c1, f1) = spec_eat(cs, fs, evs.drop_last());
        let ev = evs.last();
        lemma_find_food_in_range(f1, ev.a);
        lemma_find_food_in_range(f1, ev.b);
        lemma_find_enemy_in_range(c1, ev.a);
        lemma_find_enemy_in_range(c1, ev.b);
    }
}

/// Handling eat events keeps every creature and every food item
/// well-formed.
pub proof fn lemma_eat_preserves_wf(cs: Seq<Enemy>, fs: Seq<Food>, evs: Seq<CollisionStarted>)
    requires
        forall|j: int| 0 <= j < cs.len() ==> (#[trigger] cs[j]).wf(),
        forall|j: int| 0 <= j < fs.len() ==> (#[trigger] fs[j]).wf(),
    ensures
        forall|j: int| 0 <= j < cs.len() ==> (#[trigger] spec_eat(cs, fs, evs).0[j]).wf(),
        forall|j: int| 0 <= j < fs.len() ==> (#[trigger] spec_eat(cs, fs, evs).1[j]).wf(),
    decreases evs.len(),
{
    if evs.len() > 0 {
        lemma_eat_preserves_wf(cs, fs, evs.drop_last());
        lemma_eat_lens(cs, fs, evs.drop_last());
        let (c1, f1) = spec_eat(cs, fs, evs.drop_last());
        let (c2, f2) = spec_eat(cs, fs, evs);
        let ev = evs.last();
        lemma_find_food_in_range(f1, ev.a);
        lemma_find_food_in_range(f1, ev.b);
        lemma_find_enemy_in_range(c1, ev.a);
        lemma_find_enemy_in_range(c1, ev.b);
        assert forall|j: int| 0 <= j < cs.len() implies (#[trigger] c2[j]).wf() by {
            if c2[j] != c1[j] {
                assert(c1[j].state is SeekingFood);
            }
        }
        assert forall|j: int| 0 <= j < fs.len() implies (#[trigger] f2[j]).wf() by {
        }
    }
}

/// The appetite law: over any sequence of eat events, every creature's
/// appetite counter is non-decreasing, and a creature that is no longer
/// seeking food (hunting or exploding) is left entirely unchanged — its
/// appetite never increments again.
pub proof fn lemma_eat_appetite_monotone(cs: Seq<Enemy>, fs: Seq<Food>, evs: Seq<CollisionStarted>)
    requires
        forall|j: int| 0 <= j < cs.len() ==> (#[trigger] cs[j]).wf(),
        forall|j: int| 0 <= j < fs.len() ==> (#[trigger] fs[j]).wf(),
    ensures
        forall|j: int|
            0 <= j < cs.len() ==> (#[trigger] spec_eat(cs, fs, evs).0[j]).appetite
                >= cs[j].appetite,
        forall|j: int|
            0 <= j < cs.len() && !(cs[j].state is SeekingFood) ==> (#[trigger] spec_eat(
                cs,
                fs,
                evs,
            ).0[j]) == cs[j],
    decreases evs.len(),
{
    if evs.len() > 0 {
        lemma_eat_appetite_monotone(cs, fs, evs.drop_last());
        lemma_eat_lens(cs, fs, evs.drop_last());
        lemma_eat_preserves_wf(cs, fs, evs.drop_last());
        let (c1, f1) = spec_eat(cs, fs, evs.drop_last());
        let (c2, f2) = spec_eat(cs, fs, evs);
        let ev = evs.last();
        lemma_find_food_in_range(f1, ev.a);
        lemma_find_food_in_range(f1, ev.b);
        lemma_find_enemy_in_range(c1, ev.a);
        lemma_find_enemy_in_range(c1, ev.b);
        assert forall|j: int| 0 <= j < cs.len() implies (#[trigger] c2[j]).appetite
            >= cs[j].appetite by {
            if c2[j] != c1[j] {
                assert(c2[j].appetite == c1[j].appetite + 1);
            }
        }
        assert forall|j: int| 0 <= j < cs.len() && !(cs[j].state is SeekingFood) implies (
        #[trigger] c2[j]) == cs[j] by {
            assert(c1[j] == cs[j]);
            if c2[j] != c1[j] {
                assert(spec_eat_applies(c1[j], f1[spec_find_food(f1, ev.a)])
                    || spec_eat_applies(c1[j], f1[spec_find_food(f1, ev.b)]));
            }
        }
    }
}

/// Identities a single creature contributes to the trigger list: one entry
/// per live explosion whose radius covers it, none once it is already
/// exploding.
pub open spec fn spec_explode_triggers_for(c: Enemy, es: Seq<Explosion>) -> Seq<u64>
    decreases es.len(),
{
    if es.len() == 0 {
        Seq::empty()
    } else {
        let rest = spec_explode_triggers_for(c, es.drop_last());
        if !(c.state is Exploding) && spec_dist(es.last().pos, c.body.pos) < es.last().size {
            rest.push(c.id)
        } else {
            rest
        }
    }
}

/// Trigger list over all creatures, in creature order.
pub open spec fn spec_start_explode(cs: Seq<Enemy>, es: Seq<Explosion>) -> Seq<u64>
    decreases cs.len(),
{
    if cs.len() == 0 {
        Seq::empty()
    } else {
        spec_start_explode(cs.drop_last(), es) + spec_explode_triggers_for(cs.last(), es)
    }
}

/// Emits a start-exploding trigger for every creature not yet exploding
/// that lies inside a live explosion's radius (the chain reaction),
/// one trigger per covering explosion.
pub fn start_explode(creatures: &Vec<Enemy>, explosions: &Vec<Explosion>) -> (triggers: Vec<u64>)
    requires
        forall|i: int| 0 <= i < creatures@.len() ==> (#[trigger] creatures@[i]).wf(),
        forall|k: int| 0 <= k < explosions@.len() ==> (#[trigger] explosions@[k]).wf(),
    ensures
        triggers@ == spec_start_explode(creatures@, explosions@),
{
    let mut triggers: Vec<u64> = Vec::new();
    let mut j: usize = 0;
    while j < creatures.len()
        invariant
            forall|i: int| 0 <= i < creatures@.len() ==> (#[trigger] creatures@[i]).wf(),
            forall|k: int| 0 <= k < explosions@.len() ==> (#[trigger] explosions@[k]).wf(),
            j <= creatures@.len(),
            triggers@ == spec_start_explode(creatures@.subrange(0, j as int), explosions@),
        decreases creatures@.len() - j,
    {
        let c = creatures[j];
        let ghost before = triggers@;
        let mut k: usize = 0;
        while k < explosions.len()
            invariant
                forall|i: int| 0 <= i < creatures@.len() ==> (#[trigger] creatures@[i]).wf(),
                forall|kk: int| 0 <= kk < explosions@.len() ==> (#[trigger] explosions@[kk]).wf(),
                j < creatures@.len(),
                c == creatures@[j as int],
                k <= explosions@.len(),
                triggers@ == before + spec_explode_triggers_for(
                    c,
                    explosions@.subrange(0, k as int),
                ),
            decreases explosions@.len() - k,
        {
            let e = explosions[k];
            proof {
                assert(explosions@.subrange(0, k + 1).drop_last() =~= explosions@.subrange(
                    0,
                    k as int,
                ));
                assert(explosions@.subrange(0, k + 1).last() == explosions@[k as int]);
            }
            let exploding = matches!(c.state, BehaviorState::Exploding { .. });
            if !exploding && dist(e.pos, c.body.pos) < e.size {
                triggers.push(c.id);
                proof {
                    assert(triggers@ =~= before + spec_explode_triggers_for(
                        c,
                        explosions@.subrange(0, k + 1),
                    ));
                }
            }
            k = k + 1;
        }
        proof {
            assert(explosions@.subrange(0, explosions@.len() as int) =~= explosions@);
            assert(creatures@.subrange(0, j + 1).drop_last() =~= creatures@.subrange(0, j as int));
            assert(creatures@.subrange(0, j + 1).last() == creatures@[j as int]);
        }
        j = j + 1;
    }
    proof {
        assert(creatures@.subrange(0, creatures@.len() as int) =~= creatures@);
    }
    triggers
}

/// Trigger list for hunting creatures within exploding range of the
/// player, in creature order.
pub open spec fn spec_start_explode_near_player(cs: Seq<Enemy>, player_pos: Vec2i) -> Seq<u64>
    decreases cs.len(),
{
    if cs.len() == 0 {
        Seq::empty()
    } else {
        let rest = spec_start_explode_near_player(cs.drop_last(), player_pos);
        let c = cs.last();
        if c.state is Hunting && spec_dist(c.body.pos, player_pos) < START_EXPLODING_DISTANCE {
            rest.push(c.id)
        } else {
            rest
        }
    }
}

/// Emits a start-exploding trigger for every hunting creature within the
/// fixed exploding distance of the player.
pub fn start_explode_near_player(creatures: &Vec<Enemy>, player_pos: Vec2i) -> (triggers: Vec<u64>)
    requires
        forall|i: int| 0 <= i < creatures@.len() ==> (#[trigger] creatures@[i]).wf(),
        in_bounds(player_pos, COORD_LIMIT as int),
    ensures
        triggers@ == spec_start_explode_near_player(creatures@, player_pos),
{
    let mut triggers: Vec<u64> = Vec::new();
    let mut j: usize = 0;
    while j < creatures.len()
        invariant
            forall|i: int| 0 <= i < creatures@.len() ==> (#[trigger] creatures@[i]).wf(),
            in_bounds(player_pos, COORD_LIMIT as int),
            j <= creatures@.len(),
            triggers@ == spec_start_explode_near_player(
                creatures@.subrange(0, j as int),
                player_pos,
            ),
        decreases creatures@.len() - j,
    {
        let c = creatures[j];
        proof {
            assert(creatures@.subrange(0, j + 1).drop_last() =~= creatures@.subrange(0, j as int));
            assert(creatures@.subrange(0, j + 1).last() == creatures@[j as int]);
        }
        let hunting = matches!(c.state, BehaviorState::Hunting);
        if hunting && dist(c.body.pos, player_pos) < START_EXPLODING_DISTANCE {
            triggers.push(c.id);
        }
        j = j + 1;
    }
    proof {
        assert(creatures@.subrange(0, creatures@.len() as int) =~= creatures@);
    }
    triggers
}

/// A velocity halved component-wise (the restraining flinch on entering
/// the exploding state).
pub open spec fn spec_halve(v: Vec2i) -> Vec2i {
    Vec2i { x: spec_div_trunc(v.x as int, 2) as i64, y: spec_div_trunc(v.y as int, 2) as i64 }
}

/// The creature after a start-exploding trigger: an already-exploding
/// creature is unchanged; any other creature halves its velocity, keeps
/// its appetite, and starts the given exploding countdown.
pub open spec fn spec_start_exploding(c: Enemy, duration_ms: u64) -> Enemy {
    if c.state is Exploding {
        c
    } else {
        Enemy {
            body: Body { vel: spec_halve(c.body.vel), ..c.body },
            state: BehaviorState::Exploding {
                timer: CountdownTimer { duration_ms, elapsed_ms: 0u64 },
            },
            ..c
        }
    }
}

/// Applies a start-exploding trigger to one creature. Triggering an
/// already-exploding creature changes nothing: duplicate triggers are
/// silently ignored.
pub fn start_exploding(c: &mut Enemy, duration_ms: u64) -> (started: bool)
    requires
        old(c).wf(),
        EXPLODING_MIN_MS <= duration_ms <= EXPLODING_MAX_MS,
    ensures
        *final(c) == spec_start_exploding(*old(c), duration_ms),
        started == !(old(c).state is Exploding),
        old(c).state is Exploding ==> *final(c) == *old(c),
        final(c).wf(),
{
    if matches!(c.state, BehaviorState::Exploding { .. }) {
        false
    } else {
        let vx = div_trunc(c.body.vel.x, 2);
        let vy = div_trunc(c.body.vel.y, 2);
        c.body = Body { vel: Vec2i { x: vx, y: vy }, ..c.body };
        c.state = BehaviorState::Exploding { timer: CountdownTimer::new(duration_ms) };
        true
    }
}

/// Draws the randomized duration of an exploding countdown, uniform over
/// the fixed range.
pub fn draw_exploding_duration() -> (r: u64)
    ensures
        EXPLODING_MIN_MS <= r <= EXPLODING_MAX_MS,
{
    sample_inclusive(EXPLODING_MIN_MS as i64, EXPLODING_MAX_MS as i64) as u64
}

/// State of all creatures, and the cues emitted, after the trigger list
/// `ids` is handled in order with the exploding durations `ds`: each
/// trigger that finds its creature not yet exploding starts that
/// creature's countdown and emits one cue; triggers for missing or
/// already-exploding creatures do nothing.
pub open spec fn spec_handle_triggers(cs: Seq<Enemy>, ids: Seq<u64>, ds: Seq<u64>) -> (Seq<Enemy>, Seq<
    SpawnEvent,
>)
    decreases ids.len(),
{
    if ids.len() == 0 {
        (cs, Seq::empty())
    } else {
        let (cs1, ev1) = spec_handle_triggers(cs, ids.drop_last(), ds.drop_last());
        let ci = spec_find_enemy(cs1, ids.last());
        if ci == -1 {
            (cs1, ev1)
        } else if cs1[ci].state is Exploding {
            (cs1, ev1)
        } else {
            (
                cs1.update(ci, spec_start_exploding(cs1[ci], ds.last())),
                ev1.push(SpawnEvent::ExplodingLoop),
            )
        }
    }
}

/// Handles a list of start-exploding triggers: each one starts the
/// creature's exploding countdown with a freshly drawn random duration
/// and emits an exploding cue, unless the creature is gone or already
/// exploding.
pub fn start_exploding_event_handler(creatures: &mut Vec<Enemy>, ids: &Vec<u64>) -> (events: Vec<
    SpawnEvent,
>)
    requires
        forall|i: int| 0 <= i < old(creatures)@.len() ==> (#[trigger] old(creatures)@[i]).wf(),
    ensures
        exists|ds: Seq<u64>|
            ds.len() == ids@.len() && (forall|k: int|
                0 <= k < ds.len() ==> EXPLODING_MIN_MS <= #[trigger] ds[k] <= EXPLODING_MAX_MS)
                && (final(creatures)@, events@) == spec_handle_triggers(old(creatures)@, ids@, ds),
        final(creatures)@.len() == old(creatures)@.len(),
        forall|i: int| 0 <= i < final(creatures)@.len() ==> (#[trigger] final(creatures)@[i]).wf(),
{
    let ghost orig = creatures@;
    let mut events: Vec<SpawnEvent> = Vec::new();
    let ghost mut ds: Seq<u64> = Seq::empty();
    let mut k: usize = 0;
    while k < ids.len()
        invariant
            k <= ids@.len(),
            ds.len() == k,
            forall|i: int| 0 <= i < ds.len() ==> EXPLODING_MIN_MS <= #[trigger] ds[i] <= EXPLODING_MAX_MS,
            (creatures@, events@) == spec_handle_triggers(orig, ids@.subrange(0, k as int), ds),
            creatures@.len() == orig.len(),
            forall|i: int| 0 <= i < creatures@.len() ==> (#[trigger] creatures@[i]).wf(),
        decreases ids@.len() - k,
    {
        let id = ids[k];
        let d = draw_exploding_duration();
        proof {
            assert(ids@.subrange(0, k + 1).drop_last() =~= ids@.subrange(0, k as int));
            assert(ids@.subrange(0, k + 1).last() == ids@[k as int]);
            assert(ds.push(d).drop_last() =~= ds);
        }
        match find_enemy_index(creatures, id) {
            Some(ci) => {
                let mut c = creatures[ci];
                if !matches!(c.state, BehaviorState::Exploding { .. }) {
                    start_exploding(&mut c, d);
                    creatures.set(ci, c);
                    events.push(SpawnEvent::ExplodingLoop);
                    proof {
                        assert(creatures@ =~= spec_handle_triggers(
                            orig,
                            ids@.subrange(0, k + 1),
                            ds.push(d),
                        ).0);
                    }
                }
            },
            None => {
            },
        }
        proof {
            ds = ds.push(d);
        }
        k = k + 1;
    }
    proof {
        assert(ids@.subrange(0, ids@.len() as int) =~= ids@);
    }
    events
}

/// Blast size of a creature's final explosion: a linear map of its final
/// appetite counter, from the base size up.
pub open spec fn spec_blast_size(appetite: u32) -> int {
    EXPLOSION_BASE_SIZE + EXPLOSION_SIZE_PER_FOOD * appetite
}

/// State of all creatures, and the requests emitted, after exploding
/// countdowns advance by one tick: a creature whose countdown finishes is
/// removed and requests an explosion at its last position, sized by its
/// final appetite; everything else is kept.
pub open spec fn spec_explode(cs: Seq<Enemy>, dt_ms: u64) -> (Seq<Enemy>, Seq<SpawnEvent>)
    decreases cs.len(),
{
    if cs.len() == 0 {
        (Seq::empty(), Seq::empty())
    } else {
        let (cs1, ev1) = spec_explode(cs.drop_last(), dt_ms);
        let c = cs.last();
        match c.state {
            BehaviorState::Exploding { timer } => {
                let t = timer.spec_ticked(dt_ms);
                if t.spec_finished() {
                    (
                        cs1,
                        ev1 + seq![
                            SpawnEvent::Explosion {
                                position: c.body.pos,
                                size: spec_blast_size(c.appetite) as i64,
                            },
                            SpawnEvent::ExplosionSound,
                        ],
                    )
                } else {
                    (cs1.push(Enemy { state: BehaviorState::Exploding { timer: t }, ..c }), ev1)
                }
            },
            _ => (cs1.push(c), ev1),
        }
    }
}

/// Advances every exploding countdown; creatures whose countdown finished
/// are despawned, each replaced by an explosion request at its last
/// position with size grown by its final appetite, plus a sound cue.
pub fn explode(creatures: &mut Vec<Enemy>, dt_ms: u64) -> (events: Vec<SpawnEvent>)
    requires
        forall|i: int| 0 <= i < old(creatures)@.len() ==> (#[trigger] old(creatures)@[i]).wf(),
        dt_ms <= TIME_LIMIT_MS,
    ensures
        (final(creatures)@, events@) == spec_explode(old(creatures)@, dt_ms),
        forall|i: int| 0 <= i < final(creatures)@.len() ==> (#[trigger] final(creatures)@[i]).wf(),
{
    let ghost orig = creatures@;
    let mut kept: Vec<Enemy> = Vec::new();
    let mut events: Vec<SpawnEvent> = Vec::new();
    let mut k: usize = 0;
    while k < creatures.len()
        invariant
            creatures@ == orig,
            forall|i: int| 0 <= i < orig.len() ==> (#[trigger] orig[i]).wf(),
            k <= orig.len(),
            dt_ms <= TIME_LIMIT_MS,
            (kept@, events@) == spec_explode(orig.subrange(0, k as int), dt_ms),
            forall|i: int| 0 <= i < kept@.len() ==> (#[trigger] kept@[i]).wf(),
        decreases orig.len() - k,
    {
        let c = creatures[k];
        proof {
            assert(orig.subrange(0, k + 1).drop_last() =~= orig.subrange(0, k as int));
            assert(orig.subrange(0, k + 1).last() == orig[k as int]);
            assert(orig[k as int].wf());
        }
        match c.state {
            BehaviorState::Exploding { timer } => {
                let mut t = timer;
                t.tick(dt_ms);
                if t.finished() {
                    let size = EXPLOSION_BASE_SIZE + EXPLOSION_SIZE_PER_FOOD * (c.appetite as i64);
                    events.push(SpawnEvent::Explosion { position: c.body.pos, size });
                    events.push(SpawnEvent::ExplosionSound);
                    proof {
                        assert(events@ =~= spec_explode(orig.subrange(0, k + 1), dt_ms).1);
                    }
                } else {
                    kept.push(Enemy { state: BehaviorState::Exploding { timer: t }, ..c });
                }
            },
            _ => {
                kept.push(c);
            },
        }
        k = k + 1;
    }
    proof {
        assert(orig.subrange(0, orig.len() as int) =~= orig);
    }
    *creatures = kept;
    events
}

/// Per-creature visual shake offsets for this tick: a small random jitter
/// for each exploding creature and zero for everyone else. The offsets
/// are rendering noise layered on top of the physics position and never
/// feed back into collision or movement.
pub fn shake_when_explode(creatures: &Vec<Enemy>) -> (offsets: Vec<Vec2i>)
    ensures
        offsets@.len() == creatures@.len(),
        forall|i: int|
            0 <= i < creatures@.len() ==> if creatures@[i].state is Exploding {
                in_bounds(#[trigger] offsets@[i], SHAKE_INTENSITY as int)
            } else {
                offsets@[i] == (Vec2i { x: 0i64, y: 0i64 })
            },
{
    let mut offsets: Vec<Vec2i> = Vec::new();
    let mut k: usize = 0;
    while k < creatures.len()
        invariant
            k <= creatures@.len(),
            offsets@.len() == k,
            forall|i: int|
                0 <= i < k ==> if creatures@[i].state is Exploding {
                    in_bounds(#[trigger] offsets@[i], SHAKE_INTENSITY as int)
                } else {
                    offsets@[i] == (Vec2i { x: 0i64, y: 0i64 })
                },
        decreases creatures@.len() - k,
    {
        let c = creatures[k];
        if matches!(c.state, BehaviorState::Exploding { .. }) {
            let ox = sample_inclusive(-SHAKE_INTENSITY, SHAKE_INTENSITY);
            let oy = sample_inclusive(-SHAKE_INTENSITY, SHAKE_INTENSITY);
            offsets.push(Vec2i { x: ox, y: oy });
        } else {
            offsets.push(Vec2i { x: 0, y: 0 });
        }
        k = k + 1;
    }
    offsets
}

} // verus!
