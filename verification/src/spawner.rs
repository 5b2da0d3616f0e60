//! Spawner structures: stationary producers of enemies that degrade under
//! explosion damage.
//!
//! A spawner tracks remaining health behind a damage cooldown; its color
//! fades from bright toward black as health approaches zero. At zero it
//! is spent: still present, fully darkened, and producing nothing — a
//! terminal state, since health never regenerates.

use vstd::prelude::*;

use crate::events::SpawnEvent;
use crate::explosion::Explosion;
use crate::rng::sample_inclusive;
use crate::timer::{CountdownTimer, RepeatingTimer, TIME_LIMIT_MS};
use crate::vec2::{dist, in_bounds, spec_dist, Vec2i, COORD_LIMIT};

verus! {

/// Spawner footprint size; half of it is the spawner's hit radius.
pub const SPAWNER_SIZE: i64 = 50;

/// Health a fresh spawner starts with.
pub const MAX_SPAWNER_HEALTH: u32 = 8;

/// Minimum interval between two damage hits on one spawner, in
/// milliseconds.
pub const SPAWNER_COOLDOWN_MS: u64 = 2000;

/// Interval of the enemy production timer, in milliseconds.
pub const SPAWN_INTERVAL_MS: u64 = 10_000;

/// How many spawners a fresh arena is seeded with.
pub const SPAWNER_AMOUNT: usize = 5;

/// Half-width of the square region spawners are scattered over.
pub const SPAWNER_SPREAD: i64 = 1000;

/// A color in thousandths per channel.
#[derive(Clone, Copy, Debug, PartialEq, Eq, Structural)]
pub struct Rgb {
    pub r: u32,
    pub g: u32,
    pub b: u32,
}

/// Enemy production state: the repeating production timer and whether the
/// spawner is spent.
#[derive(Clone, Copy, Debug, PartialEq, Eq, Structural)]
pub struct Spawner {
    pub timer: RepeatingTimer,
    pub spent: bool,
}

impl Default for Spawner {
    /// A production timer at the full interval, not spent.
    fn default() -> (r: Spawner)
        ensures
            r == (Spawner {
                timer: (RepeatingTimer { interval_ms: SPAWN_INTERVAL_MS, elapsed_ms: 0u64 }),
                spent: false,
            }),
    {
        Spawner { timer: RepeatingTimer::new(SPAWN_INTERVAL_MS), spent: false }
    }
}

/// Remaining health and the damage cooldown gating repeat hits.
#[derive(Clone, Copy, Debug, PartialEq, Eq, Structural)]
pub struct SpawnerHealth {
    pub health: u32,
    pub cooldown: CountdownTimer,
}

impl Default for SpawnerHealth {
    /// Full health, damage cooldown running from zero.
    fn default() -> (r: SpawnerHealth)
        ensures
            r == (SpawnerHealth {
                health: MAX_SPAWNER_HEALTH,
                cooldown: (CountdownTimer { duration_ms: SPAWNER_COOLDOWN_MS, elapsed_ms: 0u64 }),
            }),
    {
        SpawnerHealth { health: MAX_SPAWNER_HEALTH, cooldown: CountdownTimer::new(SPAWNER_COOLDOWN_MS) }
    }
}

/// One spawner structure: position, production state, health state and
/// displayed color.
#[derive(Clone, Copy, Debug, PartialEq, Eq, Structural)]
pub struct SpawnerUnit {
    pub pos: Vec2i,
    pub spawner: Spawner,
    pub health: SpawnerHealth,
    pub color: Rgb,
}

/// Displayed color for the given remaining health: black when spent,
/// otherwise a linear fade from bright toward black as health drops.
pub open spec fn spec_spawner_color(health: u32) -> Rgb {
    if health == 0 {
        Rgb { r: 0u32, g: 0u32, b: 0u32 }
    } else {
        Rgb {
            r: (300 + 700 * health / (MAX_SPAWNER_HEALTH as int)) as u32,
            g: (100 * health / (MAX_SPAWNER_HEALTH as int)) as u32,
            b: (100 * health / (MAX_SPAWNER_HEALTH as int)) as u32,
        }
    }
}

impl SpawnerUnit {
    pub open spec fn wf(self) -> bool {
        &&& in_bounds(self.pos, COORD_LIMIT as int)
        &&& self.spawner.timer.wf()
        &&& self.health.cooldown.wf()
        &&& self.health.health <= MAX_SPAWNER_HEALTH
        &&& (self.spawner.spent <==> self.health.health == 0)
    }

    /// A fresh spawner at the given position: full health, bright color,
    /// production timer at the start of its interval.
    pub fn new(pos: Vec2i) -> (r: SpawnerUnit)
        requires
            in_bounds(pos, COORD_LIMIT as int),
        ensures
            r.pos == pos,
            r.spawner == Spawner::spec_default(),
            r.health == SpawnerHealth::spec_default(),
            r.color == (Rgb { r: 1000u32, g: 1000u32, b: 1000u32 }),
            r.wf(),
    {
        SpawnerUnit {
            pos,
            spawner: Spawner::default(),
            health: SpawnerHealth::default(),
            color: Rgb { r: 1000, g: 1000, b: 1000 },
        }
    }
}

impl Spawner {
    pub open spec fn spec_default() -> Spawner {
        Spawner {
            timer: RepeatingTimer { interval_ms: SPAWN_INTERVAL_MS, elapsed_ms: 0u64 },
            spent: false,
        }
    }
}

impl SpawnerHealth {
    pub open spec fn spec_default() -> SpawnerHealth {
        SpawnerHealth {
            health: MAX_SPAWNER_HEALTH,
            cooldown: CountdownTimer { duration_ms: SPAWNER_COOLDOWN_MS, elapsed_ms: 0u64 },
        }
    }
}

/// Requests the initial set of spawners, each at a position drawn
/// uniformly from the spread region.
pub fn spawn_spawners() -> (events: Vec<SpawnEvent>)
    ensures
        events@.len() == SPAWNER_AMOUNT,
        forall|k: int|
            0 <= k < events@.len() ==> ((#[trigger] events@[k]) matches SpawnEvent::Spawner {
                position,
            } && in_bounds(position, SPAWNER_SPREAD as int)),
{
    let mut events: Vec<SpawnEvent> = Vec::new();
    let mut n: usize = 0;
    while n < SPAWNER_AMOUNT
        invariant
            n <= SPAWNER_AMOUNT,
            events@.len() == n,
            forall|k: int|
                0 <= k < events@.len() ==> ((#[trigger] events@[k]) matches SpawnEvent::Spawner {
                    position,
                } && in_bounds(position, SPAWNER_SPREAD as int)),
        decreases SPAWNER_AMOUNT - n,
    {
        let x = sample_inclusive(-SPAWNER_SPREAD, SPAWNER_SPREAD);
        let y = sample_inclusive(-SPAWNER_SPREAD, SPAWNER_SPREAD);
        events.push(SpawnEvent::Spawner { position: Vec2i { x, y } });
        n = n + 1;
    }
    events
}

/// One spawner's production tick: the timer advances.
pub open spec fn spec_produce_tick(s: SpawnerUnit, dt_ms: u64) -> SpawnerUnit {
    SpawnerUnit { spawner: Spawner { timer: s.spawner.timer.spec_ticked(dt_ms), ..s.spawner }, ..s }
}

/// The request one spawner emits this tick: one enemy beside it when the
/// production timer fires and the spawner is not spent; nothing otherwise.
pub open spec fn spec_produce_event(s: SpawnerUnit, dt_ms: u64) -> Seq<SpawnEvent> {
    if s.spawner.timer.spec_fires(dt_ms) && !s.spawner.spent {
        seq![
            SpawnEvent::Enemy {
                position: Vec2i { x: (s.pos.x - SPAWNER_SIZE) as i64, y: s.pos.y },
            },
        ]
    } else {
        Seq::empty()
    }
}

/// A spent spawner emits no enemy-spawn requests, whatever its timer does.
pub proof fn lemma_spent_spawner_emits_nothing(s: SpawnerUnit, dt_ms: u64)
    requires
        s.spawner.spent,
    ensures
        spec_produce_event(s, dt_ms) == Seq::<SpawnEvent>::empty(),
{
}

/// Requests emitted by the first `n` spawners, in order.
pub open spec fn spec_spawn_enemy_events(ss: Seq<SpawnerUnit>, n: int, dt_ms: u64) -> Seq<SpawnEvent>
    decreases n,
{
    if n <= 0 {
        Seq::empty()
    } else {
        spec_spawn_enemy_events(ss, n - 1, dt_ms) + spec_produce_event(ss[n - 1], dt_ms)
    }
}

/// Advances every spawner's production timer; each firing of an active
/// spawner requests one enemy at an offset position beside it. Spent
/// spawners request nothing.
pub fn spawn_enemy(spawners: &mut Vec<SpawnerUnit>, dt_ms: u64) -> (events: Vec<SpawnEvent>)
    requires
        forall|i: int| 0 <= i < old(spawners)@.len() ==> (#[trigger] old(spawners)@[i]).wf(),
        dt_ms <= TIME_LIMIT_MS,
    ensures
        final(spawners)@.len() == old(spawners)@.len(),
        forall|i: int|
            0 <= i < old(spawners)@.len() ==> final(spawners)@[i] == spec_produce_tick(
                old(spawners)@[i],
                dt_ms,
            ),
        events@ == spec_spawn_enemy_events(old(spawners)@, old(spawners)@.len() as int, dt_ms),
        forall|i: int| 0 <= i < final(spawners)@.len() ==> (#[trigger] final(spawners)@[i]).wf(),
{
    let ghost orig = spawners@;
    let mut events: Vec<SpawnEvent> = Vec::new();
    let mut j: usize = 0;
    while j < spawners.len()
        invariant
            forall|i: int| 0 <= i < orig.len() ==> (#[trigger] orig[i]).wf(),
            spawners@.len() == orig.len(),
            j <= orig.len(),
            dt_ms <= TIME_LIMIT_MS,
            forall|i: int| 0 <= i < j ==> spawners@[i] == spec_produce_tick(orig[i], dt_ms),
            forall|i: int| j <= i < orig.len() ==> spawners@[i] == orig[i],
            forall|i: int| 0 <= i < j ==> (#[trigger] spawners@[i]).wf(),
            events@ == spec_spawn_enemy_events(orig, j as int, dt_ms),
        decreases orig.len() - j,
    {
        let mut s = spawners[j];
        proof {
            assert(s == orig[j as int]);
            assert(orig[j as int].wf());
        }
        let mut t = s.spawner.timer;
        let fired = t.tick(dt_ms);
        s.spawner = Spawner { timer: t, spent: s.spawner.spent };
        if fired && !s.spawner.spent {
            events.push(
                SpawnEvent::Enemy { position: Vec2i { x: s.pos.x - SPAWNER_SIZE, y: s.pos.y } },
            );
            proof {
                assert(events@ =~= spec_spawn_enemy_events(orig, j + 1, dt_ms));
            }
        }
        spawners.set(j, s);
        j = j + 1;
    }
    events
}

/// Effect of one live explosion on one spawner: within the combined hit
/// radius, with the damage cooldown elapsed and health remaining, health
/// drops by one, the cooldown restarts, the color fades (fully dark at
/// zero, which also marks the spawner spent), and a damage cue is
/// emitted.
pub open spec fn spec_damage_step(s: SpawnerUnit, e: Explosion) -> (SpawnerUnit, Seq<SpawnEvent>) {
    if spec_dist(s.pos, e.pos) <= SPAWNER_SIZE / 2 + e.size && s.health.cooldown.spec_finished()
        && s.health.health > 0 {
        let h = (s.health.health - 1) as u32;
        (
            SpawnerUnit {
                pos: s.pos,
                spawner: Spawner {
                    timer: s.spawner.timer,
                    spent: if h == 0 {
                        true
                    } else {
                        s.spawner.spent
                    },
                },
                health: SpawnerHealth { health: h, cooldown: s.health.cooldown.spec_reset() },
                color: spec_spawner_color(h),
            },
            seq![SpawnEvent::SpawnerDamaged],
        )
    } else {
        (s, Seq::empty())
    }
}

/// One spawner against all live explosions, in order.
pub open spec fn spec_damage_fold(s: SpawnerUnit, es: Seq<Explosion>) -> (SpawnerUnit, Seq<
    SpawnEvent,
>)
    decreases es.len(),
{
    if es.len() == 0 {
        (s, Seq::empty())
    } else {
        let (s1, ev1) = spec_damage_fold(s, es.drop_last());
        let (s2, ev2) = spec_damage_step(s1, es.last());
        (s2, ev1 + ev2)
    }
}

/// One spawner's full damage tick: the cooldown advances, then every live
/// explosion is applied in order.
pub open spec fn spec_damage_one(s: SpawnerUnit, es: Seq<Explosion>, dt_ms: u64) -> (SpawnerUnit, Seq<
    SpawnEvent,
>) {
    let s1 = SpawnerUnit {
        health: SpawnerHealth {
            health: s.health.health,
            cooldown: s.health.cooldown.spec_ticked(dt_ms),
        },
        ..s
    };
    spec_damage_fold(s1, es)
}

/// Cues emitted by the first `n` spawners' damage ticks, in order.
pub open spec fn spec_damage_events(ss: Seq<SpawnerUnit>, n: int, es: Seq<Explosion>, dt_ms: u64) -> Seq<
    SpawnEvent,
>
    decreases n,
{
    if n <= 0 {
        Seq::empty()
    } else {
        spec_damage_events(ss, n - 1, es, dt_ms) + spec_damage_one(ss[n - 1], es, dt_ms).1
    }
}

/// The spawner health law: a damage tick never raises health, keeps it at
/// most the maximum, keeps the spent flag faithful to zero health, and a
/// spawner once spent stays spent.
pub proof fn lemma_spawner_health_monotone(s: SpawnerUnit, es: Seq<Explosion>, dt_ms: u64)
    requires
        s.wf(),
    ensures
        spec_damage_one(s, es, dt_ms).0.health.health <= s.health.health,
        spec_damage_one(s, es, dt_ms).0.wf(),
        spec_damage_one(s, es, dt_ms).0.pos == s.pos,
        s.spawner.spent ==> spec_damage_one(s, es, dt_ms).0.spawner.spent,
    decreases es.len(),
{
    let s1 = SpawnerUnit {
        health: SpawnerHealth {
            health: s.health.health,
            cooldown: s.health.cooldown.spec_ticked(dt_ms),
        },
        ..s
    };
    lemma_damage_fold_monotone(s1, es);
}

pub proof fn lemma_damage_fold_monotone(s: SpawnerUnit, es: Seq<Explosion>)
    requires
        s.wf(),
    ensures
        spec_damage_fold(s, es).0.health.health <= s.health.health,
        spec_damage_fold(s, es).0.wf(),
        spec_damage_fold(s, es).0.pos == s.pos,
        s.spawner.spent ==> spec_damage_fold(s, es).0.spawner.spent,
    decreases es.len(),
{
    if es.len() > 0 {
        lemma_damage_fold_monotone(s, es.drop_last());
    }
}

/// Applies explosion damage to every spawner: each spawner's cooldown
/// advances, then each overlapping live explosion that finds the cooldown
/// elapsed and health remaining costs one health, restarts the cooldown,
/// darkens the color, and emits a damage cue.
pub fn damage_spawners_from_explosions(
    spawners: &mut Vec<SpawnerUnit>,
    explosions: &Vec<Explosion>,
    dt_ms: u64,
) -> (events: Vec<SpawnEvent>)
    requires
        forall|i: int| 0 <= i < old(spawners)@.len() ==> (#[trigger] old(spawners)@[i]).wf(),
        forall|k: int| 0 <= k < explosions@.len() ==> (#[trigger] explosions@[k]).wf(),
        dt_ms <= TIME_LIMIT_MS,
    ensures
        final(spawners)@.len() == old(spawners)@.len(),
        forall|i: int|
            0 <= i < old(spawners)@.len() ==> final(spawners)@[i] == spec_damage_one(
                old(spawners)@[i],
                explosions@,
                dt_ms,
            ).0,
        events@ == spec_damage_events(
            old(spawners)@,
            old(spawners)@.len() as int,
            explosions@,
            dt_ms,
        ),
        forall|i: int| 0 <= i < final(spawners)@.len() ==> (#[trigger] final(spawners)@[i]).wf(),
        forall|i: int|
            0 <= i < old(spawners)@.len() ==> (#[trigger] final(spawners)@[i]).health.health
                <= old(spawners)@[i].health.health,
{
    let ghost orig = spawners@;
    let mut events: Vec<SpawnEvent> = Vec::new();
    let mut j: usize = 0;
    while j < spawners.len()
        invariant
            forall|i: int| 0 <= i < orig.len() ==> (#[trigger] orig[i]).wf(),
            forall|k: int| 0 <= k < explosions@.len() ==> (#[trigger] explosions@[k]).wf(),
            spawners@.len() == orig.len(),
            j <= orig.len(),
            dt_ms <= TIME_LIMIT_MS,
            forall|i: int|
                0 <= i < j ==> spawners@[i] == spec_damage_one(orig[i], explosions@, dt_ms).0,
            forall|i: int| j <= i < orig.len() ==> spawners@[i] == orig[i],
            forall|i: int| 0 <= i < j ==> (#[trigger] spawners@[i]).wf(),
            events@ == spec_damage_events(orig, j as int, explosions@, dt_ms),
        decreases orig.len() - j,
    {
        let mut s = spawners[j];
        proof {
            assert(s == orig[j as int]);
            assert(orig[j as int].wf());
        }
        let mut cd = s.health.cooldown;
        cd.tick(dt_ms);
        s.health = SpawnerHealth { health: s.health.health, cooldown: cd };
        let ghost s1 = s;
        let ghost before = events@;
        let mut k: usize = 0;
        while k < explosions.len()
            invariant
                forall|kk: int| 0 <= kk < explosions@.len() ==> (#[trigger] explosions@[kk]).wf(),
                s1.wf(),
                k <= explosions@.len(),
                (s, events@) == (
                    spec_damage_fold(s1, explosions@.subrange(0, k as int)).0,
                    before + spec_damage_fold(s1, explosions@.subrange(0, k as int)).1,
                ),
                s.wf(),
            decreases explosions@.len() - k,
        {
            let e = explosions[k];
            proof {
                assert(explosions@.subrange(0, k + 1).drop_last() =~= explosions@.subrange(
                    0,
                    k as int,
                ));
                assert(explosions@.subrange(0, k + 1).last() == explosions@[k as int]);
            }
            let d = dist(s.pos, e.pos);
            if d <= SPAWNER_SIZE / 2 + e.size && s.health.cooldown.finished() && s.health.health
                > 0 {
                let h = s.health.health - 1;
                let mut cd2 = s.health.cooldown;
                cd2.reset();
                let spent = if h == 0 {
                    true
                } else {
                    s.spawner.spent
                };
                let color = if h == 0 {
                    Rgb { r: 0, g: 0, b: 0 }
                } else {
                    Rgb {
                        r: 300 + 700 * h / MAX_SPAWNER_HEALTH,
                        g: 100 * h / MAX_SPAWNER_HEALTH,
                        b: 100 * h / MAX_SPAWNER_HEALTH,
                    }
                };
                s = SpawnerUnit {
                    pos: s.pos,
                    spawner: Spawner { timer: s.spawner.timer, spent },
                    health: SpawnerHealth { health: h, cooldown: cd2 },
                    color,
                };
                events.push(SpawnEvent::SpawnerDamaged);
                proof {
                    assert(events@ =~= before + spec_damage_fold(
                        s1,
                        explosions@.subrange(0, k + 1),
                    ).1);
                }
            }
            k = k + 1;
        }
        proof {
            assert(explosions@.subrange(0, explosions@.len() as int) =~= explosions@);
            assert(events@ =~= spec_damage_events(orig, j + 1, explosions@, dt_ms));
        }
        spawners.set(j, s);
        j = j + 1;
    }
    proof {
        assert forall|i: int| 0 <= i < orig.len() implies (#[trigger] spawners@[i]).health.health
            <= orig[i].health.health by {
            lemma_spawner_health_monotone(orig[i], explosions@, dt_ms);
        }
    }
    events
}

/// One spawner's damage-cooldown tick.
pub open spec fn spec_tick_cooldown_one(s: SpawnerUnit, dt_ms: u64) -> SpawnerUnit {
    SpawnerUnit {
        health: SpawnerHealth {
            health: s.health.health,
            cooldown: s.health.cooldown.spec_ticked(dt_ms),
        },
        ..s
    }
}

/// Advances every spawner's damage cooldown by the tick delta.
pub fn tick_cooldown_timers(spawners: &mut Vec<SpawnerUnit>, dt_ms: u64)
    requires
        forall|i: int| 0 <= i < old(spawners)@.len() ==> (#[trigger] old(spawners)@[i]).wf(),
        dt_ms <= TIME_LIMIT_MS,
    ensures
        final(spawners)@.len() == old(spawners)@.len(),
        forall|i: int|
            0 <= i < old(spawners)@.len() ==> final(spawners)@[i] == spec_tick_cooldown_one(
                old(spawners)@[i],
                dt_ms,
            ),
        forall|i: int| 0 <= i < final(spawners)@.len() ==> (#[trigger] final(spawners)@[i]).wf(),
{
    let ghost orig = spawners@;
    let mut j: usize = 0;
    while j < spawners.len()
        invariant
            forall|i: int| 0 <= i < orig.len() ==> (#[trigger] orig[i]).wf(),
            spawners@.len() == orig.len(),
            j <= orig.len(),
            dt_ms <= TIME_LIMIT_MS,
            forall|i: int| 0 <= i < j ==> spawners@[i] == spec_tick_cooldown_one(orig[i], dt_ms),
            forall|i: int| j <= i < orig.len() ==> spawners@[i] == orig[i],
            forall|i: int| 0 <= i < j ==> (#[trigger] spawners@[i]).wf(),
        decreases orig.len() - j,
    {
        let mut s = spawners[j];
        proof {
            assert(s == orig[j as int]);
        }
        let mut cd = s.health.cooldown;
        cd.tick(dt_ms);
        s.health = SpawnerHealth { health: s.health.health, cooldown: cd };
        spawners.set(j, s);
        j = j + 1;
    }
}

} // verus!
