//! The punch actor: a cursor orbiting the player that extends during a
//! punch and knocks back the targets it overlaps.
//!
//! A punch lasts a fixed duration; the first half is the active phase, in
//! which new hits register, and the second half is retraction. A per-punch
//! hit-set guarantees that a target is knocked back at most once per
//! activation, whichever detection path finds it first.

use vstd::prelude::*;

use crate::events::{CollisionStarted, SpawnEvent};
use crate::physics::Body;
use crate::rng::sample_inclusive;
use crate::timer::{CountdownTimer, TIME_LIMIT_MS};
use crate::vec2::{
    div_trunc, in_bounds, norm_sq, rotate_mrad, scale_to, spec_div_trunc, spec_norm_sq,
    spec_rotate_mrad, spec_scale_to, spec_sub, vec_sub, Vec2i, COORD_LIMIT, DIR_SCALE,
};

verus! {

/// Length of one punch activation, in milliseconds.
pub const PUNCH_DURATION_MS: u64 = 200;

/// Distance the cursor keeps from the player at rest.
pub const BASE_DISTANCE: i64 = 30;

/// Extra distance the cursor reaches at full punch extension.
pub const MAX_DISTANCE: i64 = 50;

/// Knockback impulse of a collision-detected punch hit; the proximity
/// fallback applies twice this.
pub const PUNCH_FORCE: i64 = 40_000;

/// Radius of the punch actor, used by the proximity fallback.
pub const GLOVE_RADIUS: i64 = 20;

/// Half-range of the random knockback perturbation, in milliradians.
pub const PUNCH_ANGLE_RANGE_MRAD: i64 = 200;

/// The punch actor's orbit anchor.
#[derive(Clone, Copy, Debug, PartialEq, Eq, Structural)]
pub struct Cursor {
    pub pos: Vec2i,
}

/// A potential punch target: identity, whether it is a valid target kind
/// (enemy or food), and its physical state.
#[derive(Clone, Copy, Debug, PartialEq, Eq, Structural)]
pub struct PunchTarget {
    pub id: u64,
    pub valid: bool,
    pub body: Body,
}

impl PunchTarget {
    pub open spec fn wf(self) -> bool {
        self.body.wf()
    }
}

/// No identity occurs twice.
pub open spec fn spec_no_dup(s: Seq<u64>) -> bool {
    forall|i: int, j: int| 0 <= i < j < s.len() ==> s[i] != s[j]
}

/// State of one punch activation: whether a punch is running, its
/// extension timer, and the identities already hit by this activation.
#[derive(Clone, Debug)]
pub struct PunchState {
    pub is_punching: bool,
    pub timer: CountdownTimer,
    pub hit_entities: Vec<u64>,
}

impl PunchState {
    pub open spec fn wf(self) -> bool {
        self.timer.wf() && self.timer.duration_ms == PUNCH_DURATION_MS && spec_no_dup(
            self.hit_entities@,
        )
    }
}

impl Default for PunchState {
    /// Not punching, a fresh extension timer, an empty hit-set.
    fn default() -> (r: PunchState)
        ensures
            r.is_punching == false,
            r.timer == (CountdownTimer { duration_ms: PUNCH_DURATION_MS, elapsed_ms: 0u64 }),
            r.hit_entities@ == Seq::<u64>::empty(),
            r.wf(),
    {
        PunchState {
            is_punching: false,
            timer: CountdownTimer::new(PUNCH_DURATION_MS),
            hit_entities: Vec::new(),
        }
    }
}

/// Number of occurrences of `id` in `s`.
pub open spec fn spec_count(s: Seq<u64>, id: u64) -> int
    decreases s.len(),
{
    if s.len() == 0 {
        0
    } else {
        spec_count(s.drop_last(), id) + if s.last() == id {
            1int
        } else {
            0int
        }
    }
}

/// The hit-set law: in a well-formed punch state, any target identity
/// appears at most once in the hit-set, for the lifetime of the punch
/// activation.
pub proof fn lemma_hit_set_dedup(p: PunchState, id: u64)
    requires
        p.wf(),
    ensures
        spec_count(p.hit_entities@, id) <= 1,
{
    lemma_no_dup_count(p.hit_entities@, id);
}

pub proof fn lemma_no_dup_count(s: Seq<u64>, id: u64)
    requires
        spec_no_dup(s),
    ensures
        spec_count(s, id) <= 1,
        spec_count(s, id) == 1 ==> s.contains(id),
        !s.contains(id) ==> spec_count(s, id) == 0,
    decreases s.len(),
{
    if s.len() > 0 {
        let rest = s.drop_last();
        assert(spec_no_dup(rest));
        lemma_no_dup_count(rest, id);
        if s.last() == id {
            if rest.contains(id) {
                let i = choose|i: int| 0 <= i < rest.len() && rest[i] == id;
                assert(s[i] == id && s[s.len() - 1] == id);
                assert(false);
            }
        } else {
            if s.contains(id) {
                let i = choose|i: int| 0 <= i < s.len() && s[i] == id;
                assert(rest[i] == id);
            }
        }
    }
}

/// Whether the hit-set already holds `id`.
fn hit_set_contains(hits: &Vec<u64>, id: u64) -> (r: bool)
    ensures
        r == hits@.contains(id),
{
    let mut i: usize = 0;
    while i < hits.len()
        invariant
            i <= hits@.len(),
            forall|k: int| 0 <= k < i ==> hits@[k] != id,
        decreases hits@.len() - i,
    {
        if hits[i] == id {
            return true;
        }
        i = i + 1;
    }
    false
}

/// On a press edge, starts a punch unless one is already running: resets
/// the extension timer, clears the hit-set, and emits a swish cue.
pub fn punch_input_system(punch: &mut PunchState, pressed: bool) -> (events: Vec<SpawnEvent>)
    requires
        old(punch).wf(),
    ensures
        final(punch).wf(),
        pressed && !old(punch).is_punching ==> final(punch).is_punching && final(punch).timer
            == old(punch).timer.spec_reset() && final(punch).hit_entities@ == Seq::<u64>::empty()
            && events@ == seq![SpawnEvent::PunchSwish],
        !(pressed && !old(punch).is_punching) ==> *final(punch) == *old(punch) && events@
            == Seq::<SpawnEvent>::empty(),
{
    let mut events: Vec<SpawnEvent> = Vec::new();
    if pressed && !punch.is_punching {
        let mut t = punch.timer;
        t.reset();
        punch.timer = t;
        punch.is_punching = true;
        punch.hit_entities = Vec::new();
        events.push(SpawnEvent::PunchSwish);
    }
    events
}

/// The punch state after its extension timer advances: the punch ends when
/// the timer finishes.
pub open spec fn spec_punch_ticked(p: PunchState, dt_ms: u64) -> PunchState {
    if p.is_punching {
        let t = p.timer.spec_ticked(dt_ms);
        PunchState { is_punching: !t.spec_finished(), timer: t, hit_entities: p.hit_entities }
    } else {
        p
    }
}

/// Extension of the punch as a fraction in thousandths: a triangular
/// profile, fully extended halfway through the timer and back at rest at
/// the end; zero while not punching.
pub open spec fn spec_punch_percent_milli(p: PunchState) -> int {
    if p.is_punching {
        let t = p.timer.spec_progress_milli();
        if t < 500 {
            2 * t
        } else {
            2000 - 2 * t
        }
    } else {
        0
    }
}

/// Where the cursor stands: on the ray from the player toward the aim
/// point, at the base distance plus the current punch extension.
pub open spec fn spec_cursor_pos(player_pos: Vec2i, aim: Vec2i, percent_milli: int) -> Vec2i {
    let dir = spec_scale_to(spec_sub(aim, player_pos), DIR_SCALE as int);
    let distance = BASE_DISTANCE + percent_milli * MAX_DISTANCE / 1000;
    Vec2i {
        x: (player_pos.x + spec_div_trunc(dir.x * distance, DIR_SCALE as int)) as i64,
        y: (player_pos.y + spec_div_trunc(dir.y * distance, DIR_SCALE as int)) as i64,
    }
}

/// Advances the punch timer (ending the punch when it finishes) and moves
/// the cursor: it orbits the player toward the aim point, extending with
/// the triangular punch profile.
pub fn move_cursor(punch: &mut PunchState, player_pos: Vec2i, aim: Vec2i, dt_ms: u64) -> (cursor_pos:
    Vec2i)
    requires
        old(punch).wf(),
        in_bounds(player_pos, COORD_LIMIT as int),
        in_bounds(aim, COORD_LIMIT as int),
        dt_ms <= TIME_LIMIT_MS,
    ensures
        *final(punch) == spec_punch_ticked(*old(punch), dt_ms),
        final(punch).wf(),
        cursor_pos == spec_cursor_pos(player_pos, aim, spec_punch_percent_milli(*final(punch))),
        in_bounds(cursor_pos, COORD_LIMIT as int + BASE_DISTANCE + MAX_DISTANCE),
{
    if punch.is_punching {
        let mut t = punch.timer;
        t.tick(dt_ms);
        punch.timer = t;
        if punch.timer.finished() {
            punch.is_punching = false;
        }
    }
    let percent: u64 = if punch.is_punching {
        let t = punch.timer.progress_milli();
        if t < 500 {
            2 * t
        } else {
            2000 - 2 * t
        }
    } else {
        0
    };
    proof {
        assert(percent == spec_punch_percent_milli(*punch));
        vstd::arithmetic::div_mod::lemma_div_pos_is_pos(percent as int * MAX_DISTANCE, 1000);
        vstd::arithmetic::div_mod::lemma_div_nonincreasing(percent as int * MAX_DISTANCE, 1000);
        assert(percent as int * MAX_DISTANCE <= 50_000) by (nonlinear_arith)
            requires 0 <= percent <= 1000;
    }
    let distance: i64 = BASE_DISTANCE + ((percent as i64) * MAX_DISTANCE) / 1000;
    let dir = scale_to(vec_sub(aim, player_pos), DIR_SCALE);
    proof {
        assert(-(1000i64 * 80) <= dir.x * distance <= 1000i64 * 80) by (nonlinear_arith)
            requires -1000 <= dir.x <= 1000 && 0 <= distance <= 80;
        assert(-(1000i64 * 80) <= dir.y * distance <= 1000i64 * 80) by (nonlinear_arith)
            requires -1000 <= dir.y <= 1000 && 0 <= distance <= 80;
        crate::vec2::lemma_div_trunc_bound(dir.x as int * distance as int, DIR_SCALE as int, 80);
        crate::vec2::lemma_div_trunc_bound(dir.y as int * distance as int, DIR_SCALE as int, 80);
    }
    let ox = div_trunc(dir.x * distance, DIR_SCALE);
    let oy = div_trunc(dir.y * distance, DIR_SCALE);
    Vec2i { x: player_pos.x + ox, y: player_pos.y + oy }
}

/// Knockback impulse of a punch on a target: an 80/20 blend of the punch
/// facing direction and the direction from punch to target, normalized,
/// perturbed by a small rotation, scaled by the given force.
pub open spec fn spec_punch_impulse(
    facing: Vec2i,
    glove_pos: Vec2i,
    target_pos: Vec2i,
    angle_mrad: int,
    force: int,
) -> Vec2i {
    let offset_dir = spec_scale_to(spec_sub(target_pos, glove_pos), DIR_SCALE as int);
    let blend = Vec2i {
        x: spec_div_trunc(facing.x * 8 + offset_dir.x * 2, 10) as i64,
        y: spec_div_trunc(facing.y * 8 + offset_dir.y * 2, 10) as i64,
    };
    let blend_unit = spec_scale_to(blend, DIR_SCALE as int);
    let dir = spec_scale_to(spec_rotate_mrad(blend_unit, angle_mrad), DIR_SCALE as int);
    Vec2i {
        x: spec_div_trunc(dir.x * force, DIR_SCALE as int) as i64,
        y: spec_div_trunc(dir.y * force, DIR_SCALE as int) as i64,
    }
}

pub fn punch_impulse(
    facing: Vec2i,
    glove_pos: Vec2i,
    target_pos: Vec2i,
    angle_mrad: i64,
    force: i64,
) -> (r: Vec2i)
    requires
        in_bounds(facing, DIR_SCALE as int),
        in_bounds(glove_pos, 2 * COORD_LIMIT as int),
        in_bounds(target_pos, 2 * COORD_LIMIT as int),
        -PUNCH_ANGLE_RANGE_MRAD <= angle_mrad <= PUNCH_ANGLE_RANGE_MRAD,
        0 <= force <= 100_000,
    ensures
        r == spec_punch_impulse(facing, glove_pos, target_pos, angle_mrad as int, force as int),
        in_bounds(r, force as int),
{
    let offset_dir = scale_to(vec_sub(target_pos, glove_pos), DIR_SCALE);
    proof {
        crate::vec2::lemma_div_trunc_bound(
            facing.x as int * 8 + offset_dir.x as int * 2,
            10,
            1000,
        );
        crate::vec2::lemma_div_trunc_bound(
            facing.y as int * 8 + offset_dir.y as int * 2,
            10,
            1000,
        );
    }
    let bx = div_trunc(facing.x * 8 + offset_dir.x * 2, 10);
    let by = div_trunc(facing.y * 8 + offset_dir.y * 2, 10);
    let blend_unit = scale_to(Vec2i { x: bx, y: by }, DIR_SCALE);
    let rotated = rotate_mrad(blend_unit, angle_mrad);
    let dir = scale_to(rotated, DIR_SCALE);
    proof {
        assert(-(1000 * (force as int)) <= dir.x * force <= 1000 * (force as int))
            by (nonlinear_arith)
            requires -1000 <= dir.x <= 1000 && 0 <= force;
        assert(-(1000 * (force as int)) <= dir.y * force <= 1000 * (force as int))
            by (nonlinear_arith)
            requires -1000 <= dir.y <= 1000 && 0 <= force;
        crate::vec2::lemma_div_trunc_bound(dir.x as int * force as int, DIR_SCALE as int, force as int);
        crate::vec2::lemma_div_trunc_bound(dir.y as int * force as int, DIR_SCALE as int, force as int);
    }
    let ix = div_trunc(dir.x * force, DIR_SCALE);
    let iy = div_trunc(dir.y * force, DIR_SCALE);
    Vec2i { x: ix, y: iy }
}

/// Resolves one punch contact with a target, bounded by the per-punch
/// hit-set: a target already in the set is skipped entirely; otherwise it
/// joins the set, and if it is a valid target kind it is knocked back
/// once with the blended, perturbed punch direction.
pub fn try_punch(
    punch: &mut PunchState,
    target_id: u64,
    valid: bool,
    target_body: &mut Body,
    glove_pos: Vec2i,
    facing: Vec2i,
    angle_mrad: i64,
    force: i64,
) -> (hit: bool)
    requires
        old(punch).wf(),
        old(target_body).wf(),
        in_bounds(facing, DIR_SCALE as int),
        in_bounds(glove_pos, 2 * COORD_LIMIT as int),
        -PUNCH_ANGLE_RANGE_MRAD <= angle_mrad <= PUNCH_ANGLE_RANGE_MRAD,
        0 <= force <= 100_000,
    ensures
        final(punch).wf(),
        final(target_body).wf(),
        final(punch).is_punching == old(punch).is_punching,
        final(punch).timer == old(punch).timer,
        old(punch).hit_entities@.contains(target_id) ==> *final(punch) == *old(punch)
            && *final(target_body) == *old(target_body) && !hit,
        !old(punch).hit_entities@.contains(target_id) ==> final(punch).hit_entities@ == old(
            punch,
        ).hit_entities@.push(target_id) && (if valid {
            *final(target_body) == old(target_body).spec_with_impulse(
                spec_punch_impulse(
                    facing,
                    glove_pos,
                    old(target_body).pos,
                    angle_mrad as int,
                    force as int,
                ),
            ) && hit
        } else {
            *final(target_body) == *old(target_body) && !hit
        }),
{
    if hit_set_contains(&punch.hit_entities, target_id) {
        return false;
    }
    punch.hit_entities.push(target_id);
    proof {
        assert forall|i: int, j: int|
            0 <= i < j < punch.hit_entities@.len() implies punch.hit_entities@[i]
            != punch.hit_entities@[j] by {
            if j < punch.hit_entities@.len() - 1 {
            } else {
                assert(punch.hit_entities@[i] == old(punch).hit_entities@[i]);
            }
        }
    }
    if valid {
        let delta = punch_impulse(facing, glove_pos, target_body.pos, angle_mrad, force);
        target_body.apply_impulse(delta);
        true
    } else {
        false
    }
}

/// First index in `ts` holding the target with the given identity, or
/// `-1` when no target has it.
pub open spec fn spec_find_target(ts: Seq<PunchTarget>, id: u64) -> int
    decreases ts.len(),
{
    if ts.len() == 0 {
        -1
    } else if ts[0].id == id {
        0
    } else {
        let r = spec_find_target(ts.subrange(1, ts.len() as int), id);
        if r == -1 {
            -1
        } else {
            r + 1
        }
    }
}

pub proof fn lemma_find_target_hit(ts: Seq<PunchTarget>, id: u64, i: int)
    requires
        0 <= i < ts.len(),
        forall|k: int| 0 <= k < i ==> (#[trigger] ts[k]).id != id,
        ts[i].id == id,
    ensures
        spec_find_target(ts, id) == i,
    decreases i,
{
    if i > 0 {
        let rest = ts.subrange(1, ts.len() as int);
        assert(forall|k: int| 0 <= k < i - 1 ==> (#[trigger] rest[k]).id != id);
        lemma_find_target_hit(rest, id, i - 1);
    }
}

pub proof fn lemma_find_target_miss(ts: Seq<PunchTarget>, id: u64)
    requires
        forall|k: int| 0 <= k < ts.len() ==> (#[trigger] ts[k]).id != id,
    ensures
        spec_find_target(ts, id) == -1,
    decreases ts.len(),
{
    if ts.len() > 0 {
        let rest = ts.subrange(1, ts.len() as int);
        assert(forall|k: int| 0 <= k < rest.len() ==> (#[trigger] rest[k]).id != id);
        lemma_find_target_miss(rest, id);
    }
}

/// Linear search for a punch target by identity.
pub fn find_target_index(targets: &Vec<PunchTarget>, id: u64) -> (r: Option<usize>)
    ensures
        match r {
            Some(i) => i < targets@.len() && i == spec_find_target(targets@, id),
            None => spec_find_target(targets@, id) == -1,
        },
{
    let mut i: usize = 0;
    while i < targets.len()
        invariant
            i <= targets@.len(),
            forall|k: int| 0 <= k < i ==> (#[trigger] targets@[k]).id != id,
        decreases targets@.len() - i,
    {
        if targets[i].id == id {
            proof {
                lemma_find_target_hit(targets@, id, i as int);
            }
            return Some(i);
        }
        i = i + 1;
    }
    proof {
        lemma_find_target_miss(targets@, id);
    }
    None
}

/// Effect of one collision-start event on the punch: events not involving
/// the punch actor, events outside the active phase, and targets already
/// in the hit-set change nothing. A fresh target joins the hit-set; if it
/// is a known valid target it is knocked back once and a hit cue is
/// emitted.
pub open spec fn spec_punch_hit_step(
    hits: Seq<u64>,
    ts: Seq<PunchTarget>,
    ev: CollisionStarted,
    angle_mrad: int,
    glove_id: u64,
    active: bool,
    glove_pos: Vec2i,
    facing: Vec2i,
) -> (Seq<u64>, Seq<PunchTarget>, Seq<SpawnEvent>) {
    let tgt: Option<u64> = if ev.a == glove_id {
        Option::Some(ev.b)
    } else if ev.b == glove_id {
        Option::Some(ev.a)
    } else {
        Option::None
    };
    match tgt {
        Option::None => (hits, ts, Seq::empty()),
        Option::Some(id) => {
            if !active || hits.contains(id) {
                (hits, ts, Seq::empty())
            } else {
                let hits1 = hits.push(id);
                let ti = spec_find_target(ts, id);
                if ti == -1 || !ts[ti].valid {
                    (hits1, ts, Seq::empty())
                } else {
                    let t = ts[ti];
                    let b = t.body.spec_with_impulse(
                        spec_punch_impulse(
                            facing,
                            glove_pos,
                            t.body.pos,
                            angle_mrad,
                            PUNCH_FORCE as int,
                        ),
                    );
                    (
                        hits1,
                        ts.update(ti, PunchTarget { id: t.id, valid: t.valid, body: b }),
                        seq![SpawnEvent::PunchHit],
                    )
                }
            }
        },
    }
}

/// Whether the punch registers new hits: a punch is running and still in
/// the first half of its timer, the active phase.
pub open spec fn spec_punch_active(p: PunchState) -> bool {
    p.is_punching && p.timer.spec_progress_milli() < 500
}

/// The hit-set, targets and cues after the tick's collision-start events
/// are resolved in order against the punch state `p0`, with the given
/// perturbation angles.
pub open spec fn spec_punch_hits(
    p0: PunchState,
    ts: Seq<PunchTarget>,
    evs: Seq<CollisionStarted>,
    angles: Seq<int>,
    glove_id: u64,
    glove_pos: Vec2i,
    facing: Vec2i,
) -> (Seq<u64>, Seq<PunchTarget>, Seq<SpawnEvent>)
    decreases evs.len(),
{
    if evs.len() == 0 {
        (p0.hit_entities@, ts, Seq::empty())
    } else {
        let (h1, t1, e1) = spec_punch_hits(
            p0,
            ts,
            evs.drop_last(),
            angles.drop_last(),
            glove_id,
            glove_pos,
            facing,
        );
        let (h2, t2, e2) = spec_punch_hit_step(
            h1,
            t1,
            evs.last(),
            angles.last(),
            glove_id,
            spec_punch_active(p0),
            glove_pos,
            facing,
        );
        (h2, t2, e1 + e2)
    }
}

/// Resolves the tick's collision-start events against the punch actor
/// during the active phase: each valid target is knocked back at most
/// once per punch activation, with a freshly drawn random perturbation of
/// the blended punch direction, and a hit cue per connected hit.
pub fn punch_hit_system(
    punch: &mut PunchState,
    glove_id: u64,
    glove_pos: Vec2i,
    facing: Vec2i,
    events: &Vec<CollisionStarted>,
    targets: &mut Vec<PunchTarget>,
) -> (out: Vec<SpawnEvent>)
    requires
        old(punch).wf(),
        forall|i: int| 0 <= i < old(targets)@.len() ==> (#[trigger] old(targets)@[i]).wf(),
        in_bounds(glove_pos, 2 * COORD_LIMIT as int),
        in_bounds(facing, DIR_SCALE as int),
    ensures
        final(punch).wf(),
        final(punch).is_punching == old(punch).is_punching,
        final(punch).timer == old(punch).timer,
        final(targets)@.len() == old(targets)@.len(),
        forall|i: int| 0 <= i < final(targets)@.len() ==> (#[trigger] final(targets)@[i]).wf(),
        exists|angles: Seq<int>|
            #![trigger spec_punch_hits(
                *old(punch),
                old(targets)@,
                events@,
                angles,
                glove_id,
                glove_pos,
                facing,
            )]
            angles.len() == events@.len() && (forall|k: int|
                0 <= k < angles.len() ==> -PUNCH_ANGLE_RANGE_MRAD <= #[trigger] angles[k]
                    <= PUNCH_ANGLE_RANGE_MRAD) && (
            final(punch).hit_entities@,
            final(targets)@,
            out@,
            ) == spec_punch_hits(
                *old(punch),
                old(targets)@,
                events@,
                angles,
                glove_id,
                glove_pos,
                facing,
            ),
{
    let active = if punch.is_punching {
        punch.timer.progress_milli() < 500
    } else {
        false
    };
    let ghost orig_p = *punch;
    let ghost orig_t = targets@;
    let mut out: Vec<SpawnEvent> = Vec::new();
    let ghost mut angles: Seq<int> = Seq::empty();
    let mut k: usize = 0;
    while k < events.len()
        invariant
            punch.wf(),
            punch.is_punching == old(punch).is_punching,
            punch.timer == old(punch).timer,
            active == spec_punch_active(orig_p),
            orig_p == *old(punch),
            orig_t == old(targets)@,
            in_bounds(glove_pos, 2 * COORD_LIMIT as int),
            in_bounds(facing, DIR_SCALE as int),
            targets@.len() == orig_t.len(),
            forall|i: int| 0 <= i < targets@.len() ==> (#[trigger] targets@[i]).wf(),
            k <= events@.len(),
            angles.len() == k,
            forall|i: int|
                0 <= i < angles.len() ==> -PUNCH_ANGLE_RANGE_MRAD <= #[trigger] angles[i]
                    <= PUNCH_ANGLE_RANGE_MRAD,
            (punch.hit_entities@, targets@, out@) == spec_punch_hits(
                orig_p,
                orig_t,
                events@.subrange(0, k as int),
                angles,
                glove_id,
                glove_pos,
                facing,
            ),
        decreases events@.len() - k,
    {
        let ev = events[k];
        let ghost mut a_used: int = 0;
        proof {
            assert(events@.subrange(0, k + 1).drop_last() =~= events@.subrange(0, k as int));
            assert(events@.subrange(0, k + 1).last() == events@[k as int]);
            assert(angles.push(a_used).drop_last() =~= angles);
        }
        let tgt: Option<u64> = if ev.a == glove_id {
            Some(ev.b)
        } else if ev.b == glove_id {
            Some(ev.a)
        } else {
            None
        };
        match tgt {
            Some(id) => {
                if active && !hit_set_contains(&punch.hit_entities, id) {
                    match find_target_index(targets, id) {
                        Some(ti) => {
                            let t = targets[ti];
                            if t.valid {
                                let angle = sample_inclusive(
                                    -PUNCH_ANGLE_RANGE_MRAD,
                                    PUNCH_ANGLE_RANGE_MRAD,
                                );
                                proof {
                                    a_used = angle as int;
                                    assert(angles.push(a_used).drop_last() =~= angles);
                                }
                                let mut b = t.body;
                                try_punch(
                                    punch,
                                    id,
                                    true,
                                    &mut b,
                                    glove_pos,
                                    facing,
                                    angle,
                                    PUNCH_FORCE,
                                );
                                targets.set(ti, PunchTarget { id: t.id, valid: t.valid, body: b });
                                out.push(SpawnEvent::PunchHit);
                            } else {
                                let mut b = t.body;
                                try_punch(punch, id, false, &mut b, glove_pos, facing, 0, PUNCH_FORCE);
                            }
                        },
                        None => {
                            let mut dummy = Body::at(Vec2i { x: 0, y: 0 });
                            try_punch(
                                punch,
                                id,
                                false,
                                &mut dummy,
                                glove_pos,
                                facing,
                                0,
                                PUNCH_FORCE,
                            );
                        },
                    }
                }
            },
            None => {
            },
        }
        proof {
            let prev = spec_punch_hits(
                orig_p,
                orig_t,
                events@.subrange(0, k as int),
                angles,
                glove_id,
                glove_pos,
                facing,
            );
            let stepped = spec_punch_hit_step(
                prev.0,
                prev.1,
                events@[k as int],
                a_used,
                glove_id,
                spec_punch_active(orig_p),
                glove_pos,
                facing,
            );
            assert(punch.hit_entities@ =~= stepped.0);
            assert(targets@ =~= stepped.1);
            assert(out@ =~= spec_punch_hits(
                orig_p,
                orig_t,
                events@.subrange(0, k + 1),
                angles.push(a_used),
                glove_id,
                glove_pos,
                facing,
            ).2);
            angles = angles.push(a_used);
        }
        k = k + 1;
    }
    proof {
        assert(events@.subrange(0, events@.len() as int) =~= events@);
    }
    out
}

/// Effect of the proximity fallback on the target at index `i`: a valid
/// target overlapping the punch radius and not yet in the hit-set joins
/// it and is knocked back with double force; anything else is untouched.
pub open spec fn spec_manual_step(
    hits: Seq<u64>,
    ts: Seq<PunchTarget>,
    i: int,
    angle_mrad: int,
    active: bool,
    glove_pos: Vec2i,
    facing: Vec2i,
) -> (Seq<u64>, Seq<PunchTarget>, Seq<SpawnEvent>) {
    let t = ts[i];
    if !active || !t.valid || spec_norm_sq(spec_sub(glove_pos, t.body.pos)) > GLOVE_RADIUS
        * GLOVE_RADIUS || hits.contains(t.id) {
        (hits, ts, Seq::empty())
    } else {
        let b = t.body.spec_with_impulse(
            spec_punch_impulse(facing, glove_pos, t.body.pos, angle_mrad, 2 * PUNCH_FORCE as int),
        );
        (
            hits.push(t.id),
            ts.update(i, PunchTarget { id: t.id, valid: t.valid, body: b }),
            seq![SpawnEvent::PunchHit],
        )
    }
}

/// The hit-set, targets and cues after the proximity fallback has run
/// over the first `n` targets in order, with the given perturbation
/// angles.
pub open spec fn spec_manual_punch(
    p0: PunchState,
    ts: Seq<PunchTarget>,
    n: int,
    angles: Seq<int>,
    glove_pos: Vec2i,
    facing: Vec2i,
) -> (Seq<u64>, Seq<PunchTarget>, Seq<SpawnEvent>)
    decreases n,
{
    if n <= 0 {
        (p0.hit_entities@, ts, Seq::empty())
    } else {
        let (h1, t1, e1) = spec_manual_punch(p0, ts, n - 1, angles, glove_pos, facing);
        let (h2, t2, e2) = spec_manual_step(
            h1,
            t1,
            n - 1,
            angles[n - 1],
            spec_punch_active(p0),
            glove_pos,
            facing,
        );
        (h2, t2, e1 + e2)
    }
}

/// The supplementary proximity check: during the active phase, every
/// valid target overlapping the punch radius is knocked back with double
/// force, as a fallback for fast targets that tunnel past event-based
/// detection. It shares the per-punch hit-set, so a target already hit by
/// either path is never hit again.
pub fn manual_punch_check_system(
    punch: &mut PunchState,
    glove_pos: Vec2i,
    facing: Vec2i,
    targets: &mut Vec<PunchTarget>,
) -> (out: Vec<SpawnEvent>)
    requires
        old(punch).wf(),
        forall|i: int| 0 <= i < old(targets)@.len() ==> (#[trigger] old(targets)@[i]).wf(),
        in_bounds(glove_pos, 2 * COORD_LIMIT as int),
        in_bounds(facing, DIR_SCALE as int),
    ensures
        final(punch).wf(),
        final(punch).is_punching == old(punch).is_punching,
        final(punch).timer == old(punch).timer,
        final(targets)@.len() == old(targets)@.len(),
        forall|i: int| 0 <= i < final(targets)@.len() ==> (#[trigger] final(targets)@[i]).wf(),
        exists|angles: Seq<int>|
            #![trigger spec_manual_punch(
                *old(punch),
                old(targets)@,
                old(targets)@.len() as int,
                angles,
                glove_pos,
                facing,
            )]
            angles.len() == old(targets)@.len() && (forall|k: int|
                0 <= k < angles.len() ==> -PUNCH_ANGLE_RANGE_MRAD <= #[trigger] angles[k]
                    <= PUNCH_ANGLE_RANGE_MRAD) && (
            final(punch).hit_entities@,
            final(targets)@,
            out@,
            ) == spec_manual_punch(
                *old(punch),
                old(targets)@,
                old(targets)@.len() as int,
                angles,
                glove_pos,
                facing,
            ),
{
    let active = if punch.is_punching {
        punch.timer.progress_milli() < 500
    } else {
        false
    };
    let ghost orig_p = *punch;
    let ghost orig_t = targets@;
    let mut out: Vec<SpawnEvent> = Vec::new();
    let ghost mut angles: Seq<int> = Seq::empty();
    let mut i: usize = 0;
    while i < targets.len()
        invariant
            punch.wf(),
            punch.is_punching == old(punch).is_punching,
            punch.timer == old(punch).timer,
            active == spec_punch_active(orig_p),
            orig_p == *old(punch),
            orig_t == old(targets)@,
            in_bounds(glove_pos, 2 * COORD_LIMIT as int),
            in_bounds(facing, DIR_SCALE as int),
            targets@.len() == orig_t.len(),
            forall|k: int| 0 <= k < targets@.len() ==> (#[trigger] targets@[k]).wf(),
            i <= orig_t.len(),
            angles.len() == i,
            forall|k: int|
                0 <= k < angles.len() ==> -PUNCH_ANGLE_RANGE_MRAD <= #[trigger] angles[k]
                    <= PUNCH_ANGLE_RANGE_MRAD,
            (punch.hit_entities@, targets@, out@) == spec_manual_punch(
                orig_p,
                orig_t,
                i as int,
                angles,
                glove_pos,
                facing,
            ),
        decreases targets@.len() - i,
    {
        let t = targets[i];
        let ghost mut a_used: int = 0;
        let d2 = norm_sq(vec_sub(glove_pos, t.body.pos));
        if active && t.valid && d2 <= GLOVE_RADIUS * GLOVE_RADIUS && !hit_set_contains(
            &punch.hit_entities,
            t.id,
        ) {
            let angle = sample_inclusive(-PUNCH_ANGLE_RANGE_MRAD, PUNCH_ANGLE_RANGE_MRAD);
            proof {
                a_used = angle as int;
            }
            let mut b = t.body;
            try_punch(punch, t.id, true, &mut b, glove_pos, facing, angle, 2 * PUNCH_FORCE);
            targets.set(i, PunchTarget { id: t.id, valid: t.valid, body: b });
            out.push(SpawnEvent::PunchHit);
        }
        proof {
            let ghost angles1 = angles.push(a_used);
            assert(forall|k: int| 0 <= k < angles.len() ==> angles1[k] == angles[k]);
            assert(spec_manual_punch(orig_p, orig_t, i as int, angles1, glove_pos, facing)
                == spec_manual_punch(orig_p, orig_t, i as int, angles, glove_pos, facing)) by {
                lemma_manual_punch_angles_prefix(
                    orig_p,
                    orig_t,
                    i as int,
                    angles,
                    angles1,
                    glove_pos,
                    facing,
                );
            }
            let prev = spec_manual_punch(orig_p, orig_t, i as int, angles1, glove_pos, facing);
            let stepped = spec_manual_step(
                prev.0,
                prev.1,
                i as int,
                a_used,
                spec_punch_active(orig_p),
                glove_pos,
                facing,
            );
            assert(punch.hit_entities@ =~= stepped.0);
            assert(targets@ =~= stepped.1);
            assert(out@ =~= spec_manual_punch(
                orig_p,
                orig_t,
                i + 1,
                angles1,
                glove_pos,
                facing,
            ).2);
            angles = angles1;
        }
        i = i + 1;
    }
    out
}

/// Pushing a fresh identity keeps a hit-set duplicate-free and keeps the
/// old hit-set as a prefix.
pub proof fn lemma_hit_set_push(s: Seq<u64>, id: u64)
    requires
        spec_no_dup(s),
        !s.contains(id),
    ensures
        spec_no_dup(s.push(id)),
        s.is_prefix_of(s.push(id)),
{
    let s1 = s.push(id);
    assert forall|i: int, j: int| 0 <= i < j < s1.len() implies s1[i] != s1[j] by {
        if j == s1.len() - 1 {
            assert(s1[i] == s[i]);
        }
    }
    assert(s =~= s1.subrange(0, s.len() as int));
}

/// Across one event-path resolution, the hit-set only grows — every
/// identity recorded earlier in this punch activation stays recorded —
/// and never acquires a duplicate.
pub proof fn lemma_punch_hits_no_dup(
    p0: PunchState,
    ts: Seq<PunchTarget>,
    evs: Seq<CollisionStarted>,
    angles: Seq<int>,
    glove_id: u64,
    glove_pos: Vec2i,
    facing: Vec2i,
)
    requires
        spec_no_dup(p0.hit_entities@),
    ensures
        spec_no_dup(spec_punch_hits(p0, ts, evs, angles, glove_id, glove_pos, facing).0),
        p0.hit_entities@.is_prefix_of(
            spec_punch_hits(p0, ts, evs, angles, glove_id, glove_pos, facing).0,
        ),
    decreases evs.len(),
{
    if evs.len() == 0 {
        assert(p0.hit_entities@ =~= p0.hit_entities@.subrange(0, p0.hit_entities@.len() as int));
    } else {
        lemma_punch_hits_no_dup(p0, ts, evs.drop_last(), angles.drop_last(), glove_id, glove_pos, facing);
        let h1 = spec_punch_hits(
            p0,
            ts,
            evs.drop_last(),
            angles.drop_last(),
            glove_id,
            glove_pos,
            facing,
        ).0;
        let h2 = spec_punch_hits(p0, ts, evs, angles, glove_id, glove_pos, facing).0;
        if h2 != h1 {
            let tgt: u64 = if evs.last().a == glove_id {
                evs.last().b
            } else {
                evs.last().a
            };
            assert(h2 == h1.push(tgt) && !h1.contains(tgt));
            lemma_hit_set_push(h1, tgt);
        }
        lemma_prefix_transitive(p0.hit_entities@, h1, h2);
    }
}

/// Across one proximity-fallback pass, the hit-set only grows and never
/// acquires a duplicate.
pub proof fn lemma_manual_punch_no_dup(
    p0: PunchState,
    ts: Seq<PunchTarget>,
    n: int,
    angles: Seq<int>,
    glove_pos: Vec2i,
    facing: Vec2i,
)
    requires
        spec_no_dup(p0.hit_entities@),
    ensures
        spec_no_dup(spec_manual_punch(p0, ts, n, angles, glove_pos, facing).0),
        p0.hit_entities@.is_prefix_of(spec_manual_punch(p0, ts, n, angles, glove_pos, facing).0),
    decreases n,
{
    if n <= 0 {
        assert(p0.hit_entities@ =~= p0.hit_entities@.subrange(0, p0.hit_entities@.len() as int));
    } else {
        lemma_manual_punch_no_dup(p0, ts, n - 1, angles, glove_pos, facing);
        let h1 = spec_manual_punch(p0, ts, n - 1, angles, glove_pos, facing).0;
        let t1 = spec_manual_punch(p0, ts, n - 1, angles, glove_pos, facing).1;
        let h2 = spec_manual_punch(p0, ts, n, angles, glove_pos, facing).0;
        if h2 != h1 {
            assert(h2 == h1.push(t1[n - 1].id) && !h1.contains(t1[n - 1].id));
            lemma_hit_set_push(h1, t1[n - 1].id);
        }
        lemma_prefix_transitive(p0.hit_entities@, h1, h2);
    }
}

/// Sequence prefixes compose.
pub proof fn lemma_prefix_transitive(a: Seq<u64>, b: Seq<u64>, c: Seq<u64>)
    requires
        a.is_prefix_of(b),
        b.is_prefix_of(c),
    ensures
        a.is_prefix_of(c),
{
    assert(c.subrange(0, b.len() as int).subrange(0, a.len() as int) =~= c.subrange(
        0,
        a.len() as int,
    ));
    assert(a =~= c.subrange(0, a.len() as int));
}

/// The fallback fold over the first `n` targets reads only the first `n`
/// perturbation angles.
pub proof fn lemma_manual_punch_angles_prefix(
    p0: PunchState,
    ts: Seq<PunchTarget>,
    n: int,
    angles1: Seq<int>,
    angles2: Seq<int>,
    glove_pos: Vec2i,
    facing: Vec2i,
)
    requires
        forall|k: int| 0 <= k < n ==> angles1[k] == angles2[k],
    ensures
        spec_manual_punch(p0, ts, n, angles1, glove_pos, facing) == spec_manual_punch(
            p0,
            ts,
            n,
            angles2,
            glove_pos,
            facing,
        ),
    decreases n,
{
    if n > 0 {
        lemma_manual_punch_angles_prefix(p0, ts, n - 1, angles1, angles2, glove_pos, facing);
    }
}

} // verus!
