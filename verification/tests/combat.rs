//! Punch combat: activation, the triangular extension profile, hit
//! deduplication, and the proximity fallback.

use arena_sim::cursor::{
    manual_punch_check_system, move_cursor, punch_hit_system, punch_input_system, PunchState,
    PunchTarget,
};
use arena_sim::events::{CollisionStarted, SpawnEvent};
use arena_sim::physics::Body;
use arena_sim::vec2::Vec2i;

const GLOVE_ID: u64 = 100;

fn facing_right() -> Vec2i {
    Vec2i { x: 1000, y: 0 }
}

fn target_at(id: u64, x: i64, y: i64) -> PunchTarget {
    PunchTarget { id, valid: true, body: Body::at(Vec2i { x, y }) }
}

#[test]
fn press_starts_punch_and_swishes() {
    let mut p = PunchState::default();
    let events = punch_input_system(&mut p, true);
    assert!(p.is_punching);
    assert!(p.hit_entities.is_empty());
    assert_eq!(events, vec![SpawnEvent::PunchSwish]);
}

#[test]
fn press_while_punching_does_nothing() {
    let mut p = PunchState::default();
    punch_input_system(&mut p, true);
    move_cursor(&mut p, Vec2i { x: 0, y: 0 }, Vec2i { x: 100, y: 0 }, 60);
    let events = punch_input_system(&mut p, true);
    assert!(events.is_empty());
    assert_eq!(p.timer.elapsed_ms, 60);
}

#[test]
fn cursor_extends_and_retracts_triangularly() {
    // Halfway through the timer the cursor is fully extended; at the end it
    // is back at the base distance and the punch is over.
    let player = Vec2i { x: 0, y: 0 };
    let aim = Vec2i { x: 100, y: 0 };

    let mut p = PunchState::default();
    punch_input_system(&mut p, true);
    let at_quarter = move_cursor(&mut p, player, aim, 50);
    assert_eq!(at_quarter, Vec2i { x: 55, y: 0 });

    let mut p = PunchState::default();
    punch_input_system(&mut p, true);
    let at_half = move_cursor(&mut p, player, aim, 100);
    assert_eq!(at_half, Vec2i { x: 80, y: 0 });

    let mut p = PunchState::default();
    punch_input_system(&mut p, true);
    let at_end = move_cursor(&mut p, player, aim, 200);
    assert!(!p.is_punching);
    assert_eq!(at_end, Vec2i { x: 30, y: 0 });
}

#[test]
fn idle_cursor_rests_at_base_distance() {
    let mut p = PunchState::default();
    let pos = move_cursor(&mut p, Vec2i { x: 0, y: 0 }, Vec2i { x: 0, y: 100 }, 16);
    assert_eq!(pos, Vec2i { x: 0, y: 30 });
}

#[test]
fn punch_hits_target_once_per_activation() {
    // An enemy overlapping during the active phase receives one knockback
    // impulse; the same enemy overlapping again later in the same punch
    // receives nothing more.
    let mut p = PunchState::default();
    punch_input_system(&mut p, true);
    move_cursor(&mut p, Vec2i { x: 0, y: 0 }, Vec2i { x: 100, y: 0 }, 60);

    let glove_pos = Vec2i { x: 0, y: 0 };
    let mut targets = vec![target_at(1, 10, 0)];
    let events = vec![CollisionStarted { a: GLOVE_ID, b: 1 }];
    let out = punch_hit_system(&mut p, GLOVE_ID, glove_pos, facing_right(), &events, &mut targets);
    assert_eq!(out, vec![SpawnEvent::PunchHit]);
    let first_impulse = targets[0].body.impulse;
    assert!(first_impulse.x > 0);
    assert_eq!(p.hit_entities, vec![1]);

    // Advance to 40% of the duration, still in the active phase.
    move_cursor(&mut p, Vec2i { x: 0, y: 0 }, Vec2i { x: 100, y: 0 }, 20);
    assert!(p.is_punching);
    let out2 = punch_hit_system(&mut p, GLOVE_ID, glove_pos, facing_right(), &events, &mut targets);
    assert!(out2.is_empty());
    assert_eq!(targets[0].body.impulse, first_impulse);
    assert_eq!(p.hit_entities, vec![1]);
}

#[test]
fn no_hits_register_during_retraction() {
    let mut p = PunchState::default();
    punch_input_system(&mut p, true);
    move_cursor(&mut p, Vec2i { x: 0, y: 0 }, Vec2i { x: 100, y: 0 }, 120);
    assert!(p.is_punching);

    let mut targets = vec![target_at(1, 10, 0)];
    let events = vec![CollisionStarted { a: GLOVE_ID, b: 1 }];
    let out = punch_hit_system(
        &mut p,
        GLOVE_ID,
        Vec2i { x: 0, y: 0 },
        facing_right(),
        &events,
        &mut targets,
    );
    assert!(out.is_empty());
    assert_eq!(targets[0].body.impulse, Vec2i { x: 0, y: 0 });
    assert!(p.hit_entities.is_empty());
}

#[test]
fn no_hits_register_while_not_punching() {
    let mut p = PunchState::default();
    let mut targets = vec![target_at(1, 10, 0)];
    let events = vec![CollisionStarted { a: GLOVE_ID, b: 1 }];
    let out = punch_hit_system(
        &mut p,
        GLOVE_ID,
        Vec2i { x: 0, y: 0 },
        facing_right(),
        &events,
        &mut targets,
    );
    assert!(out.is_empty());
    assert_eq!(targets[0].body.impulse, Vec2i { x: 0, y: 0 });
}

#[test]
fn invalid_target_joins_hit_set_without_impulse() {
    let mut p = PunchState::default();
    punch_input_system(&mut p, true);
    move_cursor(&mut p, Vec2i { x: 0, y: 0 }, Vec2i { x: 100, y: 0 }, 60);

    let mut targets = vec![PunchTarget { id: 1, valid: false, body: Body::at(Vec2i { x: 10, y: 0 }) }];
    let events = vec![CollisionStarted { a: GLOVE_ID, b: 1 }];
    let out = punch_hit_system(
        &mut p,
        GLOVE_ID,
        Vec2i { x: 0, y: 0 },
        facing_right(),
        &events,
        &mut targets,
    );
    assert!(out.is_empty());
    assert_eq!(targets[0].body.impulse, Vec2i { x: 0, y: 0 });
    assert_eq!(p.hit_entities, vec![1]);
}

#[test]
fn events_not_involving_the_glove_are_ignored() {
    let mut p = PunchState::default();
    punch_input_system(&mut p, true);
    move_cursor(&mut p, Vec2i { x: 0, y: 0 }, Vec2i { x: 100, y: 0 }, 60);

    let mut targets = vec![target_at(1, 10, 0)];
    let events = vec![CollisionStarted { a: 55, b: 1 }];
    let out = punch_hit_system(
        &mut p,
        GLOVE_ID,
        Vec2i { x: 0, y: 0 },
        facing_right(),
        &events,
        &mut targets,
    );
    assert!(out.is_empty());
    assert!(p.hit_entities.is_empty());
}

#[test]
fn proximity_fallback_hits_with_double_force() {
    // A target inside the punch radius is hit by the fallback even without
    // any collision event, with twice the knockback.
    let mut p = PunchState::default();
    punch_input_system(&mut p, true);
    move_cursor(&mut p, Vec2i { x: 0, y: 0 }, Vec2i { x: 100, y: 0 }, 60);

    let mut targets = vec![target_at(1, 10, 0)];
    let out = manual_punch_check_system(&mut p, Vec2i { x: 0, y: 0 }, facing_right(), &mut targets);
    assert_eq!(out, vec![SpawnEvent::PunchHit]);
    // The blended direction stays close to the facing direction, so the
    // impulse clearly exceeds the single-force knockback.
    assert!(targets[0].body.impulse.x > 40_000);
    assert_eq!(p.hit_entities, vec![1]);
}

#[test]
fn proximity_fallback_skips_distant_targets() {
    let mut p = PunchState::default();
    punch_input_system(&mut p, true);
    move_cursor(&mut p, Vec2i { x: 0, y: 0 }, Vec2i { x: 100, y: 0 }, 60);

    let mut targets = vec![target_at(1, 200, 0)];
    let out = manual_punch_check_system(&mut p, Vec2i { x: 0, y: 0 }, facing_right(), &mut targets);
    assert!(out.is_empty());
    assert!(p.hit_entities.is_empty());
}

#[test]
fn hit_set_is_shared_between_both_detection_paths() {
    // A target hit through a collision event is not hit again by the
    // proximity fallback within the same activation.
    let mut p = PunchState::default();
    punch_input_system(&mut p, true);
    move_cursor(&mut p, Vec2i { x: 0, y: 0 }, Vec2i { x: 100, y: 0 }, 60);

    let glove_pos = Vec2i { x: 0, y: 0 };
    let mut targets = vec![target_at(1, 10, 0)];
    let events = vec![CollisionStarted { a: GLOVE_ID, b: 1 }];
    punch_hit_system(&mut p, GLOVE_ID, glove_pos, facing_right(), &events, &mut targets);
    let after_event_path = targets[0].body.impulse;

    let out = manual_punch_check_system(&mut p, glove_pos, facing_right(), &mut targets);
    assert!(out.is_empty());
    assert_eq!(targets[0].body.impulse, after_event_path);
}

#[test]
fn new_punch_clears_hit_set() {
    let mut p = PunchState::default();
    punch_input_system(&mut p, true);
    move_cursor(&mut p, Vec2i { x: 0, y: 0 }, Vec2i { x: 100, y: 0 }, 60);

    let glove_pos = Vec2i { x: 0, y: 0 };
    let mut targets = vec![target_at(1, 10, 0)];
    let events = vec![CollisionStarted { a: GLOVE_ID, b: 1 }];
    punch_hit_system(&mut p, GLOVE_ID, glove_pos, facing_right(), &events, &mut targets);
    let first = targets[0].body.impulse;

    // Let the punch finish, then start a new one: the same target can be
    // hit again.
    move_cursor(&mut p, Vec2i { x: 0, y: 0 }, Vec2i { x: 100, y: 0 }, 200);
    assert!(!p.is_punching);
    punch_input_system(&mut p, true);
    move_cursor(&mut p, Vec2i { x: 0, y: 0 }, Vec2i { x: 100, y: 0 }, 60);
    let out = punch_hit_system(&mut p, GLOVE_ID, glove_pos, facing_right(), &events, &mut targets);
    assert_eq!(out, vec![SpawnEvent::PunchHit]);
    assert!(targets[0].body.impulse.x > first.x);
}
