//! Creature state machine behavior: eating, hunting, exploding.

use arena_sim::enemy::{
    eat, explode, run_to_food, run_to_player, shake_when_explode, start_explode,
    start_explode_near_player, start_exploding, start_exploding_event_handler, tick_eat_cooldown,
    BehaviorState, Enemy,
};
use arena_sim::events::{CollisionStarted, SpawnEvent};
use arena_sim::explosion::Explosion;
use arena_sim::food::{despawn_eaten_food, Food};
use arena_sim::timer::CountdownTimer;
use arena_sim::vec2::Vec2i;

fn creature_at(id: u64, x: i64, y: i64) -> Enemy {
    Enemy::new(id, Vec2i { x, y })
}

#[test]
fn fresh_creature_seeks_food_with_zero_appetite() {
    let c = Enemy::new(7, Vec2i { x: 3, y: -4 });
    assert!(matches!(c.state, BehaviorState::SeekingFood));
    assert_eq!(c.appetite, 0);
    assert_eq!(c.speed, 2);
    assert_eq!(c.body.pos, Vec2i { x: 3, y: -4 });
}

#[test]
fn eating_consumes_food_and_bounces_creature() {
    // A creature with appetite 0 touches food holding one unit: the food is
    // consumed, appetite becomes 1, the creature is nudged away from the
    // food, and it keeps seeking food.
    let mut creatures = vec![creature_at(1, 0, 0)];
    let mut foods = vec![Food::new(2, Vec2i { x: 10, y: 0 })];
    tick_eat_cooldown(&mut creatures, 100);
    let events = vec![CollisionStarted { a: 2, b: 1 }];
    eat(&mut creatures, &mut foods, &events);

    assert_eq!(foods[0].quantity, 0);
    assert_eq!(creatures[0].appetite, 1);
    assert_eq!(creatures[0].speed, 7);
    assert!(matches!(creatures[0].state, BehaviorState::SeekingFood));
    // Bounce impulse points from the food toward the creature (negative x).
    assert_eq!(creatures[0].body.impulse, Vec2i { x: -30_000, y: 0 });

    despawn_eaten_food(&mut foods);
    assert!(foods.is_empty());
}

#[test]
fn eat_respects_cooldown() {
    // A fresh creature's eat cooldown has not elapsed yet: nothing happens.
    let mut creatures = vec![creature_at(1, 0, 0)];
    let mut foods = vec![Food::new(2, Vec2i { x: 10, y: 0 })];
    let events = vec![CollisionStarted { a: 2, b: 1 }];
    eat(&mut creatures, &mut foods, &events);
    assert_eq!(foods[0].quantity, 1);
    assert_eq!(creatures[0].appetite, 0);
}

#[test]
fn second_touch_same_tick_is_blocked_by_cooldown() {
    let mut creatures = vec![creature_at(1, 0, 0)];
    let mut foods = vec![
        Food::new(2, Vec2i { x: 10, y: 0 }),
        Food::new(3, Vec2i { x: -10, y: 0 }),
    ];
    tick_eat_cooldown(&mut creatures, 100);
    let events = vec![
        CollisionStarted { a: 2, b: 1 },
        CollisionStarted { a: 3, b: 1 },
    ];
    eat(&mut creatures, &mut foods, &events);
    // The first event eats and resets the cooldown; the second is gated.
    assert_eq!(creatures[0].appetite, 1);
    assert_eq!(foods[0].quantity, 0);
    assert_eq!(foods[1].quantity, 1);
}

#[test]
fn reaching_stomach_cap_switches_to_hunting() {
    // Five successful eats take the appetite to the cap; the creature drops
    // food seeking and hunts.
    let mut creatures = vec![creature_at(1, 0, 0)];
    let mut foods = vec![Food::new(2, Vec2i { x: 10, y: 0 })];
    for round in 0..5u32 {
        foods[0].quantity = 1;
        tick_eat_cooldown(&mut creatures, 100);
        let events = vec![CollisionStarted { a: 2, b: 1 }];
        eat(&mut creatures, &mut foods, &events);
        assert_eq!(creatures[0].appetite, round + 1);
    }
    assert!(matches!(creatures[0].state, BehaviorState::Hunting));
    assert_eq!(creatures[0].speed, 27);
}

#[test]
fn hunting_creature_does_not_eat() {
    let mut c = creature_at(1, 0, 0);
    c.state = BehaviorState::Hunting;
    c.appetite = 5;
    c.speed = 27;
    let mut creatures = vec![c];
    let mut foods = vec![Food::new(2, Vec2i { x: 10, y: 0 })];
    tick_eat_cooldown(&mut creatures, 100);
    let events = vec![CollisionStarted { a: 2, b: 1 }];
    eat(&mut creatures, &mut foods, &events);
    assert_eq!(creatures[0].appetite, 5);
    assert_eq!(foods[0].quantity, 1);
}

#[test]
fn hunting_creature_steers_toward_player() {
    let mut c = creature_at(1, 0, 0);
    c.state = BehaviorState::Hunting;
    c.appetite = 5;
    c.speed = 2;
    let mut creatures = vec![c];
    run_to_player(&mut creatures, Vec2i { x: 100, y: 0 }, 1000);
    // Target speed 100 * 2 = 200 toward +x; the acceleration step (500)
    // covers the whole difference in one second.
    assert_eq!(creatures[0].body.vel, Vec2i { x: 200, y: 0 });
}

#[test]
fn seeking_creature_steers_toward_nearest_food() {
    let mut creatures = vec![creature_at(1, 0, 0)];
    let foods = vec![
        Food::new(2, Vec2i { x: 100, y: 0 }),
        Food::new(3, Vec2i { x: 50, y: 0 }),
    ];
    run_to_food(&mut creatures, &foods, 1000);
    // The nearer food sits 50 to the right; base target speed is 100.
    assert_eq!(creatures[0].body.vel, Vec2i { x: 100, y: 0 });
}

#[test]
fn nearest_food_tie_prefers_earliest() {
    let mut creatures = vec![creature_at(1, 0, 0)];
    let foods = vec![
        Food::new(2, Vec2i { x: 50, y: 0 }),
        Food::new(3, Vec2i { x: -50, y: 0 }),
    ];
    run_to_food(&mut creatures, &foods, 1000);
    assert_eq!(creatures[0].body.vel, Vec2i { x: 100, y: 0 });
}

#[test]
fn no_food_means_no_steering() {
    let mut creatures = vec![creature_at(1, 0, 0)];
    let foods: Vec<Food> = Vec::new();
    run_to_food(&mut creatures, &foods, 1000);
    assert_eq!(creatures[0].body.vel, Vec2i { x: 0, y: 0 });
}

#[test]
fn start_exploding_halves_velocity_and_starts_countdown() {
    let mut c = creature_at(1, 0, 0);
    c.body.vel = Vec2i { x: 10, y: 6 };
    let started = start_exploding(&mut c, 1000);
    assert!(started);
    assert_eq!(c.body.vel, Vec2i { x: 5, y: 3 });
    match c.state {
        BehaviorState::Exploding { timer } => {
            assert_eq!(timer.duration_ms, 1000);
            assert_eq!(timer.elapsed_ms, 0);
        }
        _ => panic!("creature should be exploding"),
    }
}

#[test]
fn start_exploding_is_idempotent() {
    // Triggering an already-exploding creature changes nothing at all.
    let mut c = creature_at(1, 0, 0);
    c.body.vel = Vec2i { x: 10, y: 6 };
    assert!(start_exploding(&mut c, 1000));
    let snapshot = c;
    let started_again = start_exploding(&mut c, 900);
    assert!(!started_again);
    assert_eq!(c, snapshot);
}

#[test]
fn creature_inside_explosion_radius_is_triggered() {
    let creatures = vec![creature_at(1, 0, 0)];
    let explosions = vec![Explosion::new(Vec2i { x: 10, y: 0 }, 70)];
    let triggers = start_explode(&creatures, &explosions);
    assert_eq!(triggers, vec![1]);
}

#[test]
fn exploding_creature_is_not_retriggered() {
    let mut c = creature_at(1, 0, 0);
    start_exploding(&mut c, 1000);
    let creatures = vec![c];
    let explosions = vec![Explosion::new(Vec2i { x: 10, y: 0 }, 70)];
    let triggers = start_explode(&creatures, &explosions);
    assert!(triggers.is_empty());
}

#[test]
fn creature_outside_explosion_radius_is_not_triggered() {
    let creatures = vec![creature_at(1, 500, 0)];
    let explosions = vec![Explosion::new(Vec2i { x: 0, y: 0 }, 70)];
    let triggers = start_explode(&creatures, &explosions);
    assert!(triggers.is_empty());
}

#[test]
fn hunting_creature_near_player_is_triggered() {
    let mut c = creature_at(1, 50, 0);
    c.state = BehaviorState::Hunting;
    c.appetite = 5;
    c.speed = 27;
    let triggers = start_explode_near_player(&vec![c], Vec2i { x: 0, y: 0 });
    assert_eq!(triggers, vec![1]);
}

#[test]
fn seeking_creature_near_player_is_not_triggered() {
    let c = creature_at(1, 50, 0);
    let triggers = start_explode_near_player(&vec![c], Vec2i { x: 0, y: 0 });
    assert!(triggers.is_empty());
}

#[test]
fn trigger_handler_starts_countdown_and_emits_cue() {
    let mut c = creature_at(1, 0, 0);
    c.body.vel = Vec2i { x: 10, y: 6 };
    let mut creatures = vec![c];
    let ids = vec![1u64];
    let events = start_exploding_event_handler(&mut creatures, &ids);
    assert_eq!(events, vec![SpawnEvent::ExplodingLoop]);
    assert_eq!(creatures[0].body.vel, Vec2i { x: 5, y: 3 });
    match creatures[0].state {
        BehaviorState::Exploding { timer } => {
            assert!(timer.duration_ms >= 800 && timer.duration_ms <= 1400);
        }
        _ => panic!("creature should be exploding"),
    }
    // A duplicate trigger is silently ignored.
    let snapshot = creatures[0];
    let again = start_exploding_event_handler(&mut creatures, &ids);
    assert!(again.is_empty());
    assert_eq!(creatures[0], snapshot);
}

#[test]
fn finished_countdown_despawns_and_requests_blast() {
    let mut c = creature_at(1, 40, -30);
    c.appetite = 5;
    c.speed = 27;
    c.state = BehaviorState::Exploding {
        timer: CountdownTimer { duration_ms: 800, elapsed_ms: 0 },
    };
    let mut creatures = vec![c];
    let events = explode(&mut creatures, 800);
    assert!(creatures.is_empty());
    assert_eq!(
        events,
        vec![
            SpawnEvent::Explosion { position: Vec2i { x: 40, y: -30 }, size: 110 },
            SpawnEvent::ExplosionSound,
        ]
    );
}

#[test]
fn unfinished_countdown_keeps_creature() {
    let mut c = creature_at(1, 0, 0);
    c.state = BehaviorState::Exploding {
        timer: CountdownTimer { duration_ms: 800, elapsed_ms: 0 },
    };
    let mut creatures = vec![c];
    let events = explode(&mut creatures, 300);
    assert!(events.is_empty());
    assert_eq!(creatures.len(), 1);
    match creatures[0].state {
        BehaviorState::Exploding { timer } => assert_eq!(timer.elapsed_ms, 300),
        _ => panic!("creature should still be exploding"),
    }
}

#[test]
fn unfed_creature_blast_has_base_size() {
    let mut c = creature_at(1, 0, 0);
    c.state = BehaviorState::Exploding {
        timer: CountdownTimer { duration_ms: 800, elapsed_ms: 0 },
    };
    let mut creatures = vec![c];
    let events = explode(&mut creatures, 900);
    assert_eq!(
        events[0],
        SpawnEvent::Explosion { position: Vec2i { x: 0, y: 0 }, size: 70 }
    );
}

#[test]
fn shake_offsets_only_exploding_creatures() {
    let mut exploding = creature_at(1, 0, 0);
    start_exploding(&mut exploding, 1000);
    let calm = creature_at(2, 10, 10);
    let creatures = vec![exploding, calm];
    for _ in 0..20 {
        let offsets = shake_when_explode(&creatures);
        assert_eq!(offsets.len(), 2);
        assert!(offsets[0].x >= -4 && offsets[0].x <= 4);
        assert!(offsets[0].y >= -4 && offsets[0].y <= 4);
        assert_eq!(offsets[1], Vec2i { x: 0, y: 0 });
    }
}
