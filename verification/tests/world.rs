//! Explosions, spawners, the player, food scattering, and the arithmetic
//! utilities underneath them.

use arena_sim::enemy::draw_exploding_duration;
use arena_sim::events::SpawnEvent;
use arena_sim::explosion::{
    despawn_explosion, explosion_animation, explosion_force_system, explosion_impulse,
    falloff_magnitude, Explosion,
};
use arena_sim::food::{spawn_food, Food};
use arena_sim::physics::Body;
use arena_sim::player::{
    damage_player_from_explosions, player_movement_system, reset_health, trigger_game_over,
    PlayerHealth,
};
use arena_sim::spawner::{
    damage_spawners_from_explosions, spawn_enemy, spawn_spawners, tick_cooldown_timers, Rgb,
    Spawner, SpawnerHealth, SpawnerUnit,
};
use arena_sim::timer::{CountdownTimer, RepeatingTimer};
use arena_sim::vec2::{clamp_length_max, dist, div_trunc, isqrt, rotate_mrad, scale_to, Vec2i};

#[test]
fn isqrt_matches_exact_squares_and_floors() {
    assert_eq!(isqrt(0), 0);
    assert_eq!(isqrt(1), 1);
    assert_eq!(isqrt(2), 1);
    assert_eq!(isqrt(144), 12);
    assert_eq!(isqrt(145), 12);
    assert_eq!(isqrt(10_000_000_000), 100_000);
}

#[test]
fn div_trunc_rounds_toward_zero() {
    assert_eq!(div_trunc(7, 2), 3);
    assert_eq!(div_trunc(-7, 2), -3);
    assert_eq!(div_trunc(0, 5), 0);
}

#[test]
fn dist_is_planar_euclidean_floor() {
    assert_eq!(dist(Vec2i { x: 0, y: 0 }, Vec2i { x: 3, y: 4 }), 5);
    assert_eq!(dist(Vec2i { x: 0, y: 0 }, Vec2i { x: 1, y: 1 }), 1);
}

#[test]
fn scale_to_makes_unit_scale_vectors() {
    assert_eq!(scale_to(Vec2i { x: 50, y: 0 }, 1000), Vec2i { x: 1000, y: 0 });
    assert_eq!(scale_to(Vec2i { x: 0, y: 0 }, 1000), Vec2i { x: 0, y: 0 });
    let diag = scale_to(Vec2i { x: 1000, y: 1000 }, 1000);
    assert_eq!(diag, Vec2i { x: 707, y: 707 });
}

#[test]
fn clamp_length_max_keeps_short_and_shrinks_long() {
    assert_eq!(
        clamp_length_max(Vec2i { x: 30, y: 40 }, 100),
        Vec2i { x: 30, y: 40 }
    );
    assert_eq!(
        clamp_length_max(Vec2i { x: 300, y: 400 }, 100),
        Vec2i { x: 60, y: 80 }
    );
}

#[test]
fn small_rotations_tilt_unit_vectors() {
    assert_eq!(rotate_mrad(Vec2i { x: 1000, y: 0 }, 0), Vec2i { x: 1000, y: 0 });
    assert_eq!(rotate_mrad(Vec2i { x: 1000, y: 0 }, 200), Vec2i { x: 980, y: 200 });
    assert_eq!(rotate_mrad(Vec2i { x: 1000, y: 0 }, -200), Vec2i { x: 980, y: -200 });
}

#[test]
fn countdown_timer_saturates_and_resets() {
    let mut t = CountdownTimer::new(100);
    assert!(!t.finished());
    t.tick(60);
    assert!(!t.finished());
    t.tick(60);
    assert!(t.finished());
    assert_eq!(t.elapsed_ms, 100);
    t.reset();
    assert!(!t.finished());
    assert_eq!(t.elapsed_ms, 0);
}

#[test]
fn repeating_timer_fires_and_wraps() {
    let mut t = RepeatingTimer::new(10);
    assert!(!t.tick(9));
    assert!(t.tick(16));
    assert_eq!(t.elapsed_ms, 5);
}

#[test]
fn explosion_lifetime_is_clamped_linear_in_size() {
    assert_eq!(Explosion::new(Vec2i { x: 0, y: 0 }, 50).timer.duration_ms, 50);
    assert_eq!(Explosion::new(Vec2i { x: 0, y: 0 }, 80).timer.duration_ms, 150);
    assert_eq!(Explosion::new(Vec2i { x: 0, y: 0 }, 110).timer.duration_ms, 250);
    assert_eq!(Explosion::new(Vec2i { x: 0, y: 0 }, 10).timer.duration_ms, 50);
    assert_eq!(Explosion::new(Vec2i { x: 0, y: 0 }, 100_000).timer.duration_ms, 250);
}

#[test]
fn falloff_is_full_at_center_zero_at_radius() {
    assert_eq!(falloff_magnitude(0, 110, 12_000), 12_000);
    assert_eq!(falloff_magnitude(110, 110, 12_000), 0);
    assert_eq!(falloff_magnitude(200, 110, 12_000), 0);
    // Non-increasing along the way out.
    let mut prev = 12_000;
    for d in 1..=110 {
        let m = falloff_magnitude(d, 110, 12_000);
        assert!(m <= prev);
        prev = m;
    }
}

#[test]
fn blast_at_half_radius_pushes_with_half_force() {
    // An explosion of size 110 at the origin: a body at half the radius
    // receives half the base force, outward; a body beyond the radius
    // receives nothing.
    let imp = explosion_impulse(Vec2i { x: 0, y: 0 }, 110, Vec2i { x: 55, y: 0 });
    assert_eq!(imp, Vec2i { x: 6000, y: 0 });
    let none = explosion_impulse(Vec2i { x: 0, y: 0 }, 110, Vec2i { x: 111, y: 0 });
    assert_eq!(none, Vec2i { x: 0, y: 0 });
}

#[test]
fn force_system_accumulates_outward_impulses() {
    let explosions = vec![Explosion::new(Vec2i { x: 0, y: 0 }, 110)];
    let mut bodies = vec![
        Body::at(Vec2i { x: 55, y: 0 }),
        Body::at(Vec2i { x: 200, y: 0 }),
    ];
    explosion_force_system(&explosions, &mut bodies);
    assert_eq!(bodies[0].impulse, Vec2i { x: 6000, y: 0 });
    assert_eq!(bodies[1].impulse, Vec2i { x: 0, y: 0 });
    // Positions and velocities are untouched.
    assert_eq!(bodies[0].pos, Vec2i { x: 55, y: 0 });
    assert_eq!(bodies[0].vel, Vec2i { x: 0, y: 0 });
}

#[test]
fn finished_explosions_are_removed() {
    let mut explosions = vec![
        Explosion::new(Vec2i { x: 0, y: 0 }, 50),
        Explosion::new(Vec2i { x: 10, y: 0 }, 110),
    ];
    let removed = despawn_explosion(&mut explosions, 100);
    assert_eq!(removed, 1);
    assert_eq!(explosions.len(), 1);
    assert_eq!(explosions[0].size, 110);
    assert_eq!(explosions[0].timer.elapsed_ms, 100);
}

#[test]
fn explosion_animation_walks_five_frames() {
    let mut e = Explosion::new(Vec2i { x: 0, y: 0 }, 110);
    assert_eq!(explosion_animation(&e), 0);
    e.timer.elapsed_ms = 125;
    assert_eq!(explosion_animation(&e), 2);
    e.timer.elapsed_ms = 250;
    assert_eq!(explosion_animation(&e), 4);
}

fn spawner_with_health(h: u32) -> SpawnerUnit {
    SpawnerUnit {
        pos: Vec2i { x: 0, y: 0 },
        spawner: Spawner { timer: RepeatingTimer::new(10_000), spent: h == 0 },
        health: SpawnerHealth { health: h, cooldown: CountdownTimer::new(2000) },
        color: Rgb { r: 1000, g: 1000, b: 1000 },
    }
}

#[test]
fn last_hit_spends_the_spawner() {
    // A spawner at one health, hit by an overlapping explosion once its
    // cooldown has elapsed: health reaches zero, the color turns fully
    // dark, and later production timer firings request nothing.
    let mut spawners = vec![spawner_with_health(1)];
    let explosions = vec![Explosion::new(Vec2i { x: 10, y: 0 }, 70)];
    let out = damage_spawners_from_explosions(&mut spawners, &explosions, 2000);
    assert_eq!(out, vec![SpawnEvent::SpawnerDamaged]);
    assert_eq!(spawners[0].health.health, 0);
    assert!(spawners[0].spawner.spent);
    assert_eq!(spawners[0].color, Rgb { r: 0, g: 0, b: 0 });

    let requests = spawn_enemy(&mut spawners, 10_000);
    assert!(requests.is_empty());
}

#[test]
fn spawner_damage_respects_cooldown() {
    let mut spawners = vec![spawner_with_health(8)];
    let explosions = vec![
        Explosion::new(Vec2i { x: 10, y: 0 }, 70),
        Explosion::new(Vec2i { x: -10, y: 0 }, 70),
    ];
    // Cooldown elapses once; only the first overlapping explosion lands.
    let out = damage_spawners_from_explosions(&mut spawners, &explosions, 2000);
    assert_eq!(out.len(), 1);
    assert_eq!(spawners[0].health.health, 7);
    assert!(!spawners[0].spawner.spent);
    // Bright-to-dark fade after one hit of eight.
    assert_eq!(spawners[0].color, Rgb { r: 912, g: 87, b: 87 });

    // Without a fresh cooldown nothing more lands.
    let out2 = damage_spawners_from_explosions(&mut spawners, &explosions, 0);
    assert!(out2.is_empty());
    assert_eq!(spawners[0].health.health, 7);
}

#[test]
fn distant_explosion_does_not_damage_spawner() {
    let mut spawners = vec![spawner_with_health(8)];
    let explosions = vec![Explosion::new(Vec2i { x: 500, y: 0 }, 70)];
    let out = damage_spawners_from_explosions(&mut spawners, &explosions, 2000);
    assert!(out.is_empty());
    assert_eq!(spawners[0].health.health, 8);
}

#[test]
fn active_spawner_produces_beside_itself() {
    let mut spawners = vec![spawner_with_health(8)];
    let requests = spawn_enemy(&mut spawners, 10_000);
    assert_eq!(
        requests,
        vec![SpawnEvent::Enemy { position: Vec2i { x: -50, y: 0 } }]
    );
    // The next tick starts a fresh interval.
    let none = spawn_enemy(&mut spawners, 100);
    assert!(none.is_empty());
}

#[test]
fn cooldown_tick_only_advances_timers() {
    let mut spawners = vec![spawner_with_health(8)];
    tick_cooldown_timers(&mut spawners, 500);
    assert_eq!(spawners[0].health.cooldown.elapsed_ms, 500);
    assert_eq!(spawners[0].health.health, 8);
}

#[test]
fn spawn_spawners_scatters_five() {
    let events = spawn_spawners();
    assert_eq!(events.len(), 5);
    for e in &events {
        match e {
            SpawnEvent::Spawner { position } => {
                assert!(position.x >= -1000 && position.x <= 1000);
                assert!(position.y >= -1000 && position.y <= 1000);
            }
            _ => panic!("expected a spawner request"),
        }
    }
}

#[test]
fn food_is_scattered_only_below_the_cap() {
    let mut events: Vec<SpawnEvent> = Vec::new();
    spawn_food(10, &mut events);
    assert!(events.is_empty());
    spawn_food(3, &mut events);
    assert_eq!(events.len(), 1);
    match events[0] {
        SpawnEvent::Food { position } => {
            assert!(position.x >= -500 && position.x <= 500);
            assert!(position.y >= -500 && position.y <= 500);
        }
        _ => panic!("expected a food request"),
    }
}

#[test]
fn food_constructor_holds_one_unit() {
    let f = Food::new(9, Vec2i { x: 1, y: 2 });
    assert_eq!(f.quantity, 1);
    assert_eq!(f.id, 9);
}

#[test]
fn exploding_durations_stay_in_range() {
    for _ in 0..50 {
        let d = draw_exploding_duration();
        assert!((800..=1400).contains(&d));
    }
}

#[test]
fn player_takes_at_most_one_hit_per_cooldown() {
    let mut h = PlayerHealth::default();
    let explosions = vec![
        Explosion::new(Vec2i { x: 10, y: 0 }, 70),
        Explosion::new(Vec2i { x: -10, y: 0 }, 70),
    ];
    let player_pos = Vec2i { x: 0, y: 0 };
    // The cooldown elapses after one second; two overlapping explosions
    // still cost only one health point.
    let damaged = damage_player_from_explosions(&mut h, player_pos, &explosions, 1000);
    assert!(damaged);
    assert_eq!(h.health, 4);
    let damaged_again = damage_player_from_explosions(&mut h, player_pos, &explosions, 0);
    assert!(!damaged_again);
    assert_eq!(h.health, 4);
}

#[test]
fn distant_explosions_leave_player_unharmed() {
    let mut h = PlayerHealth::default();
    let explosions = vec![Explosion::new(Vec2i { x: 500, y: 0 }, 70)];
    let damaged = damage_player_from_explosions(&mut h, Vec2i { x: 0, y: 0 }, &explosions, 1000);
    assert!(!damaged);
    assert_eq!(h.health, 5);
}

#[test]
fn game_ends_exactly_at_zero_health() {
    let mut h = PlayerHealth::default();
    assert!(!trigger_game_over(&h));
    let explosions = vec![Explosion::new(Vec2i { x: 0, y: 0 }, 70)];
    for _ in 0..5 {
        damage_player_from_explosions(&mut h, Vec2i { x: 0, y: 0 }, &explosions, 1000);
    }
    assert_eq!(h.health, 0);
    assert!(trigger_game_over(&h));
    // Health never goes below zero.
    damage_player_from_explosions(&mut h, Vec2i { x: 0, y: 0 }, &explosions, 1000);
    assert_eq!(h.health, 0);
    reset_health(&mut h);
    assert_eq!(h.health, 5);
    assert!(!trigger_game_over(&h));
}

#[test]
fn player_accelerates_toward_held_keys() {
    let mut vel = Vec2i { x: 0, y: 0 };
    let v = player_movement_system(&mut vel, true, false, false, true, 1000);
    // Up and right held for a full second: the diagonal target speed.
    assert_eq!(v, Vec2i { x: 141, y: 141 });
    let mut vel2 = Vec2i { x: 0, y: 0 };
    let v2 = player_movement_system(&mut vel2, false, false, false, false, 1000);
    assert_eq!(v2, Vec2i { x: 0, y: 0 });
}

#[test]
fn player_acceleration_is_capped_per_tick() {
    let mut vel = Vec2i { x: 0, y: 0 };
    // Sixteen milliseconds allow a step of at most 16 units.
    let v = player_movement_system(&mut vel, false, false, false, true, 16);
    assert_eq!(v, Vec2i { x: 16, y: 0 });
}
