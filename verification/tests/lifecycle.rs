use platformer_core::lifecycle::{
    setup_ball_spawning, Ball, BodyState, Lifecycle, BALL_LIFETIME, SPAWN_INTERVAL,
};
use platformer_core::timer::{RepeatingTimer, NANOS_PER_SECOND};

const SECOND: u64 = NANOS_PER_SECOND;

fn alive(lifetime: u64) -> Ball {
    let mut ball = Ball::new(lifetime);
    assert!(ball.spawn());
    ball
}

#[test]
fn the_game_spawns_every_three_seconds_for_five() {
    assert_eq!(SPAWN_INTERVAL, 3_000_000_000);
    assert_eq!(BALL_LIFETIME, 5_000_000_000);
    let mut manager = setup_ball_spawning();
    assert_eq!(manager.spawn_count(), 0);
    assert_eq!(manager.step(2_999_999_999).spawned, None);
    assert_eq!(manager.step(1).spawned, Some(0));
    let report = manager.step(4_999_999_999);
    assert_eq!(report.spawned, Some(1));
    assert!(report.despawned.is_empty());
    assert_eq!(manager.step(1).despawned, vec![0]);
}

#[test]
fn new_slot_is_idle() {
    let ball = Ball::new(9);
    assert_eq!(ball.state, BodyState::Idle);
    assert_eq!(ball.lifetime, RepeatingTimer { duration: 9, elapsed: 0 });
}

#[test]
fn idle_slot_does_not_age() {
    let mut ball = Ball::new(9);
    assert!(!ball.tick(100));
    assert_eq!(ball, Ball::new(9));
}

#[test]
fn spawn_starts_the_body() {
    let mut ball = Ball::new(9);
    assert!(ball.spawn());
    assert_eq!(ball.state, BodyState::Alive);
    assert_eq!(ball.lifetime, RepeatingTimer { duration: 9, elapsed: 0 });
}

#[test]
fn a_used_slot_is_not_spawned_into_again() {
    let mut ball = alive(9);
    ball.tick(4);
    assert!(!ball.spawn());
    assert_eq!(ball.state, BodyState::Alive);
    assert_eq!(ball.lifetime.elapsed, 4);
    ball.tick(5);
    assert_eq!(ball.state, BodyState::Destroyed);
    let destroyed = ball;
    assert!(!ball.spawn());
    assert_eq!(ball, destroyed);
}

#[test]
fn body_is_alive_until_its_lifetime_is_reached() {
    let mut ball = alive(5 * SECOND);
    for _ in 0..4 {
        assert!(!ball.tick(SECOND));
        assert_eq!(ball.state, BodyState::Alive);
    }
    assert!(!ball.tick(SECOND - 1));
    assert_eq!(ball.state, BodyState::Alive);
    assert_eq!(ball.lifetime.elapsed, 5 * SECOND - 1);
    assert!(ball.tick(1));
    assert_eq!(ball.state, BodyState::Destroyed);
}

#[test]
fn body_is_destroyed_once() {
    let mut ball = alive(5 * SECOND);
    let mut destroyed = 0;
    for _ in 0..40 {
        if ball.tick(SECOND / 2) {
            destroyed += 1;
        }
    }
    assert_eq!(destroyed, 1);
    assert_eq!(ball.state, BodyState::Destroyed);
    let after = ball;
    assert!(!ball.tick(5 * SECOND));
    assert!(!ball.tick(0));
    assert_eq!(ball, after);
}

#[test]
fn tick_by_zero_keeps_a_body_alive() {
    let mut ball = alive(5);
    ball.tick(3);
    let before = ball;
    assert!(!ball.tick(0));
    assert_eq!(ball, before);
}

#[test]
fn one_long_tick_destroys() {
    let mut ball = alive(5 * SECOND);
    assert!(ball.tick(60 * SECOND));
    assert_eq!(ball.state, BodyState::Destroyed);
}

#[test]
fn new_manager_has_spawned_nothing() {
    let manager = Lifecycle::new(3, 5);
    assert_eq!(manager.spawn_count(), 0);
    assert_eq!(manager.despawn_count(), 0);
    assert_eq!(manager.alive_count(), 0);
    assert_eq!(manager.state_of(0), BodyState::Idle);
}

#[test]
fn ten_seconds_of_spawning() {
    let mut manager = setup_ball_spawning();
    let mut spawns = 0;
    let mut despawns = 0;
    for second in 1..=10u64 {
        let report = manager.step(SECOND);
        if let Some(slot) = report.spawned {
            assert_eq!(slot, spawns);
            assert_eq!(second % 3, 0);
            spawns += 1;
        }
        despawns += report.despawned.len();
        assert_eq!(manager.spawn_count(), spawns);
        assert_eq!(manager.despawn_count(), despawns);
        assert_eq!(manager.alive_count(), spawns - despawns);
    }
    assert_eq!(spawns, 3);
    assert_eq!(despawns, 1);
    assert_eq!(manager.spawn_count(), 3);
    assert_eq!(manager.despawn_count(), 1);
    assert_eq!(manager.alive_count(), 2);
    assert_eq!(manager.state_of(0), BodyState::Destroyed);
    assert_eq!(manager.state_of(1), BodyState::Alive);
    assert_eq!(manager.state_of(2), BodyState::Alive);
    assert_eq!(manager.state_of(3), BodyState::Idle);
}

#[test]
fn ten_seconds_in_frames_of_a_sixtieth() {
    let mut manager = setup_ball_spawning();
    let mut spawns = 0;
    let mut despawns = 0;
    let mut given: u64 = 0;
    while given < 10 * SECOND {
        let delta = std::cmp::min(16_666_667, 10 * SECOND - given);
        let report = manager.step(delta);
        given += delta;
        if report.spawned.is_some() {
            spawns += 1;
        }
        despawns += report.despawned.len();
    }
    assert_eq!(spawns, 3);
    assert_eq!(despawns, 1);
    assert_eq!(manager.alive_count(), 2);
    assert_eq!(manager.spawn_count() - manager.despawn_count(), manager.alive_count());
}

#[test]
fn a_body_is_not_ticked_in_the_step_that_spawns_it() {
    let mut manager = Lifecycle::new(10, 10);
    let report = manager.step(10);
    assert_eq!(report.spawned, Some(0));
    assert!(report.despawned.is_empty());
    assert_eq!(manager.state_of(0), BodyState::Alive);
    let report = manager.step(9);
    assert!(report.despawned.is_empty());
    assert_eq!(report.spawned, None);
    let report = manager.step(1);
    assert_eq!(report.despawned, vec![0]);
    assert_eq!(report.spawned, Some(1));
}

#[test]
fn a_long_step_spawns_one_body() {
    let mut manager = Lifecycle::new(3, 100);
    let report = manager.step(10);
    assert_eq!(report.spawned, Some(0));
    assert_eq!(manager.spawn_count(), 1);
    // Ten nanoseconds into rounds of three leave one.
    assert_eq!(manager.step(1).spawned, None);
    assert_eq!(manager.step(1).spawned, Some(1));
}

#[test]
fn several_bodies_are_destroyed_in_rising_order() {
    let mut manager = Lifecycle::new(1, 4);
    for _ in 0..3 {
        manager.step(1);
    }
    assert_eq!(manager.spawn_count(), 3);
    assert_eq!(manager.alive_count(), 3);
    let report = manager.step(20);
    assert_eq!(report.despawned, vec![0, 1, 2]);
    assert_eq!(report.spawned, Some(3));
    assert_eq!(manager.despawn_count(), 3);
    assert_eq!(manager.alive_count(), 1);
    let report = manager.step(20);
    assert_eq!(report.despawned, vec![3]);
    assert_eq!(manager.state_of(0), BodyState::Destroyed);
    assert_eq!(manager.state_of(4), BodyState::Alive);
}

#[test]
fn destroying_one_body_leaves_the_others_alone() {
    let mut manager = Lifecycle::new(2, 5);
    manager.step(2);
    manager.step(2);
    manager.step(2);
    assert_eq!(manager.alive_count(), 3);
    let report = manager.step(1);
    assert_eq!(report.despawned, vec![0]);
    assert_eq!(manager.state_of(0), BodyState::Destroyed);
    assert_eq!(manager.state_of(1), BodyState::Alive);
    assert_eq!(manager.state_of(2), BodyState::Alive);
    assert_eq!(manager.alive_count(), 2);
}

#[test]
fn despawn_and_spawn_can_be_run_apart() {
    let mut manager = Lifecycle::new(3, 5);
    assert_eq!(manager.spawn_ball(3), Some(0));
    assert_eq!(manager.spawn_ball(2), None);
    assert!(manager.despawn_ball(4).is_empty());
    assert_eq!(manager.spawn_count(), 1);
    assert_eq!(manager.despawn_ball(1), vec![0]);
    assert!(manager.despawn_ball(100).is_empty());
    assert_eq!(manager.despawn_count(), 1);
    assert_eq!(manager.spawn_ball(1), Some(1));
}

#[test]
fn a_step_of_zero_changes_nothing() {
    let mut manager = Lifecycle::new(3, 5);
    manager.step(3);
    manager.step(2);
    let report = manager.step(0);
    assert!(report.despawned.is_empty());
    assert_eq!(report.spawned, None);
    assert_eq!(manager.spawn_count(), 1);
    assert_eq!(manager.alive_count(), 1);
    assert_eq!(manager.step(1).spawned, Some(1));
}
