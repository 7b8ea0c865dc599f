//! Tests of the enemy patrol state machine.

use hypoterra::entities::{Config, Enemy, InputState, PatrolDir};
use hypoterra::world::GameState;

fn idle() -> InputState {
    InputState {
        left_held: false,
        right_held: false,
        up_held: false,
        down_held: false,
        attack_pressed: false,
    }
}

#[test]
fn spawn_sets_patrol_interval() {
    // Default offsets: range_end 200 behind the spawn, range_start 5 ahead.
    let config = Config::default();
    let e = Enemy::spawn(960, 320, &config);
    assert_eq!(e.range_end, 760);
    assert_eq!(e.range_start, 965);
    assert!(e.range_end < e.range_start);
    assert_eq!(e.velocity, 3);
    assert_eq!(e.dir, PatrolDir::TowardEnd);
}

#[test]
fn first_patrol_step_walks_toward_range_end() {
    let config = Config::default();
    let mut gs = GameState::new(config, &vec![], &vec![(960, 320)]);
    gs.update(idle());
    assert_eq!(gs.enemy_instances[0].x, 957);
    assert_eq!(gs.enemy_instances[0].y, 320);
}

#[test]
fn patrol_oscillates_within_overshoot_bound() {
    // Spawned at x = 960 the enemy swings between 759 and 966, one velocity
    // step beyond the [760, 965] interval at each turn, and never further
    // than [757, 968].
    let config = Config::default();
    let mut gs = GameState::new(config, &vec![], &vec![(960, 320)]);
    let mut min_x: i64 = 960;
    let mut max_x: i64 = 960;
    for _ in 0..600 {
        gs.update(idle());
        let x = gs.enemy_instances[0].x;
        if x < min_x {
            min_x = x;
        }
        if x > max_x {
            max_x = x;
        }
    }
    assert_eq!(min_x, 759);
    assert_eq!(max_x, 966);
    assert!(min_x >= 760 - 3);
    assert!(max_x <= 965 + 3);
}

#[test]
fn patrol_keeps_interval_fixed() {
    let config = Config::default();
    let mut gs = GameState::new(config, &vec![], &vec![(960, 320)]);
    for _ in 0..100 {
        gs.update(idle());
    }
    assert_eq!(gs.enemy_instances[0].range_end, 760);
    assert_eq!(gs.enemy_instances[0].range_start, 965);
    assert_eq!(gs.enemy_instances[0].velocity, 3);
}
