//! Tests of the attack sphere lifecycle: spawn, cap, travel, tile removal,
//! enemy strikes, and deferred deletion.

use hypoterra::entities::{Config, Facing, InputState, PlayerAttackSphere, Tile, TileKind};
use hypoterra::world::GameState;

fn idle() -> InputState {
    InputState {
        left_held: false,
        right_held: false,
        up_held: false,
        down_held: false,
        attack_pressed: false,
    }
}

fn attack() -> InputState {
    InputState {
        left_held: false,
        right_held: false,
        up_held: false,
        down_held: false,
        attack_pressed: true,
    }
}

fn far_sphere(n: i64) -> PlayerAttackSphere {
    // Well away from the player, any tile, and any enemy.
    PlayerAttackSphere::new(5000 + 100 * n, 5000, 10, Facing::Right, true)
}

#[test]
fn attack_spawns_sphere_at_quarter_offset() {
    // Player starts at (616, 456) facing neutral with a retained downward
    // facing: the sphere spawns at position + 12 on both axes, aimed down.
    let config = Config::default();
    let mut gs = GameState::new(config, &vec![], &vec![]);
    gs.update(attack());
    assert_eq!(gs.player_attack_instances.len(), 1);
    let s = &gs.player_attack_instances[0];
    assert_eq!(s.x, 628);
    assert_eq!(s.y, 468);
    assert_eq!(s.facing, Facing::Down);
    assert_eq!(s.velocity, 10);
    assert!(s.visible);
}

#[test]
fn spawned_sphere_travels_on_later_ticks() {
    // The sphere does not move on the tick it spawns; each later tick adds
    // the signed velocity along the facing axis.
    let config = Config::default();
    let mut gs = GameState::new(config, &vec![], &vec![]);
    gs.update(attack());
    assert_eq!(gs.player_attack_instances[0].y, 468);
    gs.update(idle());
    assert_eq!(gs.player_attack_instances[0].y, 478);
    gs.update(idle());
    assert_eq!(gs.player_attack_instances[0].y, 488);
}

#[test]
fn attack_aims_left_with_negative_velocity() {
    let config = Config::default();
    let mut gs = GameState::new(config, &vec![], &vec![]);
    gs.player.prev_facing = Facing::Left;
    gs.update(attack());
    let s = &gs.player_attack_instances[0];
    assert_eq!(s.facing, Facing::Left);
    assert_eq!(s.velocity, -10);
}

#[test]
fn no_seventh_sphere_at_cap() {
    // Six spheres already live: the attack press spawns nothing.
    let config = Config::default();
    let mut gs = GameState::new(config, &vec![], &vec![]);
    for n in 0..6 {
        gs.player_attack_instances.push(far_sphere(n));
    }
    gs.update(attack());
    assert_eq!(gs.player_attack_instances.len(), 6);
}

#[test]
fn sixth_sphere_still_spawns() {
    let config = Config::default();
    let mut gs = GameState::new(config, &vec![], &vec![]);
    for n in 0..5 {
        gs.player_attack_instances.push(far_sphere(n));
    }
    gs.update(attack());
    assert_eq!(gs.player_attack_instances.len(), 6);
}

#[test]
fn cap_never_exceeded_over_many_ticks() {
    let config = Config::default();
    let mut gs = GameState::new(config, &vec![], &vec![]);
    for _ in 0..20 {
        gs.update(attack());
        assert!(gs.player_attack_instances.len() <= 6);
    }
}

#[test]
fn invisible_sphere_removed_in_one_tick() {
    // One sphere already marked invisible: the next tick removes exactly it,
    // and the visible one survives (and travels).
    let config = Config::default();
    let mut gs = GameState::new(config, &vec![], &vec![]);
    gs.player_attack_instances.push(PlayerAttackSphere::new(5000, 5000, 10, Facing::Right, true));
    gs.player_attack_instances.push(PlayerAttackSphere::new(6000, 6000, 10, Facing::Right, false));
    gs.update(idle());
    assert_eq!(gs.player_attack_instances.len(), 1);
    assert_eq!(gs.player_attack_instances[0].x, 5010);
    assert!(gs.player_attack_instances[0].visible);
}

#[test]
fn two_invisible_spheres_take_two_ticks() {
    // The cleanup removes at most one sphere per tick: the first found.
    let config = Config::default();
    let mut gs = GameState::new(config, &vec![], &vec![]);
    gs.player_attack_instances.push(PlayerAttackSphere::new(5000, 5000, 10, Facing::Right, false));
    gs.player_attack_instances.push(PlayerAttackSphere::new(6000, 6000, 10, Facing::Right, false));
    gs.update(idle());
    assert_eq!(gs.player_attack_instances.len(), 1);
    assert_eq!(gs.player_attack_instances[0].x, 6010);
    gs.update(idle());
    assert_eq!(gs.player_attack_instances.len(), 0);
}

#[test]
fn sphere_on_collidable_tile_is_removed() {
    let config = Config::default();
    let mut gs = GameState::new(config, &vec![], &vec![]);
    gs.tiles.push(Tile::new(TileKind::Stone, 0, 0, true));
    gs.player_attack_instances.push(PlayerAttackSphere::new(0, 0, 10, Facing::Right, true));
    gs.update(idle());
    assert_eq!(gs.player_attack_instances.len(), 0);
}

#[test]
fn sphere_on_walkable_tile_survives() {
    let config = Config::default();
    let mut gs = GameState::new(config, &vec![], &vec![]);
    gs.tiles.push(Tile::new(TileKind::Grass, 0, 0, false));
    gs.player_attack_instances.push(PlayerAttackSphere::new(0, 0, 10, Facing::Right, true));
    gs.update(idle());
    assert_eq!(gs.player_attack_instances.len(), 1);
    assert_eq!(gs.player_attack_instances[0].x, 10);
}

#[test]
fn strike_removes_enemy_and_defers_sphere_removal() {
    // A sphere overlapping an enemy inside the viewport: the enemy dies at
    // once; the sphere turns invisible but survives (and still travels) for
    // exactly one more tick.
    let config = Config::default();
    let mut gs = GameState::new(config, &vec![], &vec![(700, 500)]);
    gs.player_attack_instances.push(PlayerAttackSphere::new(700, 500, 10, Facing::Right, true));
    gs.update(idle());
    assert_eq!(gs.enemy_instances.len(), 0);
    assert_eq!(gs.player_attack_instances.len(), 1);
    assert!(!gs.player_attack_instances[0].visible);
    assert_eq!(gs.player_attack_instances[0].x, 710);
    gs.update(idle());
    assert_eq!(gs.player_attack_instances.len(), 0);
}

#[test]
fn two_strikes_in_one_tick_drain_one_per_tick() {
    // Two spheres each strike an enemy in the same tick: both enemies die
    // at once, both spheres turn invisible, and the cleanup then removes
    // only one sphere per tick.
    let config = Config::default();
    let mut gs = GameState::new(config, &vec![], &vec![(700, 500), (300, 300)]);
    gs.player_attack_instances.push(PlayerAttackSphere::new(700, 500, 0, Facing::Neutral, true));
    gs.player_attack_instances.push(PlayerAttackSphere::new(300, 300, 0, Facing::Neutral, true));
    gs.update(idle());
    assert_eq!(gs.enemy_instances.len(), 0);
    assert_eq!(gs.player_attack_instances.len(), 2);
    assert!(!gs.player_attack_instances[0].visible);
    assert!(!gs.player_attack_instances[1].visible);
    gs.update(idle());
    assert_eq!(gs.player_attack_instances.len(), 1);
    gs.update(idle());
    assert_eq!(gs.player_attack_instances.len(), 0);
}

#[test]
fn strike_outside_viewport_does_nothing() {
    // The same overlap far outside the camera viewport: no strike.  The
    // camera centers on the player at (640, 480) with a 1280x960 viewport,
    // so x = 2000 lies beyond its right edge.
    let config = Config::default();
    let mut gs = GameState::new(config, &vec![], &vec![(2000, 500)]);
    gs.player_attack_instances.push(PlayerAttackSphere::new(2000, 500, 0, Facing::Neutral, true));
    gs.update(idle());
    assert_eq!(gs.enemy_instances.len(), 1);
    assert!(gs.player_attack_instances[0].visible);
}
