//! Tests of player movement, tile collision pushback, and the lifecycle
//! flag.

use hypoterra::entities::{Config, Enemy, Facing, InputState, Tile, TileKind};
use hypoterra::world::GameState;

fn idle() -> InputState {
    InputState {
        left_held: false,
        right_held: false,
        up_held: false,
        down_held: false,
        attack_pressed: false,
    }
}

fn held(left: bool, right: bool, up: bool, down: bool) -> InputState {
    InputState { left_held: left, right_held: right, up_held: up, down_held: down, attack_pressed: false }
}

#[test]
fn walk_right() {
    let config = Config::default();
    let mut gs = GameState::new(config, &vec![], &vec![]);
    gs.update(held(false, true, false, false));
    assert_eq!(gs.player.x, 622);
    assert_eq!(gs.player.y, 456);
    assert_eq!(gs.player.facing, Facing::Right);
    assert_eq!(gs.player.prev_facing, Facing::Right);
    assert_eq!(gs.player.velocity_x, 6);
}

#[test]
fn walk_left_has_priority_over_right() {
    let config = Config::default();
    let mut gs = GameState::new(config, &vec![], &vec![]);
    gs.update(held(true, true, false, false));
    assert_eq!(gs.player.x, 610);
    assert_eq!(gs.player.facing, Facing::Left);
}

#[test]
fn walk_up_and_down() {
    let config = Config::default();
    let mut gs = GameState::new(config, &vec![], &vec![]);
    gs.update(held(false, false, true, false));
    assert_eq!(gs.player.y, 450);
    assert_eq!(gs.player.facing, Facing::Up);
    gs.update(held(false, false, false, true));
    assert_eq!(gs.player.y, 456);
    assert_eq!(gs.player.facing, Facing::Down);
}

#[test]
fn idle_resets_facing_keeps_prev() {
    let config = Config::default();
    let mut gs = GameState::new(config, &vec![], &vec![]);
    gs.update(held(false, true, false, false));
    gs.update(idle());
    assert_eq!(gs.player.facing, Facing::Neutral);
    assert_eq!(gs.player.prev_facing, Facing::Right);
}

#[test]
fn prev_facing_never_becomes_neutral() {
    let config = Config::default();
    let mut gs = GameState::new(config, &vec![], &vec![]);
    for _ in 0..10 {
        gs.update(idle());
        assert_ne!(gs.player.prev_facing, Facing::Neutral);
    }
}

#[test]
fn overlapping_tile_sets_colliding_without_pushback_when_neutral() {
    // The single-tile fixture: the player at (100, 100) facing neutral over
    // a collidable tile at (96, 100).  The scan sets `colliding` but the
    // neutral facing triggers no pushback branch.
    let config = Config::default();
    let mut gs = GameState::new(config, &vec![], &vec![]);
    gs.player.x = 100;
    gs.player.y = 100;
    gs.tiles.push(Tile::new(TileKind::Stone, 96, 100, true));
    gs.update(idle());
    assert!(gs.player.colliding);
    assert_eq!(gs.player.x, 100);
    assert_eq!(gs.player.y, 100);
    assert_eq!(gs.player.facing, Facing::Neutral);
}

#[test]
fn pushback_opposes_facing_and_blocks_movement() {
    // Facing right over a collidable tile with the right key held: the tile
    // pass pushes the player 7 left and sets `colliding`, and the held key
    // is then ignored this tick.
    let config = Config::default();
    let mut gs = GameState::new(config, &vec![], &vec![]);
    gs.player.x = 100;
    gs.player.y = 100;
    gs.player.facing = Facing::Right;
    gs.tiles.push(Tile::new(TileKind::Stone, 96, 100, true));
    gs.update(held(false, true, false, false));
    assert!(gs.player.colliding);
    assert_eq!(gs.player.x, 93);
    assert_eq!(gs.player.facing, Facing::Neutral);
}

#[test]
fn colliding_resets_on_non_overlapping_tile() {
    // The flag holds only the last tile's scan result: with no overlap it
    // falls back to false even if it was set before.
    let config = Config::default();
    let mut gs = GameState::new(config, &vec![], &vec![]);
    gs.player.colliding = true;
    gs.tiles.push(Tile::new(TileKind::Stone, 5000, 5000, true));
    gs.update(idle());
    assert!(!gs.player.colliding);
}

#[test]
fn enemy_contact_kills_player_once_and_forever() {
    let config = Config::default();
    let mut gs = GameState::new(config, &vec![], &vec![]);
    let e = Enemy::new(gs.player.x, gs.player.y, 0, gs.player.x - 200, gs.player.x + 5,
        hypoterra::entities::PatrolDir::TowardEnd);
    gs.enemy_instances.push(e);
    assert!(gs.player.alive);
    gs.update(idle());
    assert!(!gs.player.alive);
    for _ in 0..5 {
        gs.update(idle());
        assert!(!gs.player.alive);
    }
}

#[test]
fn camera_freezes_on_death() {
    let config = Config::default();
    let mut gs = GameState::new(config, &vec![], &vec![]);
    gs.player.alive = false;
    let cam_x = gs.camera.x;
    let cam_y = gs.camera.y;
    gs.update(held(false, true, false, false));
    assert_eq!(gs.camera.x, cam_x);
    assert_eq!(gs.camera.y, cam_y);
}

#[test]
fn dead_player_spawns_no_sphere() {
    let config = Config::default();
    let mut gs = GameState::new(config, &vec![], &vec![]);
    gs.player.alive = false;
    gs.update(InputState {
        left_held: false,
        right_held: false,
        up_held: false,
        down_held: false,
        attack_pressed: true,
    });
    assert_eq!(gs.player_attack_instances.len(), 0);
}

#[test]
fn dead_player_still_moves() {
    // Death stops the camera and the render submission, not the movement
    // input handling.
    let config = Config::default();
    let mut gs = GameState::new(config, &vec![], &vec![]);
    gs.player.alive = false;
    gs.update(held(false, true, false, false));
    assert_eq!(gs.player.x, 622);
}
