//! Tests of world construction, camera tracking, the visibility cull, the
//! render submission, and the bounds check.

use hypoterra::entities::{Camera, Config, Enemy, Facing, InputState, PatrolDir, Player};
use hypoterra::entities::{PlayerAttackSphere, Rectangle, Sprite, Tile, TileKind};
use hypoterra::geom::in_camera_viewport;
use hypoterra::world::{player_sprite, GameState};

fn idle() -> InputState {
    InputState {
        left_held: false,
        right_held: false,
        up_held: false,
        down_held: false,
        attack_pressed: false,
    }
}

#[test]
fn default_config_is_reference_tuning() {
    let c = Config::default();
    assert_eq!(c.window_width, 1280);
    assert_eq!(c.window_height, 960);
    assert_eq!(c.player_speed, 6);
    assert_eq!(c.player_size, 48);
    assert_eq!(c.tile_size, 32);
    assert_eq!(c.projectile_speed, 10);
    assert_eq!(c.projectile_size, 32);
    assert_eq!(c.projectile_cap, 6);
    assert_eq!(c.enemy_speed, 3);
    assert_eq!(c.enemy_size, 48);
    assert_eq!(c.patrol_back, 200);
    assert_eq!(c.patrol_ahead, 5);
    assert_eq!(c.pushback, 7);
    assert_eq!(c.viewport_width, 1280);
    assert_eq!(c.viewport_height, 960);
}

#[test]
fn builder_places_tiles_row_major() {
    // Kind 1 is collidable stone, 2 walkable woodplank, 4 walkable grass,
    // 0 places nothing; each cell sits at (col, row) times the tile size.
    let config = Config::default();
    let grid: Vec<Vec<u8>> = vec![vec![1, 0], vec![2, 4]];
    let gs = GameState::new(config, &grid, &vec![]);
    assert_eq!(gs.tiles.len(), 3);
    assert_eq!(gs.tiles[0], Tile::new(TileKind::Stone, 0, 0, true));
    assert_eq!(gs.tiles[1], Tile::new(TileKind::Woodplank, 0, 32, false));
    assert_eq!(gs.tiles[2], Tile::new(TileKind::Grass, 32, 32, false));
}

#[test]
fn builder_ignores_unknown_kinds() {
    let config = Config::default();
    let grid: Vec<Vec<u8>> = vec![vec![0, 3, 5, 255]];
    let gs = GameState::new(config, &grid, &vec![]);
    assert_eq!(gs.tiles.len(), 0);
}

#[test]
fn builder_centers_player_in_window() {
    let config = Config::default();
    let gs = GameState::new(config, &vec![], &vec![]);
    assert_eq!(gs.player.x, 616);
    assert_eq!(gs.player.y, 456);
    assert_eq!(gs.player.velocity_x, 0);
    assert!(!gs.player.colliding);
    assert_eq!(gs.player.facing, Facing::Neutral);
    assert_eq!(gs.player.prev_facing, Facing::Down);
    assert!(gs.player.alive);
    assert_eq!(gs.camera.x, 0);
    assert_eq!(gs.camera.y, 0);
    assert_eq!(gs.camera.viewport_width, 1280);
    assert_eq!(gs.camera.viewport_height, 960);
    assert_eq!(gs.player_attack_instances.len(), 0);
}

#[test]
fn builder_spawns_enemies_in_order() {
    let config = Config::default();
    let gs = GameState::new(config, &vec![], &vec![(960, 320), (896, 512)]);
    assert_eq!(gs.enemy_instances.len(), 2);
    assert_eq!(gs.enemy_instances[0].x, 960);
    assert_eq!(gs.enemy_instances[0].y, 320);
    assert_eq!(gs.enemy_instances[1].x, 896);
    assert_eq!(gs.enemy_instances[1].range_end, 696);
    assert_eq!(gs.enemy_instances[1].range_start, 901);
}

#[test]
fn camera_tracks_player_center_while_alive() {
    let config = Config::default();
    let mut gs = GameState::new(config, &vec![], &vec![]);
    gs.update(idle());
    assert_eq!(gs.camera.x, 640);
    assert_eq!(gs.camera.y, 480);
}

#[test]
fn wf_check_accepts_fresh_world() {
    let config = Config::default();
    let gs = GameState::new(config, &vec![], &vec![(960, 320)]);
    assert!(gs.wf_check());
}

#[test]
fn wf_check_rejects_runaway_coordinate() {
    let config = Config::default();
    let mut gs = GameState::new(config, &vec![], &vec![]);
    gs.player.x = i64::MAX / 2;
    assert!(!gs.wf_check());
}

#[test]
fn wf_check_rejects_bad_tuning() {
    let mut config = Config::default();
    config.tile_size = 0;
    let gs = GameState::new(Config::default(), &vec![], &vec![]);
    let mut gs2 = gs;
    gs2.config = config;
    assert!(!gs2.wf_check());
}

#[test]
fn viewport_cull_is_strict_and_camera_centered() {
    let camera = Camera { x: 0, y: 0, viewport_width: 1280, viewport_height: 960 };
    let inside = Tile::new(TileKind::Stone, 0, 0, true);
    let right_edge = Tile::new(TileKind::Stone, 640, 0, true);
    let left_out = Tile::new(TileKind::Stone, -640, 0, true);
    let just_inside = Tile::new(TileKind::Stone, 639, 479, true);
    assert!(in_camera_viewport(&camera, &inside));
    assert!(!in_camera_viewport(&camera, &right_edge));
    assert!(!in_camera_viewport(&camera, &left_out));
    assert!(in_camera_viewport(&camera, &just_inside));
}

#[test]
fn draw_order_and_cull() {
    // One visible tile, one culled tile, one sphere, the live player, one
    // visible enemy: commands come in tile, sphere, player, enemy order.
    let config = Config::default();
    let mut gs = GameState::new(config, &vec![], &vec![(100, 100)]);
    gs.tiles.push(Tile::new(TileKind::Grass, 0, 0, false));
    gs.tiles.push(Tile::new(TileKind::Stone, 5000, 5000, true));
    gs.player_attack_instances.push(PlayerAttackSphere::new(300, 300, 10, Facing::Right, true));
    let cmds = gs.draw(idle());
    assert_eq!(cmds.len(), 4);
    assert_eq!(cmds[0].sprite, Sprite::GrassTile);
    assert_eq!(cmds[0].x, 0);
    assert_eq!(cmds[1].sprite, Sprite::AttackBall);
    assert_eq!(cmds[1].x, 300);
    assert_eq!(cmds[2].sprite, Sprite::PlayerIdleDown);
    assert_eq!(cmds[2].x, 616);
    assert_eq!(cmds[2].y, 456);
    assert_eq!(cmds[3].sprite, Sprite::EnemyIdle);
    assert_eq!(cmds[3].x, 100);
}

#[test]
fn dead_player_not_drawn() {
    let config = Config::default();
    let mut gs = GameState::new(config, &vec![], &vec![]);
    gs.player.alive = false;
    let cmds = gs.draw(idle());
    assert_eq!(cmds.len(), 0);
}

#[test]
fn player_sprite_walking_beats_idle() {
    let walking = InputState {
        left_held: false,
        right_held: true,
        up_held: false,
        down_held: false,
        attack_pressed: false,
    };
    assert_eq!(player_sprite(walking, Facing::Down), Sprite::PlayerWalkingRight);
    assert_eq!(player_sprite(idle(), Facing::Down), Sprite::PlayerIdleDown);
    assert_eq!(player_sprite(idle(), Facing::Left), Sprite::PlayerIdleLeft);
    assert_eq!(player_sprite(idle(), Facing::Neutral), Sprite::PlayerWalkingDown);
}

#[test]
fn constructors_pass_fields_through() {
    let t = Tile::new(TileKind::Woodplank, 64, 96, false);
    assert_eq!(t.x, 64);
    assert_eq!(t.y, 96);
    assert!(!t.collidable);
    let p = Player::new(1, 2, 3, true, Facing::Up, Facing::Down, true);
    assert_eq!(p.x, 1);
    assert_eq!(p.velocity_x, 3);
    assert_eq!(p.facing, Facing::Up);
    let s = PlayerAttackSphere::new(4, 5, -10, Facing::Left, true);
    assert_eq!(s.velocity, -10);
    let e = Enemy::new(7, 8, 3, -193, 12, PatrolDir::TowardStart);
    assert_eq!(e.range_end, -193);
    assert_eq!(e.dir, PatrolDir::TowardStart);
}

#[test]
fn player_bounds_span_sprite_size() {
    let config = Config::default();
    let p = Player::new(10, 20, 0, false, Facing::Neutral, Facing::Down, true);
    let r = p.bounds(&config);
    assert_eq!(r, Rectangle { x: 10, y: 20, width: 48, height: 48 });
}
