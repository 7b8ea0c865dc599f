//! The mutable game world and its per-tick update, proved to compute exactly
//! the model functions of [`crate::model`].

use vstd::prelude::*;
use vstd::pervasive::VecAdditionalExecFns;

use crate::entities::{Camera, Config, DrawCmd, Enemy, Facing, PatrolDir, Player};
use crate::entities::{views_of, InputState, PlayerAttackSphere};
use crate::entities::{PlayerM, SphereM, Sprite, Tile, TileKind, TileM};
use crate::geom::{collision, in_camera_viewport, point_in_camera_view};
use crate::model::{camera_track, cell_tiles, cleanup_pass, death_pass, draw_spec, enemy_draws};
use crate::model::{grid_tiles, init_spec, movement_pass, patrol_pass, patrol_step, player_draws};
use crate::model::{player_sprite_spec, row_tiles, spawn_list, spawned_enemy, sphere_draws};
use crate::model::tile_draws;
use crate::model::{lemma_cleanup_at, lemma_cleanup_none, lemma_strike_enemies_at};
use crate::model::{lemma_remove_first_sphere_hit_at, lemma_remove_first_sphere_hit_none};
use crate::model::{lemma_strike_enemies_none, player_touches_enemy, spawn_pass, spawned_sphere};
use crate::model::{player_hits_tile, pushed_player, remove_first_sphere_hit, sphere_hits_tile};
use crate::model::{sphere_strikes_enemy, strike_enemies, strike_pass, travel_pass, travel_step};
use crate::model::{tick_spec, tile_pass, WorldM};
use crate::seqs::{lemma_views_of_add, lemma_views_of_push, lemma_views_of_remove};
use crate::seqs::lemma_views_of_update;

verus! {

/// The world: the single player, the static tiles, the live attack spheres
/// and enemies, the camera, and the tuning the level was built with.
pub struct GameState {
    pub player: Player,
    pub tiles: Vec<Tile>,
    pub player_attack_instances: Vec<PlayerAttackSphere>,
    pub enemy_instances: Vec<Enemy>,
    pub camera: Camera,
    pub config: Config,
}

impl View for GameState {
    type V = WorldM;

    open spec fn view(&self) -> WorldM {
        WorldM {
            player: self.player@,
            tiles: views_of(self.tiles@),
            spheres: views_of(self.player_attack_instances@),
            enemies: views_of(self.enemy_instances@),
            camera: self.camera@,
            config: self.config@,
        }
    }
}

impl GameState {
    /// Builds the world at level load: the player centered in the window, a
    /// tile per occupied cell of the kind grid (row-major, stone collidable,
    /// woodplank and grass walkable, other kinds empty), no attack spheres,
    /// one patrolling enemy per spawn point, and the camera at the origin.
    pub fn new(config: Config, tile_kinds: &Vec<Vec<u8>>, enemy_spawns: &Vec<(i64, i64)>) -> (gs:
        GameState)
        requires
            config@.wf(),
            tile_kinds@.len() <= 1_000_000,
            forall|r: int|
                0 <= r < tile_kinds@.len() ==> (#[trigger] tile_kinds@[r])@.len() <= 1_000_000,
            forall|k: int|
                0 <= k < enemy_spawns@.len() ==> -crate::SPAWN_LIMIT <= (
                #[trigger] enemy_spawns@[k]).0 <= crate::SPAWN_LIMIT && -crate::SPAWN_LIMIT
                    <= enemy_spawns@[k].1 <= crate::SPAWN_LIMIT,
        ensures
            gs@ == init_spec(config@, views_of(tile_kinds@), enemy_spawns@),
            gs@.wf(),
    {
        let ghost c = config@;
        let ghost gridv = views_of(tile_kinds@);
        let mut tiles: Vec<Tile> = Vec::new();
        proof {
            assert(gridv.take(0) =~= Seq::<Seq<u8>>::empty());
        }
        let mut y: usize = 0;
        while y < tile_kinds.len()
            invariant
                y <= tile_kinds@.len(),
                gridv == views_of(tile_kinds@),
                c == config@,
                config@.wf(),
                tile_kinds@.len() <= 1_000_000,
                forall|r: int|
                    0 <= r < tile_kinds@.len() ==> (#[trigger] tile_kinds@[r])@.len() <= 1_000_000,
                views_of(tiles@) == grid_tiles(gridv.take(y as int), c),
                forall|k: int| 0 <= k < tiles@.len() ==> (#[trigger] tiles@[k])@.in_bounds(),
            decreases tile_kinds@.len() - y,
        {
            let row = &tile_kinds[y];
            let ghost base = views_of(tiles@);
            proof {
                assert(row@ == gridv[y as int]);
                assert(row@.take(0) =~= Seq::<u8>::empty());
                assert(base + Seq::<TileM>::empty() =~= base);
            }
            let mut x: usize = 0;
            while x < row.len()
                invariant
                    x <= row@.len(),
                    row@ == gridv[y as int],
                    row@.len() <= 1_000_000,
                    0 <= y < gridv.len(),
                    gridv.len() <= 1_000_000,
                    gridv == views_of(tile_kinds@),
                    c == config@,
                    config@.wf(),
                    views_of(tiles@) == base + row_tiles(row@.take(x as int), y as int, c),
                    base == grid_tiles(gridv.take(y as int), c),
                    forall|k: int| 0 <= k < tiles@.len() ==> (#[trigger] tiles@[k])@.in_bounds(),
                decreases row@.len() - x,
            {
                let kind = row[x];
                proof {
                    let xi = x as int;
                    let yi = y as int;
                    let ts = config@.tile_size;
                    assert(0 <= xi * ts <= 4_096_000_000) by (nonlinear_arith)
                        requires
                            0 <= xi <= 1_000_000,
                            0 <= ts <= 4096,
                    ;
                    assert(0 <= yi * ts <= 4_096_000_000) by (nonlinear_arith)
                        requires
                            0 <= yi <= 1_000_000,
                            0 <= ts <= 4096,
                    ;
                }
                let tile_x = (x as i64) * config.tile_size;
                let tile_y = (y as i64) * config.tile_size;
                proof {
                    assert(row@.take(x as int + 1).drop_last() =~= row@.take(x as int));
                    assert(row@.take(x as int + 1).last() == row@[x as int]);
                }
                if kind == 1 {
                    let t = Tile { kind: TileKind::Stone, x: tile_x, y: tile_y, collidable: true };
                    proof {
                        lemma_views_of_push(tiles@, t);
                        assert(cell_tiles(kind, x as int, y as int, c) =~= seq![t@]);
                        assert((base + row_tiles(row@.take(x as int), y as int, c)).push(t@) =~= base
                            + row_tiles(row@.take(x as int + 1), y as int, c));
                    }
                    tiles.push(t);
                } else if kind == 2 {
                    let t = Tile {
                        kind: TileKind::Woodplank,
                        x: tile_x,
                        y: tile_y,
                        collidable: false,
                    };
                    proof {
                        lemma_views_of_push(tiles@, t);
                        assert(cell_tiles(kind, x as int, y as int, c) =~= seq![t@]);
                        assert((base + row_tiles(row@.take(x as int), y as int, c)).push(t@) =~= base
                            + row_tiles(row@.take(x as int + 1), y as int, c));
                    }
                    tiles.push(t);
                } else if kind == 4 {
                    let t = Tile { kind: TileKind::Grass, x: tile_x, y: tile_y, collidable: false };
                    proof {
                        lemma_views_of_push(tiles@, t);
                        assert(cell_tiles(kind, x as int, y as int, c) =~= seq![t@]);
                        assert((base + row_tiles(row@.take(x as int), y as int, c)).push(t@) =~= base
                            + row_tiles(row@.take(x as int + 1), y as int, c));
                    }
                    tiles.push(t);
                } else {
                    proof {
                        assert(cell_tiles(kind, x as int, y as int, c) =~= Seq::<TileM>::empty());
                        assert(base + row_tiles(row@.take(x as int), y as int, c) =~= base
                            + row_tiles(row@.take(x as int + 1), y as int, c));
                    }
                }
                x = x + 1;
            }
            proof {
                assert(row@.take(row@.len() as int) =~= row@);
                assert(gridv.take(y as int + 1).drop_last() =~= gridv.take(y as int));
                assert(gridv.take(y as int + 1).last() == gridv[y as int]);
                assert(grid_tiles(gridv.take(y as int + 1), c) == grid_tiles(gridv.take(y as int), c)
                    + row_tiles(gridv[y as int], y as int, c));
            }
            y = y + 1;
        }
        proof {
            assert(gridv.take(gridv.len() as int) =~= gridv);
        }
        let mut enemies: Vec<Enemy> = Vec::new();
        proof {
            assert(views_of(enemies@) =~= spawn_list(enemy_spawns@.take(0), c));
        }
        let mut k: usize = 0;
        while k < enemy_spawns.len()
            invariant
                k <= enemy_spawns@.len(),
                c == config@,
                config@.wf(),
                forall|m: int|
                    0 <= m < enemy_spawns@.len() ==> -crate::SPAWN_LIMIT <= (
                    #[trigger] enemy_spawns@[m]).0 <= crate::SPAWN_LIMIT && -crate::SPAWN_LIMIT
                        <= enemy_spawns@[m].1 <= crate::SPAWN_LIMIT,
                views_of(enemies@) == spawn_list(enemy_spawns@.take(k as int), c),
                forall|m: int| 0 <= m < enemies@.len() ==> (#[trigger] enemies@[m])@.in_bounds(),
            decreases enemy_spawns@.len() - k,
        {
            let p = enemy_spawns[k];
            let e = Enemy::spawn(p.0, p.1, &config);
            proof {
                lemma_views_of_push(enemies@, e);
                assert(e@ == spawned_enemy(p.0 as int, p.1 as int, c));
                assert(spawn_list(enemy_spawns@.take(k as int + 1), c) =~= spawn_list(
                    enemy_spawns@.take(k as int),
                    c,
                ).push(e@));
            }
            enemies.push(e);
            k = k + 1;
        }
        proof {
            assert(enemy_spawns@.take(enemy_spawns@.len() as int) =~= enemy_spawns@);
        }
        let player = Player {
            x: config.window_width / 2 - config.player_size / 2,
            y: config.window_height / 2 - config.player_size / 2,
            velocity_x: 0,
            colliding: false,
            facing: Facing::Neutral,
            prev_facing: Facing::Down,
            alive: true,
        };
        let camera = Camera {
            x: 0,
            y: 0,
            viewport_width: config.viewport_width,
            viewport_height: config.viewport_height,
        };
        let spheres: Vec<PlayerAttackSphere> = Vec::new();
        proof {
            assert(views_of(spheres@) =~= Seq::<SphereM>::empty());
        }
        let gs = GameState {
            player,
            tiles,
            player_attack_instances: spheres,
            enemy_instances: enemies,
            camera,
            config,
        };
        proof {
            assert(gs@ == init_spec(c, gridv, enemy_spawns@));
            assert forall|i: int| 0 <= i < gs@.tiles.len() implies (
            #[trigger] gs@.tiles[i]).in_bounds() by {
                assert(gs@.tiles[i] == gs.tiles@[i]@);
            }
            assert forall|i: int| 0 <= i < gs@.enemies.len() implies (
            #[trigger] gs@.enemies[i]).in_bounds() by {
                assert(gs@.enemies[i] == gs.enemy_instances@[i]@);
            }
            assert(gs@.wf());
        }
        gs
    }

    /// Whether the world satisfies the machine bounds [`Self::update`]
    /// relies on: well-formed tuning and every entity's coordinates in
    /// range.  Callers outside the verified core test this before ticking.
    pub fn wf_check(&self) -> (r: bool)
        ensures
            r == self@.wf(),
    {
        let c = &self.config;
        let config_ok = c.window_width > 0 && c.window_width <= 1_000_000 && c.window_height > 0
            && c.window_height <= 1_000_000 && c.player_speed >= 0 && c.player_speed
            <= crate::STEP_LIMIT && c.player_size > 0 && c.player_size <= crate::STEP_LIMIT
            && c.tile_size > 0 && c.tile_size <= crate::STEP_LIMIT && c.projectile_speed >= 0
            && c.projectile_speed <= crate::STEP_LIMIT && c.projectile_size > 0
            && c.projectile_size <= crate::STEP_LIMIT && c.projectile_cap <= 4096 && c.enemy_speed
            >= 0 && c.enemy_speed <= crate::STEP_LIMIT && c.enemy_size > 0 && c.enemy_size
            <= crate::STEP_LIMIT && c.patrol_back > 0 && c.patrol_back <= crate::STEP_LIMIT
            && c.patrol_ahead >= 0 && c.patrol_ahead <= crate::STEP_LIMIT && c.pushback >= 0
            && c.pushback <= crate::STEP_LIMIT && c.viewport_width > 0 && c.viewport_width
            <= 1_000_000 && c.viewport_height > 0 && c.viewport_height <= 1_000_000;
        if !config_ok {
            return false;
        }
        if !(self.player.x >= -crate::POS_LIMIT && self.player.x <= crate::POS_LIMIT
            && self.player.y >= -crate::POS_LIMIT && self.player.y <= crate::POS_LIMIT) {
            return false;
        }
        let cam_bound = crate::POS_LIMIT + crate::STEP_LIMIT;
        if !(self.camera.x >= -cam_bound && self.camera.x <= cam_bound && self.camera.y
            >= -cam_bound && self.camera.y <= cam_bound && self.camera.viewport_width > 0
            && self.camera.viewport_width <= 1_000_000 && self.camera.viewport_height > 0
            && self.camera.viewport_height <= 1_000_000) {
            return false;
        }
        let mut i: usize = 0;
        while i < self.tiles.len()
            invariant
                i <= self.tiles@.len(),
                forall|k: int| 0 <= k < i ==> (#[trigger] self.tiles@[k])@.in_bounds(),
            decreases self.tiles@.len() - i,
        {
            let t = self.tiles[i];
            if !(t.x >= -crate::POS_LIMIT && t.x <= crate::POS_LIMIT && t.y >= -crate::POS_LIMIT
                && t.y <= crate::POS_LIMIT) {
                proof {
                    assert(self@.tiles[i as int] == t@);
                }
                return false;
            }
            i = i + 1;
        }
        let mut j: usize = 0;
        while j < self.player_attack_instances.len()
            invariant
                j <= self.player_attack_instances@.len(),
                forall|k: int|
                    0 <= k < j ==> (#[trigger] self.player_attack_instances@[k])@.in_bounds(),
            decreases self.player_attack_instances@.len() - j,
        {
            let s = self.player_attack_instances[j];
            if !(s.x >= -crate::POS_LIMIT && s.x <= crate::POS_LIMIT && s.y >= -crate::POS_LIMIT
                && s.y <= crate::POS_LIMIT && s.velocity >= -crate::STEP_LIMIT && s.velocity
                <= crate::STEP_LIMIT) {
                proof {
                    assert(self@.spheres[j as int] == s@);
                }
                return false;
            }
            j = j + 1;
        }
        let mut k: usize = 0;
        while k < self.enemy_instances.len()
            invariant
                k <= self.enemy_instances@.len(),
                forall|m: int| 0 <= m < k ==> (#[trigger] self.enemy_instances@[m])@.in_bounds(),
            decreases self.enemy_instances@.len() - k,
        {
            let e = self.enemy_instances[k];
            if !(e.x >= -crate::POS_LIMIT && e.x <= crate::POS_LIMIT && e.y >= -crate::POS_LIMIT
                && e.y <= crate::POS_LIMIT && e.range_end >= -crate::POS_LIMIT && e.range_end
                <= crate::POS_LIMIT && e.range_start >= -crate::POS_LIMIT && e.range_start
                <= crate::POS_LIMIT && e.velocity >= 0 && e.velocity <= crate::STEP_LIMIT) {
                proof {
                    assert(self@.enemies[k as int] == e@);
                }
                return false;
            }
            k = k + 1;
        }
        proof {
            assert forall|m: int| 0 <= m < self@.tiles.len() implies (
            #[trigger] self@.tiles[m]).in_bounds() by {
                assert(self.tiles@[m]@.in_bounds());
                assert(self@.tiles[m] == self.tiles@[m]@);
            }
            assert forall|m: int| 0 <= m < self@.spheres.len() implies (
            #[trigger] self@.spheres[m]).in_bounds() by {
                assert(self.player_attack_instances@[m]@.in_bounds());
                assert(self@.spheres[m] == self.player_attack_instances@[m]@);
            }
            assert forall|m: int| 0 <= m < self@.enemies.len() implies (
            #[trigger] self@.enemies[m]).in_bounds() by {
                assert(self.enemy_instances@[m]@.in_bounds());
                assert(self@.enemies[m] == self.enemy_instances@[m]@);
            }
        }
        true
    }

    /// One simulation tick: camera tracking, the tile collision pass, the
    /// sphere visibility cleanup, the sphere-vs-enemy strike pass, the player
    /// death check, the enemy patrol step, the sphere travel step, the
    /// input-driven player movement, and the attack spawn, in exactly that
    /// order — the whole tick equals [`tick_spec`] on the world model.
    pub fn update(&mut self, input: InputState)
        requires
            old(self)@.wf(),
        ensures
            final(self)@ == tick_spec(old(self)@, input),
    {
        let ghost w0 = self@;
        proof {
            assert forall|k: int| 0 <= k < self.tiles@.len() implies (
            #[trigger] self.tiles@[k])@.in_bounds() by {
                assert(w0.tiles[k] == self.tiles@[k]@);
            }
            assert forall|k: int| 0 <= k < self.player_attack_instances@.len() implies (
            #[trigger] self.player_attack_instances@[k])@.in_bounds() by {
                assert(w0.spheres[k] == self.player_attack_instances@[k]@);
            }
            assert forall|k: int| 0 <= k < self.enemy_instances@.len() implies (
            #[trigger] self.enemy_instances@[k])@.in_bounds() by {
                assert(w0.enemies[k] == self.enemy_instances@[k]@);
            }
        }
        run_camera(&self.player, &mut self.camera, &self.config);
        proof {
            assert(self.camera@ == camera_track(w0.player, w0.camera, w0.config));
            assert(self.camera@.in_bounds());
        }
        run_tile_pass(
            &mut self.player,
            &mut self.player_attack_instances,
            &self.tiles,
            &self.config,
        );
        let ghost after_tiles = tile_pass(w0.player, w0.spheres, w0.tiles, w0.config);
        run_cleanup(&mut self.player_attack_instances);
        let ghost cleaned = cleanup_pass(after_tiles.1);
        run_strike(
            &mut self.player_attack_instances,
            &mut self.enemy_instances,
            &self.camera,
            &self.config,
        );
        let ghost after_strike = strike_pass(
            cleaned,
            w0.enemies,
            camera_track(w0.player, w0.camera, w0.config),
            w0.config,
        );
        run_death(&mut self.player, &self.enemy_instances, &self.config);
        let ghost after_death = death_pass(after_tiles.0, after_strike.1, w0.config);
        proof {
            assert(self.player@ == after_death);
        }
        run_patrol(&mut self.enemy_instances);
        run_travel(&mut self.player_attack_instances);
        proof {
            assert(self.player@.x == after_tiles.0.x && self.player@.y == after_tiles.0.y);
        }
        run_movement(&mut self.player, input, &self.config);
        let ghost moved = movement_pass(after_death, input, w0.config);
        proof {
            assert(self.player@ == moved);
            assert(moved.x == after_death.x + w0.config.player_speed || moved.x == after_death.x
                - w0.config.player_speed || moved.x == after_death.x);
            assert(moved.y == after_death.y + w0.config.player_speed || moved.y == after_death.y
                - w0.config.player_speed || moved.y == after_death.y);
        }
        run_spawn(&self.player, &mut self.player_attack_instances, input, &self.config);
        proof {
            assert(self@ == tick_spec(w0, input));
        }
    }
}

/// The stateless player sprite selection: a walking sheet for the held
/// direction key (right / left / up / down priority, independent of the
/// collision outcome), else an idle sheet from the retained previous facing.
pub fn player_sprite(input: InputState, prev_facing: Facing) -> (s: Sprite)
    ensures
        s == player_sprite_spec(input, prev_facing),
{
    if input.right_held {
        Sprite::PlayerWalkingRight
    } else if input.left_held {
        Sprite::PlayerWalkingLeft
    } else if input.up_held {
        Sprite::PlayerWalkingUp
    } else if input.down_held {
        Sprite::PlayerWalkingDown
    } else {
        match prev_facing {
            Facing::Right => Sprite::PlayerIdleRight,
            Facing::Left => Sprite::PlayerIdleLeft,
            Facing::Up => Sprite::PlayerIdleUp,
            Facing::Down => Sprite::PlayerIdleDown,
            Facing::Neutral => Sprite::PlayerWalkingDown,
        }
    }
}

impl GameState {
    /// The render submission for this frame, in draw order: the tiles inside
    /// the viewport, every live attack sphere, the player (skipped when
    /// dead) with its input-driven sprite, and the enemies inside the
    /// viewport.
    pub fn draw(&self, input: InputState) -> (cmds: Vec<DrawCmd>)
        requires
            self@.wf(),
        ensures
            views_of(cmds@) == draw_spec(self@, input),
    {
        let ghost cam = self.camera@;
        let ghost tv = views_of(self.tiles@);
        let ghost sv = views_of(self.player_attack_instances@);
        let ghost ev = views_of(self.enemy_instances@);
        let mut tile_cmds: Vec<DrawCmd> = Vec::new();
        proof {
            assert(tv.skip(0) =~= tv);
            assert(views_of(tile_cmds@) + tile_draws(tv, cam) =~= tile_draws(tv, cam));
        }
        let mut i: usize = 0;
        while i < self.tiles.len()
            invariant
                i <= self.tiles@.len(),
                tv == views_of(self.tiles@),
                cam == self.camera@,
                self@.wf(),
                tile_draws(tv, cam) == views_of(tile_cmds@) + tile_draws(tv.skip(i as int), cam),
            decreases self.tiles@.len() - i,
        {
            let t = self.tiles[i];
            proof {
                assert(tv.skip(i as int)[0] == tv[i as int]);
                assert(self@.tiles[i as int] == t@);
                assert(t@.in_bounds());
                assert(tv.skip(i as int).drop_first() =~= tv.skip(i as int + 1));
            }
            if in_camera_viewport(&self.camera, &t) {
                let sprite = match t.kind {
                    TileKind::Stone => Sprite::StoneTile,
                    TileKind::Woodplank => Sprite::WoodplankTile,
                    TileKind::Grass => Sprite::GrassTile,
                };
                let cmd = DrawCmd { sprite, x: t.x, y: t.y };
                let ghost pre = views_of(tile_cmds@);
                proof {
                    lemma_views_of_push(tile_cmds@, cmd);
                }
                tile_cmds.push(cmd);
                proof {
                    assert(tile_draws(tv.skip(i as int), cam) == seq![cmd@] + tile_draws(
                        tv.skip(i as int + 1),
                        cam,
                    ));
                    assert(pre.push(cmd@) + tile_draws(tv.skip(i as int + 1), cam) =~= pre + (
                    seq![cmd@] + tile_draws(tv.skip(i as int + 1), cam)));
                }
            }
            i = i + 1;
        }
        proof {
            assert(tv.skip(tv.len() as int).len() == 0);
            assert(views_of(tile_cmds@) + tile_draws(tv.skip(tv.len() as int), cam) =~= views_of(
                tile_cmds@,
            ));
        }
        let mut sphere_cmds: Vec<DrawCmd> = Vec::new();
        proof {
            assert(sv.skip(0) =~= sv);
            assert(views_of(sphere_cmds@) + sphere_draws(sv) =~= sphere_draws(sv));
        }
        let mut j: usize = 0;
        while j < self.player_attack_instances.len()
            invariant
                j <= self.player_attack_instances@.len(),
                sv == views_of(self.player_attack_instances@),
                sphere_draws(sv) == views_of(sphere_cmds@) + sphere_draws(sv.skip(j as int)),
            decreases self.player_attack_instances@.len() - j,
        {
            let s = self.player_attack_instances[j];
            proof {
                assert(sv.skip(j as int)[0] == sv[j as int]);
                assert(sv.skip(j as int).drop_first() =~= sv.skip(j as int + 1));
            }
            let cmd = DrawCmd { sprite: Sprite::AttackBall, x: s.x, y: s.y };
            let ghost pre = views_of(sphere_cmds@);
            proof {
                lemma_views_of_push(sphere_cmds@, cmd);
            }
            sphere_cmds.push(cmd);
            proof {
                assert(sphere_draws(sv.skip(j as int)) == seq![cmd@] + sphere_draws(
                    sv.skip(j as int + 1),
                ));
                assert(pre.push(cmd@) + sphere_draws(sv.skip(j as int + 1)) =~= pre + (seq![cmd@]
                    + sphere_draws(sv.skip(j as int + 1))));
            }
            j = j + 1;
        }
        proof {
            assert(sv.skip(sv.len() as int).len() == 0);
            assert(views_of(sphere_cmds@) + sphere_draws(sv.skip(sv.len() as int)) =~= views_of(
                sphere_cmds@,
            ));
        }
        let mut player_cmds: Vec<DrawCmd> = Vec::new();
        if self.player.alive {
            let cmd = DrawCmd {
                sprite: player_sprite(input, self.player.prev_facing),
                x: self.player.x,
                y: self.player.y,
            };
            proof {
                lemma_views_of_push(player_cmds@, cmd);
            }
            player_cmds.push(cmd);
            proof {
                assert(views_of(player_cmds@) =~= player_draws(self@.player, input));
            }
        } else {
            proof {
                assert(views_of(player_cmds@) =~= player_draws(self@.player, input));
            }
        }
        let mut enemy_cmds: Vec<DrawCmd> = Vec::new();
        proof {
            assert(ev.skip(0) =~= ev);
            assert(views_of(enemy_cmds@) + enemy_draws(ev, cam) =~= enemy_draws(ev, cam));
        }
        let mut k: usize = 0;
        while k < self.enemy_instances.len()
            invariant
                k <= self.enemy_instances@.len(),
                ev == views_of(self.enemy_instances@),
                cam == self.camera@,
                self@.wf(),
                enemy_draws(ev, cam) == views_of(enemy_cmds@) + enemy_draws(ev.skip(k as int), cam),
            decreases self.enemy_instances@.len() - k,
        {
            let e = self.enemy_instances[k];
            proof {
                assert(ev.skip(k as int)[0] == ev[k as int]);
                assert(self@.enemies[k as int] == e@);
                assert(e@.in_bounds());
                assert(ev.skip(k as int).drop_first() =~= ev.skip(k as int + 1));
            }
            if point_in_camera_view(&self.camera, e.x, e.y) {
                let cmd = DrawCmd { sprite: Sprite::EnemyIdle, x: e.x, y: e.y };
                let ghost pre = views_of(enemy_cmds@);
                proof {
                    lemma_views_of_push(enemy_cmds@, cmd);
                }
                enemy_cmds.push(cmd);
                proof {
                    assert(enemy_draws(ev.skip(k as int), cam) == seq![cmd@] + enemy_draws(
                        ev.skip(k as int + 1),
                        cam,
                    ));
                    assert(pre.push(cmd@) + enemy_draws(ev.skip(k as int + 1), cam) =~= pre + (
                    seq![cmd@] + enemy_draws(ev.skip(k as int + 1), cam)));
                }
            }
            k = k + 1;
        }
        proof {
            assert(ev.skip(ev.len() as int).len() == 0);
            assert(views_of(enemy_cmds@) + enemy_draws(ev.skip(ev.len() as int), cam) =~= views_of(
                enemy_cmds@,
            ));
        }
        let mut cmds = tile_cmds;
        proof {
            lemma_views_of_add(cmds@, sphere_cmds@);
        }
        cmds.append(&mut sphere_cmds);
        proof {
            lemma_views_of_add(cmds@, player_cmds@);
        }
        cmds.append(&mut player_cmds);
        proof {
            lemma_views_of_add(cmds@, enemy_cmds@);
        }
        cmds.append(&mut enemy_cmds);
        cmds
    }
}

/// Camera tracking: while the player is alive, center the camera on the
/// player sprite; otherwise leave it frozen.
fn run_camera(player: &Player, camera: &mut Camera, config: &Config)
    requires
        config@.wf(),
        player@.in_bounds(),
    ensures
        final(camera)@ == camera_track(player@, old(camera)@, config@),
{
    if player.alive {
        camera.x = player.x + config.player_size / 2;
        camera.y = player.y + config.player_size / 2;
    }
}

/// Player death check: any enemy overlapping the player kills the player.
fn run_death(player: &mut Player, enemies: &Vec<Enemy>, config: &Config)
    requires
        config@.wf(),
        -crate::POS_LIMIT - crate::STEP_LIMIT <= old(player)@.x <= crate::POS_LIMIT
            + crate::STEP_LIMIT,
        -crate::POS_LIMIT - crate::STEP_LIMIT <= old(player)@.y <= crate::POS_LIMIT
            + crate::STEP_LIMIT,
        forall|k: int| 0 <= k < enemies@.len() ==> (#[trigger] enemies@[k])@.in_bounds(),
    ensures
        final(player)@ == death_pass(old(player)@, views_of(enemies@), config@),
{
    let ghost p0 = player@;
    let ghost ev = views_of(enemies@);
    let mut i: usize = 0;
    while i < enemies.len()
        invariant
            i <= enemies.len(),
            ev == views_of(enemies@),
            config@.wf(),
            -crate::POS_LIMIT - crate::STEP_LIMIT <= p0.x <= crate::POS_LIMIT + crate::STEP_LIMIT,
            -crate::POS_LIMIT - crate::STEP_LIMIT <= p0.y <= crate::POS_LIMIT + crate::STEP_LIMIT,
            forall|k: int| 0 <= k < enemies@.len() ==> (#[trigger] enemies@[k])@.in_bounds(),
            if exists|k: int| 0 <= k < i && player_touches_enemy(p0, ev[k], config@) {
                player@ == (PlayerM { alive: false, ..p0 })
            } else {
                player@ == p0
            },
        decreases enemies.len() - i,
    {
        let e = enemies[i];
        if collision(
            player.x,
            player.y,
            e.x,
            e.y,
            config.player_size,
            config.player_size,
            config.enemy_size,
            config.enemy_size,
        ) {
            player.alive = false;
            assert(player_touches_enemy(p0, ev[i as int], config@));
        }
        i = i + 1;
    }
    assert(player@ == death_pass(p0, ev, config@));
}

/// Enemy patrol pass: every enemy takes one step of the patrol state
/// machine.
fn run_patrol(enemies: &mut Vec<Enemy>)
    requires
        forall|k: int| 0 <= k < old(enemies)@.len() ==> (#[trigger] old(enemies)@[k])@.in_bounds(),
    ensures
        views_of(final(enemies)@) == patrol_pass(views_of(old(enemies)@)),
{
    let ghost ev = views_of(enemies@);
    let mut i: usize = 0;
    while i < enemies.len()
        invariant
            i <= enemies.len(),
            enemies@.len() == ev.len(),
            forall|k: int| i <= k < enemies@.len() ==> enemies@[k]@ == ev[k],
            forall|k: int| i <= k < enemies@.len() ==> (#[trigger] enemies@[k])@.in_bounds(),
            forall|k: int| 0 <= k < i ==> enemies@[k]@ == patrol_step(ev[k]),
        decreases enemies.len() - i,
    {
        let e = enemies[i];
        let mut stepped = e;
        if e.x < e.range_end && e.dir == PatrolDir::TowardEnd {
            stepped.dir = PatrolDir::TowardStart;
            stepped.x = e.x + e.velocity;
        } else if e.x > e.range_end && e.x < e.range_start && e.dir == PatrolDir::TowardEnd {
            stepped.x = e.x - e.velocity;
        } else if e.x > e.range_end && e.x < e.range_start && e.dir == PatrolDir::TowardStart {
            stepped.x = e.x + e.velocity;
        } else if e.x > e.range_start && e.dir == PatrolDir::TowardStart {
            stepped.dir = PatrolDir::TowardEnd;
            stepped.x = e.x - e.velocity;
        } else if e.x > e.range_start && e.dir == PatrolDir::TowardEnd {
            stepped.x = e.x - e.velocity;
        }
        assert(stepped@ == patrol_step(ev[i as int]));
        enemies.set(i, stepped);
        i = i + 1;
    }
    assert(views_of(enemies@) =~= patrol_pass(ev));
}

/// Sphere travel pass: every sphere adds its signed velocity along the axis
/// its facing implies.
fn run_travel(spheres: &mut Vec<PlayerAttackSphere>)
    requires
        forall|k: int| 0 <= k < old(spheres)@.len() ==> (#[trigger] old(spheres)@[k])@.in_bounds(),
    ensures
        views_of(final(spheres)@) == travel_pass(views_of(old(spheres)@)),
{
    let ghost sv = views_of(spheres@);
    let mut i: usize = 0;
    while i < spheres.len()
        invariant
            i <= spheres.len(),
            spheres@.len() == sv.len(),
            forall|k: int| i <= k < spheres@.len() ==> spheres@[k]@ == sv[k],
            forall|k: int| i <= k < spheres@.len() ==> (#[trigger] spheres@[k])@.in_bounds(),
            forall|k: int| 0 <= k < i ==> spheres@[k]@ == travel_step(sv[k]),
        decreases spheres.len() - i,
    {
        let s = spheres[i];
        let mut moved = s;
        match s.facing {
            Facing::Right | Facing::Left => {
                moved.x = s.x + s.velocity;
            },
            Facing::Up | Facing::Down => {
                moved.y = s.y + s.velocity;
            },
            Facing::Neutral => {},
        }
        assert(moved@ == travel_step(sv[i as int]));
        spheres.set(i, moved);
        i = i + 1;
    }
    assert(views_of(spheres@) =~= travel_pass(sv));
}

/// The tile collision pass: one scan over the tiles.  The first collidable
/// tile the player overlaps pushes the player back and ends the scan; for
/// every tile before that, `colliding` is reset and the first sphere
/// overlapping that tile (if collidable) is removed.
fn run_tile_pass(
    player: &mut Player,
    spheres: &mut Vec<PlayerAttackSphere>,
    tiles: &Vec<Tile>,
    config: &Config,
)
    requires
        config@.wf(),
        old(player)@.in_bounds(),
        forall|k: int| 0 <= k < old(spheres)@.len() ==> (#[trigger] old(spheres)@[k])@.in_bounds(),
        forall|k: int| 0 <= k < tiles@.len() ==> (#[trigger] tiles@[k])@.in_bounds(),
    ensures
        final(player)@ == tile_pass(
            old(player)@,
            views_of(old(spheres)@),
            views_of(tiles@),
            config@,
        ).0,
        views_of(final(spheres)@) == tile_pass(
            old(player)@,
            views_of(old(spheres)@),
            views_of(tiles@),
            config@,
        ).1,
        -crate::POS_LIMIT - crate::STEP_LIMIT <= final(player)@.x <= crate::POS_LIMIT
            + crate::STEP_LIMIT,
        -crate::POS_LIMIT - crate::STEP_LIMIT <= final(player)@.y <= crate::POS_LIMIT
            + crate::STEP_LIMIT,
        forall|k: int|
            0 <= k < final(spheres)@.len() ==> (#[trigger] final(spheres)@[k])@.in_bounds(),
{
    let ghost p0 = player@;
    let ghost s0 = views_of(spheres@);
    let ghost tv = views_of(tiles@);
    let ghost c = config@;
    proof {
        assert(tv.skip(0) =~= tv);
    }
    let mut ti: usize = 0;
    while ti < tiles.len()
        invariant_except_break
            ti <= tiles@.len(),
            tv == views_of(tiles@),
            c == config@,
            config@.wf(),
            forall|k: int| 0 <= k < tiles@.len() ==> (#[trigger] tiles@[k])@.in_bounds(),
            forall|k: int| 0 <= k < spheres@.len() ==> (#[trigger] spheres@[k])@.in_bounds(),
            player@.in_bounds(),
            tile_pass(p0, s0, tv, c) == tile_pass(
                player@,
                views_of(spheres@),
                tv.skip(ti as int),
                c,
            ),
        ensures
            tile_pass(p0, s0, tv, c) == (player@, views_of(spheres@)),
            -crate::POS_LIMIT - crate::STEP_LIMIT <= player@.x <= crate::POS_LIMIT
                + crate::STEP_LIMIT,
            -crate::POS_LIMIT - crate::STEP_LIMIT <= player@.y <= crate::POS_LIMIT
                + crate::STEP_LIMIT,
            forall|k: int| 0 <= k < spheres@.len() ==> (#[trigger] spheres@[k])@.in_bounds(),
        decreases tiles@.len() - ti,
    {
        let t = tiles[ti];
        let ghost p_in = player@;
        let ghost s_in = views_of(spheres@);
        proof {
            assert(tv.skip(ti as int)[0] == tv[ti as int]);
            assert(tv[ti as int] == t@);
        }
        if collision(
            player.x,
            player.y,
            t.x,
            t.y,
            config.player_size,
            config.player_size,
            config.tile_size,
            config.tile_size,
        ) && t.collidable {
            player.colliding = true;
            if player.facing == Facing::Left {
                player.x = player.x + config.pushback;
            } else if player.facing == Facing::Right {
                player.x = player.x - config.pushback;
            } else if player.facing == Facing::Up {
                player.y = player.y + config.pushback;
            } else if player.facing == Facing::Down {
                player.y = player.y - config.pushback;
            }
            proof {
                assert(player_hits_tile(p_in, tv.skip(ti as int)[0], c));
                assert(player@ == pushed_player(p_in, c));
                assert(tile_pass(p_in, s_in, tv.skip(ti as int), c) == (player@, s_in));
            }
            break;
        } else {
            player.colliding = false;
            let n = spheres.len();
            let mut j: usize = 0;
            while j < n && !(collision(
                spheres[j].x,
                spheres[j].y,
                t.x,
                t.y,
                config.projectile_size,
                config.projectile_size,
                config.tile_size,
                config.tile_size,
            ) && t.collidable)
                invariant
                    j <= n,
                    n == spheres@.len(),
                    s_in == views_of(spheres@),
                    c == config@,
                    config@.wf(),
                    t@.in_bounds(),
                    forall|k: int|
                        0 <= k < spheres@.len() ==> (#[trigger] spheres@[k])@.in_bounds(),
                    forall|k: int| 0 <= k < j ==> !sphere_hits_tile(s_in[k], t@, c),
                decreases n - j,
            {
                j = j + 1;
            }
            if j < n {
                proof {
                    lemma_remove_first_sphere_hit_at(s_in, t@, c, j as int);
                    lemma_views_of_remove(spheres@, j as int);
                }
                let ghost pre = spheres@;
                spheres.remove(j);
                proof {
                    assert forall|k: int| 0 <= k < spheres@.len() implies (
                    #[trigger] spheres@[k])@.in_bounds() by {
                        if k < j {
                            assert(spheres@[k] == pre[k]);
                        } else {
                            assert(spheres@[k] == pre[k + 1]);
                        }
                    }
                }
            } else {
                proof {
                    lemma_remove_first_sphere_hit_none(s_in, t@, c);
                }
            }
            proof {
                assert(!player_hits_tile(p_in, tv[ti as int], c));
                assert(player@ == (PlayerM { colliding: false, ..p_in }));
                assert(views_of(spheres@) == remove_first_sphere_hit(s_in, tv[ti as int], c));
                assert(tv.skip(ti as int).drop_first() =~= tv.skip(ti as int + 1));
                assert(tile_pass(p_in, s_in, tv.skip(ti as int), c) == tile_pass(
                    player@,
                    views_of(spheres@),
                    tv.skip(ti as int + 1),
                    c,
                ));
            }
        }
        ti = ti + 1;
    }
    proof {
        assert(tv.skip(tv.len() as int).len() == 0);
    }
}

/// Sphere visibility cleanup: the first sphere already marked invisible, if
/// any, is removed; at most one per tick.
fn run_cleanup(spheres: &mut Vec<PlayerAttackSphere>)
    requires
        forall|k: int| 0 <= k < old(spheres)@.len() ==> (#[trigger] old(spheres)@[k])@.in_bounds(),
    ensures
        views_of(final(spheres)@) == cleanup_pass(views_of(old(spheres)@)),
        forall|k: int|
            0 <= k < final(spheres)@.len() ==> (#[trigger] final(spheres)@[k])@.in_bounds(),
{
    let ghost sv = views_of(spheres@);
    let n = spheres.len();
    let mut j: usize = 0;
    while j < n && spheres[j].visible
        invariant
            j <= n,
            n == spheres@.len(),
            sv == views_of(spheres@),
            forall|k: int| 0 <= k < spheres@.len() ==> (#[trigger] spheres@[k])@.in_bounds(),
            forall|k: int| 0 <= k < j ==> sv[k].visible,
        decreases n - j,
    {
        j = j + 1;
    }
    if j < n {
        proof {
            lemma_cleanup_at(sv, j as int);
            lemma_views_of_remove(spheres@, j as int);
        }
        spheres.remove(j);
        proof {
            assert forall|k: int| 0 <= k < spheres@.len() implies (
            #[trigger] spheres@[k])@.in_bounds() by {
                if k < j {
                    assert(spheres@[k] == old(spheres)@[k]);
                } else {
                    assert(spheres@[k] == old(spheres)@[k + 1]);
                }
            }
        }
    } else {
        proof {
            lemma_cleanup_none(sv);
        }
    }
}

/// Sphere-vs-enemy strike pass: each sphere in order scans the enemies still
/// alive; its first strike removes that enemy and marks the sphere invisible.
fn run_strike(
    spheres: &mut Vec<PlayerAttackSphere>,
    enemies: &mut Vec<Enemy>,
    camera: &Camera,
    config: &Config,
)
    requires
        config@.wf(),
        camera@.in_bounds(),
        forall|k: int| 0 <= k < old(spheres)@.len() ==> (#[trigger] old(spheres)@[k])@.in_bounds(),
        forall|k: int| 0 <= k < old(enemies)@.len() ==> (#[trigger] old(enemies)@[k])@.in_bounds(),
    ensures
        views_of(final(spheres)@) == strike_pass(
            views_of(old(spheres)@),
            views_of(old(enemies)@),
            camera@,
            config@,
        ).0,
        views_of(final(enemies)@) == strike_pass(
            views_of(old(spheres)@),
            views_of(old(enemies)@),
            camera@,
            config@,
        ).1,
        forall|k: int|
            0 <= k < final(spheres)@.len() ==> (#[trigger] final(spheres)@[k])@.in_bounds(),
        forall|k: int|
            0 <= k < final(enemies)@.len() ==> (#[trigger] final(enemies)@[k])@.in_bounds(),
{
    let ghost s0 = views_of(spheres@);
    let ghost e0 = views_of(enemies@);
    let ghost cam = camera@;
    let ghost c = config@;
    proof {
        assert(s0.skip(0) =~= s0);
        assert(s0.take(0) + strike_pass(s0, e0, cam, c).0 =~= strike_pass(s0, e0, cam, c).0);
    }
    let mut i: usize = 0;
    while i < spheres.len()
        invariant
            i <= spheres@.len(),
            spheres@.len() == s0.len(),
            c == config@,
            cam == camera@,
            config@.wf(),
            camera@.in_bounds(),
            forall|k: int| 0 <= k < spheres@.len() ==> (#[trigger] spheres@[k])@.in_bounds(),
            forall|k: int| 0 <= k < enemies@.len() ==> (#[trigger] enemies@[k])@.in_bounds(),
            strike_pass(s0, e0, cam, c).0 == views_of(spheres@).take(i as int) + strike_pass(
                views_of(spheres@).skip(i as int),
                views_of(enemies@),
                cam,
                c,
            ).0,
            strike_pass(s0, e0, cam, c).1 == strike_pass(
                views_of(spheres@).skip(i as int),
                views_of(enemies@),
                cam,
                c,
            ).1,
        decreases spheres@.len() - i,
    {
        let ghost sv = views_of(spheres@);
        let ghost ev = views_of(enemies@);
        let s = spheres[i];
        let n = enemies.len();
        let mut j: usize = 0;
        while j < n && !(collision(
            s.x,
            s.y,
            enemies[j].x,
            enemies[j].y,
            config.projectile_size,
            config.projectile_size,
            config.enemy_size,
            config.enemy_size,
        ) && point_in_camera_view(camera, enemies[j].x, enemies[j].y))
            invariant
                j <= n,
                n == enemies@.len(),
                ev == views_of(enemies@),
                c == config@,
                cam == camera@,
                config@.wf(),
                camera@.in_bounds(),
                s@ == sv[i as int],
                0 <= i < sv.len(),
                s@.in_bounds(),
                forall|k: int| 0 <= k < enemies@.len() ==> (#[trigger] enemies@[k])@.in_bounds(),
                forall|k: int| 0 <= k < j ==> !sphere_strikes_enemy(sv[i as int], ev[k], cam, c),
            decreases n - j,
        {
            j = j + 1;
        }
        let ghost r = strike_enemies(sv[i as int], ev, cam, c);
        if j < n {
            proof {
                lemma_strike_enemies_at(sv[i as int], ev, cam, c, j as int);
                lemma_views_of_remove(enemies@, j as int);
            }
            enemies.remove(j);
            let mut ms = s;
            ms.visible = false;
            proof {
                lemma_views_of_update(spheres@, i as int, ms);
            }
            spheres.set(i, ms);
            proof {
                assert forall|k: int| 0 <= k < enemies@.len() implies (
                #[trigger] enemies@[k])@.in_bounds() by {
                    assert(enemies@[k]@ == ev[k] || enemies@[k]@ == ev[k + 1]);
                }
            }
        } else {
            proof {
                lemma_strike_enemies_none(sv[i as int], ev, cam, c);
                assert(views_of(spheres@) =~= sv.update(i as int, r.0));
            }
        }
        proof {
            let svn = views_of(spheres@);
            let evn = views_of(enemies@);
            assert(svn == sv.update(i as int, r.0));
            assert(evn == r.1);
            assert(sv.skip(i as int)[0] == sv[i as int]);
            assert(sv.skip(i as int).drop_first() =~= svn.skip(i as int + 1));
            assert(strike_pass(sv.skip(i as int), ev, cam, c).0 == seq![r.0] + strike_pass(
                svn.skip(i as int + 1),
                evn,
                cam,
                c,
            ).0);
            assert(svn.take(i as int + 1) =~= sv.take(i as int) + seq![r.0]);
            assert(sv.take(i as int) + (seq![r.0] + strike_pass(svn.skip(i as int + 1), evn, cam, c).0)
                =~= (sv.take(i as int) + seq![r.0]) + strike_pass(
                svn.skip(i as int + 1),
                evn,
                cam,
                c,
            ).0);
        }
        i = i + 1;
    }
    proof {
        let svn = views_of(spheres@);
        assert(svn.skip(svn.len() as int).len() == 0);
        assert(svn.take(svn.len() as int) + strike_pass(
            svn.skip(svn.len() as int),
            views_of(enemies@),
            cam,
            c,
        ).0 =~= svn);
    }
}

/// Input-driven player movement: the first held key in left / right / up /
/// down priority order moves the player, unless the tile pass left it
/// colliding; otherwise the facing falls back to neutral.
fn run_movement(player: &mut Player, input: InputState, config: &Config)
    requires
        config@.wf(),
        -crate::POS_LIMIT - crate::STEP_LIMIT <= old(player)@.x <= crate::POS_LIMIT
            + crate::STEP_LIMIT,
        -crate::POS_LIMIT - crate::STEP_LIMIT <= old(player)@.y <= crate::POS_LIMIT
            + crate::STEP_LIMIT,
    ensures
        final(player)@ == movement_pass(old(player)@, input, config@),
{
    if input.left_held && !player.colliding {
        player.velocity_x = -config.player_speed;
        player.x = player.x + player.velocity_x;
        player.facing = Facing::Left;
        player.prev_facing = player.facing;
    } else if input.right_held && !player.colliding {
        player.velocity_x = config.player_speed;
        player.x = player.x + player.velocity_x;
        player.facing = Facing::Right;
        player.prev_facing = player.facing;
    } else if input.up_held && !player.colliding {
        player.velocity_x = config.player_speed;
        player.y = player.y - player.velocity_x;
        player.facing = Facing::Up;
        player.prev_facing = player.facing;
    } else if input.down_held && !player.colliding {
        player.velocity_x = config.player_speed;
        player.y = player.y + player.velocity_x;
        player.facing = Facing::Down;
        player.prev_facing = player.facing;
    } else {
        player.facing = Facing::Neutral;
    }
}

/// Attack spawn pass: an edge-triggered attack press by a living player
/// appends one new sphere while fewer than the cap are live.
fn run_spawn(
    player: &Player,
    spheres: &mut Vec<PlayerAttackSphere>,
    input: InputState,
    config: &Config,
)
    requires
        config@.wf(),
        -crate::POS_LIMIT - 2 * crate::STEP_LIMIT <= player@.x <= crate::POS_LIMIT + 2
            * crate::STEP_LIMIT,
        -crate::POS_LIMIT - 2 * crate::STEP_LIMIT <= player@.y <= crate::POS_LIMIT + 2
            * crate::STEP_LIMIT,
    ensures
        views_of(final(spheres)@) == spawn_pass(player@, views_of(old(spheres)@), input, config@),
{
    if input.attack_pressed && spheres.len() < config.projectile_cap && player.alive {
        let aim = if player.facing != Facing::Neutral {
            player.facing
        } else {
            player.prev_facing
        };
        let launch_dir = if aim == Facing::Neutral {
            Facing::Right
        } else {
            aim
        };
        let speed: i64 = match aim {
            Facing::Right | Facing::Down => config.projectile_speed,
            Facing::Left | Facing::Up => -config.projectile_speed,
            Facing::Neutral => 0,
        };
        let sphere = PlayerAttackSphere {
            x: player.x + config.player_size / 4,
            y: player.y + config.player_size / 4,
            velocity: speed,
            facing: launch_dir,
            visible: true,
        };
        assert(sphere@ == spawned_sphere(player@, config@));
        proof {
            lemma_views_of_push(spheres@, sphere);
        }
        spheres.push(sphere);
    }
}

} // verus!
