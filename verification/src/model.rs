//! The mathematical model of one simulation tick.
//!
//! Each pass of the per-tick update is a pure function on the entity models;
//! [`tick_spec`] composes them in the exact order the game runs them.  The
//! executable update in [`crate::world`] is proved to compute precisely these
//! functions, so every property of the game can be read off — and proved
//! about — this module alone.
//!
//! Two quirks are part of the design, not accidents to clean up: collision
//! passes resolve only the *first* match per scan and then stop (so at most
//! one removal per category per scan), and the enemy patrol rule lets an
//! enemy overshoot its patrol interval by one velocity step before
//! reversing.

use vstd::prelude::*;

use crate::entities::{CameraM, ConfigM, EnemyM, Facing, PatrolDir, PlayerM, SphereM, TileM};
use crate::entities::{DrawCmdM, InputState, Sprite, TileKind};
use crate::geom::{overlaps, point_in_viewport};

verus! {

/// The whole world as a mathematical value.
pub ghost struct WorldM {
    pub player: PlayerM,
    pub tiles: Seq<TileM>,
    pub spheres: Seq<SphereM>,
    pub enemies: Seq<EnemyM>,
    pub camera: CameraM,
    pub config: ConfigM,
}

impl WorldM {
    /// Machine bounds under which a tick's arithmetic is exact: the tuning
    /// is well formed and every entity's coordinates are in range.
    pub open spec fn wf(self) -> bool {
        &&& self.config.wf()
        &&& self.player.in_bounds()
        &&& forall|i: int| 0 <= i < self.tiles.len() ==> self.tiles[i].in_bounds()
        &&& forall|i: int| 0 <= i < self.spheres.len() ==> self.spheres[i].in_bounds()
        &&& forall|i: int| 0 <= i < self.enemies.len() ==> self.enemies[i].in_bounds()
        &&& self.camera.in_bounds()
    }
}

// ---------------------------------------------------------------------------
// Camera tracking
// ---------------------------------------------------------------------------
/// While the player is alive the camera centers on the player sprite
/// (position plus half the sprite size on both axes); once the player is
/// dead the camera freezes.
pub open spec fn camera_track(player: PlayerM, camera: CameraM, c: ConfigM) -> CameraM {
    if player.alive {
        CameraM {
            x: player.x + c.player_size / 2,
            y: player.y + c.player_size / 2,
            ..camera
        }
    } else {
        camera
    }
}

// ---------------------------------------------------------------------------
// Tile collision pass
// ---------------------------------------------------------------------------
/// The player's box overlaps a collidable tile's box.
pub open spec fn player_hits_tile(p: PlayerM, t: TileM, c: ConfigM) -> bool {
    &&& t.collidable
    &&& overlaps(p.x, p.y, t.x, t.y, c.player_size, c.player_size, c.tile_size, c.tile_size)
}

/// A sphere's box overlaps a collidable tile's box.
pub open spec fn sphere_hits_tile(s: SphereM, t: TileM, c: ConfigM) -> bool {
    &&& t.collidable
    &&& overlaps(s.x, s.y, t.x, t.y, c.projectile_size, c.projectile_size, c.tile_size, c.tile_size)
}

/// The pushback applied to a player caught overlapping a collidable tile:
/// `colliding` is set, and the position moves `c.pushback` units opposite to
/// the current facing (a neutral facing triggers no movement branch).
pub open spec fn pushed_player(p: PlayerM, c: ConfigM) -> PlayerM {
    match p.facing {
        Facing::Left => PlayerM { x: p.x + c.pushback, colliding: true, ..p },
        Facing::Right => PlayerM { x: p.x - c.pushback, colliding: true, ..p },
        Facing::Up => PlayerM { y: p.y + c.pushback, colliding: true, ..p },
        Facing::Down => PlayerM { y: p.y - c.pushback, colliding: true, ..p },
        Facing::Neutral => PlayerM { colliding: true, ..p },
    }
}

/// Removes the first sphere that hits the tile, if any; later spheres keep
/// their order.  At most one sphere is removed per tile scanned — the
/// deliberate first-match-then-stop semantics.
pub open spec fn remove_first_sphere_hit(spheres: Seq<SphereM>, t: TileM, c: ConfigM) -> Seq<
    SphereM,
>
    decreases spheres.len(),
{
    if spheres.len() == 0 {
        spheres
    } else if sphere_hits_tile(spheres[0], t, c) {
        spheres.drop_first()
    } else {
        seq![spheres[0]] + remove_first_sphere_hit(spheres.drop_first(), t, c)
    }
}

/// The single pass over the tiles.  For each tile in order: if the player
/// overlaps it and it is collidable, the player is pushed back and the scan
/// stops; otherwise `colliding` is reset to false (last-write semantics) and
/// the first sphere hitting that tile, if any, is removed.  Tiles after a
/// player hit are never scanned, not even against the spheres.
pub open spec fn tile_pass(p: PlayerM, spheres: Seq<SphereM>, tiles: Seq<TileM>, c: ConfigM) -> (
    PlayerM,
    Seq<SphereM>,
)
    decreases tiles.len(),
{
    if tiles.len() == 0 {
        (p, spheres)
    } else if player_hits_tile(p, tiles[0], c) {
        (pushed_player(p, c), spheres)
    } else {
        let cleared = PlayerM { colliding: false, ..p };
        tile_pass(cleared, remove_first_sphere_hit(spheres, tiles[0], c), tiles.drop_first(), c)
    }
}

// ---------------------------------------------------------------------------
// Visibility cleanup pass
// ---------------------------------------------------------------------------
/// Removes the first sphere already marked invisible, if any; at most one
/// per tick, so each invisible sphere is gone within one tick of being
/// marked (exactly one, when it is the only one marked).
pub open spec fn cleanup_pass(spheres: Seq<SphereM>) -> Seq<SphereM>
    decreases spheres.len(),
{
    if spheres.len() == 0 {
        spheres
    } else if !spheres[0].visible {
        spheres.drop_first()
    } else {
        seq![spheres[0]] + cleanup_pass(spheres.drop_first())
    }
}

// ---------------------------------------------------------------------------
// Sphere-vs-enemy strike pass
// ---------------------------------------------------------------------------
/// A sphere strikes an enemy when their boxes overlap and the enemy's
/// position is inside the camera viewport.
pub open spec fn sphere_strikes_enemy(s: SphereM, e: EnemyM, camera: CameraM, c: ConfigM) -> bool {
    &&& overlaps(s.x, s.y, e.x, e.y, c.projectile_size, c.projectile_size, c.enemy_size, c.enemy_size)
    &&& point_in_viewport(camera, e.x, e.y)
}

/// One sphere against the enemy list: the first enemy struck is removed and
/// the sphere is marked invisible (deferred deletion — the sphere itself
/// survives until the next tick's cleanup); the scan stops at that first
/// hit.
pub open spec fn strike_enemies(s: SphereM, enemies: Seq<EnemyM>, camera: CameraM, c: ConfigM) -> (
    SphereM,
    Seq<EnemyM>,
)
    decreases enemies.len(),
{
    if enemies.len() == 0 {
        (s, enemies)
    } else if sphere_strikes_enemy(s, enemies[0], camera, c) {
        (SphereM { visible: false, ..s }, enemies.drop_first())
    } else {
        let r = strike_enemies(s, enemies.drop_first(), camera, c);
        (r.0, seq![enemies[0]] + r.1)
    }
}

/// Every sphere in order gets one strike scan over the enemies that are
/// still alive when its turn comes.
pub open spec fn strike_pass(spheres: Seq<SphereM>, enemies: Seq<EnemyM>, camera: CameraM, c: ConfigM) -> (
    Seq<SphereM>,
    Seq<EnemyM>,
)
    decreases spheres.len(),
{
    if spheres.len() == 0 {
        (spheres, enemies)
    } else {
        let first = strike_enemies(spheres[0], enemies, camera, c);
        let rest = strike_pass(spheres.drop_first(), first.1, camera, c);
        (seq![first.0] + rest.0, rest.1)
    }
}

// ---------------------------------------------------------------------------
// Player death pass
// ---------------------------------------------------------------------------
/// The player's box overlaps an enemy's box.
pub open spec fn player_touches_enemy(p: PlayerM, e: EnemyM, c: ConfigM) -> bool {
    overlaps(p.x, p.y, e.x, e.y, c.player_size, c.player_size, c.enemy_size, c.enemy_size)
}

/// Any live enemy overlapping the player kills the player; the enemy is not
/// removed.  A dead player stays dead.
pub open spec fn death_pass(p: PlayerM, enemies: Seq<EnemyM>, c: ConfigM) -> PlayerM {
    if exists|i: int| 0 <= i < enemies.len() && player_touches_enemy(p, enemies[i], c) {
        PlayerM { alive: false, ..p }
    } else {
        p
    }
}

// ---------------------------------------------------------------------------
// Enemy patrol pass
// ---------------------------------------------------------------------------
/// One patrol step.  The five rules of the patrol state machine, in
/// priority order; on the boundary positions (`x` exactly at an interval
/// endpoint, in the matching direction state) no rule fires and the enemy
/// holds still.  `TowardEnd` walks toward `range_end` (negative x),
/// `TowardStart` walks back toward `range_start`; the flip at `range_end`
/// moves the enemy in the same tick, which is what allows the one-step
/// overshoot.
pub open spec fn patrol_step(e: EnemyM) -> EnemyM {
    if e.x < e.range_end && e.dir is TowardEnd {
        EnemyM { dir: PatrolDir::TowardStart, x: e.x + e.velocity, ..e }
    } else if e.range_end < e.x < e.range_start && e.dir is TowardEnd {
        EnemyM { x: e.x - e.velocity, ..e }
    } else if e.range_end < e.x < e.range_start && e.dir is TowardStart {
        EnemyM { x: e.x + e.velocity, ..e }
    } else if e.x > e.range_start && e.dir is TowardStart {
        EnemyM { dir: PatrolDir::TowardEnd, x: e.x - e.velocity, ..e }
    } else if e.x > e.range_start && e.dir is TowardEnd {
        EnemyM { x: e.x - e.velocity, ..e }
    } else {
        e
    }
}

/// Every enemy takes its patrol step, independently.
pub open spec fn patrol_pass(enemies: Seq<EnemyM>) -> Seq<EnemyM> {
    enemies.map_values(|e: EnemyM| patrol_step(e))
}

// ---------------------------------------------------------------------------
// Sphere travel pass
// ---------------------------------------------------------------------------
/// A sphere adds its signed velocity to x when facing left or right, to y
/// when facing up or down.
pub open spec fn travel_step(s: SphereM) -> SphereM {
    match s.facing {
        Facing::Right | Facing::Left => SphereM { x: s.x + s.velocity, ..s },
        Facing::Up | Facing::Down => SphereM { y: s.y + s.velocity, ..s },
        Facing::Neutral => s,
    }
}

/// Every live sphere travels one step.
pub open spec fn travel_pass(spheres: Seq<SphereM>) -> Seq<SphereM> {
    spheres.map_values(|s: SphereM| travel_step(s))
}

// ---------------------------------------------------------------------------
// Player movement pass
// ---------------------------------------------------------------------------
/// Input-driven movement.  Exactly one direction applies per tick, first
/// match in left / right / up / down priority order, and only while
/// `colliding` is false — a colliding player ignores every held key and
/// falls to the neutral branch.  A movement branch sets the velocity,
/// facing, and `prev_facing`; the neutral branch resets facing and leaves
/// `prev_facing` alone.
pub open spec fn movement_pass(p: PlayerM, input: InputState, c: ConfigM) -> PlayerM {
    if input.left_held && !p.colliding {
        PlayerM {
            velocity_x: -c.player_speed,
            x: p.x - c.player_speed,
            facing: Facing::Left,
            prev_facing: Facing::Left,
            ..p
        }
    } else if input.right_held && !p.colliding {
        PlayerM {
            velocity_x: c.player_speed,
            x: p.x + c.player_speed,
            facing: Facing::Right,
            prev_facing: Facing::Right,
            ..p
        }
    } else if input.up_held && !p.colliding {
        PlayerM {
            velocity_x: c.player_speed,
            y: p.y - c.player_speed,
            facing: Facing::Up,
            prev_facing: Facing::Up,
            ..p
        }
    } else if input.down_held && !p.colliding {
        PlayerM {
            velocity_x: c.player_speed,
            y: p.y + c.player_speed,
            facing: Facing::Down,
            prev_facing: Facing::Down,
            ..p
        }
    } else {
        PlayerM { facing: Facing::Neutral, ..p }
    }
}

// ---------------------------------------------------------------------------
// Attack spawn pass
// ---------------------------------------------------------------------------
/// The signed launch speed a facing implies: positive for right and down,
/// negative for left and up, zero for neutral.
pub open spec fn facing_speed(f: Facing, speed: int) -> int {
    match f {
        Facing::Right | Facing::Down => speed,
        Facing::Left | Facing::Up => -speed,
        Facing::Neutral => 0,
    }
}

/// The direction an attack launched now would take: the current facing if
/// any, else the retained previous facing.
pub open spec fn launch_facing(p: PlayerM) -> Facing {
    if !(p.facing is Neutral) {
        p.facing
    } else {
        p.prev_facing
    }
}

/// The sphere an attack pressed this tick would spawn: at the player's
/// position offset by a quarter sprite on both axes, facing the launch
/// direction (or right, if even the previous facing is neutral — then with
/// zero velocity), visible.
pub open spec fn spawned_sphere(p: PlayerM, c: ConfigM) -> SphereM {
    SphereM {
        x: p.x + c.player_size / 4,
        y: p.y + c.player_size / 4,
        velocity: facing_speed(launch_facing(p), c.projectile_speed),
        facing: if launch_facing(p) is Neutral {
            Facing::Right
        } else {
            launch_facing(p)
        },
        visible: true,
    }
}

/// On an edge-triggered attack press, while the player is alive and fewer
/// than the cap of spheres are live, one new sphere is appended; otherwise
/// nothing changes.
pub open spec fn spawn_pass(p: PlayerM, spheres: Seq<SphereM>, input: InputState, c: ConfigM) -> Seq<
    SphereM,
> {
    if input.attack_pressed && spheres.len() < c.projectile_cap && p.alive {
        spheres.push(spawned_sphere(p, c))
    } else {
        spheres
    }
}

// ---------------------------------------------------------------------------
// The tick
// ---------------------------------------------------------------------------
/// One whole simulation tick: camera tracking, the tile collision pass over
/// player and spheres, the sphere visibility cleanup, the sphere-vs-enemy
/// strike pass, the player death check, the enemy patrol step, the sphere
/// travel step, the input-driven player movement, and the attack spawn — in
/// exactly that order.
pub open spec fn tick_spec(w: WorldM, input: InputState) -> WorldM {
    let camera = camera_track(w.player, w.camera, w.config);
    let after_tiles = tile_pass(w.player, w.spheres, w.tiles, w.config);
    let cleaned = cleanup_pass(after_tiles.1);
    let after_strike = strike_pass(cleaned, w.enemies, camera, w.config);
    let after_death = death_pass(after_tiles.0, after_strike.1, w.config);
    let patrolled = patrol_pass(after_strike.1);
    let travelled = travel_pass(after_strike.0);
    let moved = movement_pass(after_death, input, w.config);
    let spawned = spawn_pass(moved, travelled, input, w.config);
    WorldM {
        player: moved,
        tiles: w.tiles,
        spheres: spawned,
        enemies: patrolled,
        camera,
        config: w.config,
    }
}

// ---------------------------------------------------------------------------
// Characterizations of the first-match removal passes
// ---------------------------------------------------------------------------
/// A tile scan that hits no sphere removes nothing.
pub proof fn lemma_remove_first_sphere_hit_none(spheres: Seq<SphereM>, t: TileM, c: ConfigM)
    requires
        forall|k: int| 0 <= k < spheres.len() ==> !sphere_hits_tile(spheres[k], t, c),
    ensures
        remove_first_sphere_hit(spheres, t, c) == spheres,
    decreases spheres.len(),
{
    if spheres.len() > 0 {
        lemma_remove_first_sphere_hit_none(spheres.drop_first(), t, c);
        assert(seq![spheres[0]] + spheres.drop_first() =~= spheres);
    }
}

/// A tile scan whose first hit is at index `j` removes exactly the sphere at
/// `j` and nothing else.
pub proof fn lemma_remove_first_sphere_hit_at(spheres: Seq<SphereM>, t: TileM, c: ConfigM, j: int)
    requires
        0 <= j < spheres.len(),
        forall|k: int| 0 <= k < j ==> !sphere_hits_tile(spheres[k], t, c),
        sphere_hits_tile(spheres[j], t, c),
    ensures
        remove_first_sphere_hit(spheres, t, c) == spheres.remove(j),
    decreases j,
{
    if j == 0 {
        assert(spheres.drop_first() =~= spheres.remove(0));
    } else {
        lemma_remove_first_sphere_hit_at(spheres.drop_first(), t, c, j - 1);
        assert(seq![spheres[0]] + spheres.drop_first().remove(j - 1) =~= spheres.remove(j));
    }
}

/// When every sphere is still visible, the cleanup removes nothing.
pub proof fn lemma_cleanup_none(spheres: Seq<SphereM>)
    requires
        forall|k: int| 0 <= k < spheres.len() ==> spheres[k].visible,
    ensures
        cleanup_pass(spheres) == spheres,
    decreases spheres.len(),
{
    if spheres.len() > 0 {
        lemma_cleanup_none(spheres.drop_first());
        assert(seq![spheres[0]] + spheres.drop_first() =~= spheres);
    }
}

/// When the first invisible sphere sits at index `j`, the cleanup removes
/// exactly that one and nothing else.
pub proof fn lemma_cleanup_at(spheres: Seq<SphereM>, j: int)
    requires
        0 <= j < spheres.len(),
        forall|k: int| 0 <= k < j ==> spheres[k].visible,
        !spheres[j].visible,
    ensures
        cleanup_pass(spheres) == spheres.remove(j),
    decreases j,
{
    if j == 0 {
        assert(spheres.drop_first() =~= spheres.remove(0));
    } else {
        lemma_cleanup_at(spheres.drop_first(), j - 1);
        assert(seq![spheres[0]] + spheres.drop_first().remove(j - 1) =~= spheres.remove(j));
    }
}

/// A strike scan that hits no enemy changes nothing.
pub proof fn lemma_strike_enemies_none(s: SphereM, enemies: Seq<EnemyM>, camera: CameraM, c: ConfigM)
    requires
        forall|k: int| 0 <= k < enemies.len() ==> !sphere_strikes_enemy(s, enemies[k], camera, c),
    ensures
        strike_enemies(s, enemies, camera, c) == (s, enemies),
    decreases enemies.len(),
{
    if enemies.len() > 0 {
        lemma_strike_enemies_none(s, enemies.drop_first(), camera, c);
        assert(seq![enemies[0]] + enemies.drop_first() =~= enemies);
    }
}

/// A strike scan whose first hit is at index `j` removes exactly the enemy
/// at `j` and marks the sphere invisible.
pub proof fn lemma_strike_enemies_at(
    s: SphereM,
    enemies: Seq<EnemyM>,
    camera: CameraM,
    c: ConfigM,
    j: int,
)
    requires
        0 <= j < enemies.len(),
        forall|k: int| 0 <= k < j ==> !sphere_strikes_enemy(s, enemies[k], camera, c),
        sphere_strikes_enemy(s, enemies[j], camera, c),
    ensures
        strike_enemies(s, enemies, camera, c) == (
            SphereM { visible: false, ..s },
            enemies.remove(j),
        ),
    decreases j,
{
    if j == 0 {
        assert(enemies.drop_first() =~= enemies.remove(0));
    } else {
        lemma_strike_enemies_at(s, enemies.drop_first(), camera, c, j - 1);
        assert(seq![enemies[0]] + enemies.drop_first().remove(j - 1) =~= enemies.remove(j));
    }
}

// ---------------------------------------------------------------------------
// Length facts about the passes
// ---------------------------------------------------------------------------
/// A tile scan removes at most one sphere.
pub proof fn lemma_remove_first_sphere_hit_len(spheres: Seq<SphereM>, t: TileM, c: ConfigM)
    ensures
        spheres.len() - 1 <= remove_first_sphere_hit(spheres, t, c).len() <= spheres.len(),
    decreases spheres.len(),
{
    if spheres.len() > 0 && !sphere_hits_tile(spheres[0], t, c) {
        lemma_remove_first_sphere_hit_len(spheres.drop_first(), t, c);
    }
}

/// The tile pass never adds a sphere.
pub proof fn lemma_tile_pass_len(p: PlayerM, spheres: Seq<SphereM>, tiles: Seq<TileM>, c: ConfigM)
    ensures
        tile_pass(p, spheres, tiles, c).1.len() <= spheres.len(),
    decreases tiles.len(),
{
    if tiles.len() > 0 && !player_hits_tile(p, tiles[0], c) {
        let cleared = PlayerM { colliding: false, ..p };
        lemma_remove_first_sphere_hit_len(spheres, tiles[0], c);
        lemma_tile_pass_len(cleared, remove_first_sphere_hit(spheres, tiles[0], c), tiles.drop_first(), c);
    }
}

/// The cleanup never adds a sphere.
pub proof fn lemma_cleanup_len(spheres: Seq<SphereM>)
    ensures
        cleanup_pass(spheres).len() <= spheres.len(),
    decreases spheres.len(),
{
    if spheres.len() > 0 && spheres[0].visible {
        lemma_cleanup_len(spheres.drop_first());
    }
}

/// A strike scan never adds an enemy.
pub proof fn lemma_strike_enemies_len(s: SphereM, enemies: Seq<EnemyM>, camera: CameraM, c: ConfigM)
    ensures
        strike_enemies(s, enemies, camera, c).1.len() <= enemies.len(),
    decreases enemies.len(),
{
    if enemies.len() > 0 && !sphere_strikes_enemy(s, enemies[0], camera, c) {
        lemma_strike_enemies_len(s, enemies.drop_first(), camera, c);
    }
}

/// The strike pass keeps exactly one sphere per sphere scanned.
pub proof fn lemma_strike_pass_len(
    spheres: Seq<SphereM>,
    enemies: Seq<EnemyM>,
    camera: CameraM,
    c: ConfigM,
)
    ensures
        strike_pass(spheres, enemies, camera, c).0.len() == spheres.len(),
    decreases spheres.len(),
{
    if spheres.len() > 0 {
        let first = strike_enemies(spheres[0], enemies, camera, c);
        lemma_strike_pass_len(spheres.drop_first(), first.1, camera, c);
    }
}

// ---------------------------------------------------------------------------
// World construction
// ---------------------------------------------------------------------------
/// The player as the world starts: centered in the window, idle, facing
/// neutral with a retained downward facing, alive.
pub open spec fn initial_player(c: ConfigM) -> PlayerM {
    PlayerM {
        x: c.window_width / 2 - c.player_size / 2,
        y: c.window_height / 2 - c.player_size / 2,
        velocity_x: 0,
        colliding: false,
        facing: Facing::Neutral,
        prev_facing: Facing::Down,
        alive: true,
    }
}

/// The tiles one grid cell contributes: stone (kind 1) is collidable,
/// woodplank (kind 2) and grass (kind 4) are placed but walkable, any other
/// kind places nothing.  The cell at column `col`, row `row` sits at
/// `(col, row)` scaled by the tile size.
pub open spec fn cell_tiles(kind: u8, col: int, row: int, c: ConfigM) -> Seq<TileM> {
    if kind == 1 {
        seq![
            TileM { kind: TileKind::Stone, x: col * c.tile_size, y: row * c.tile_size, collidable: true },
        ]
    } else if kind == 2 {
        seq![
            TileM {
                kind: TileKind::Woodplank,
                x: col * c.tile_size,
                y: row * c.tile_size,
                collidable: false,
            },
        ]
    } else if kind == 4 {
        seq![
            TileM { kind: TileKind::Grass, x: col * c.tile_size, y: row * c.tile_size, collidable: false },
        ]
    } else {
        Seq::empty()
    }
}

/// The tiles one grid row contributes, in column order.
pub open spec fn row_tiles(row: Seq<u8>, rowi: int, c: ConfigM) -> Seq<TileM>
    decreases row.len(),
{
    if row.len() == 0 {
        Seq::empty()
    } else {
        row_tiles(row.drop_last(), rowi, c) + cell_tiles(row.last(), row.len() - 1, rowi, c)
    }
}

/// The tiles a whole kind grid contributes, in row-major order.
pub open spec fn grid_tiles(grid: Seq<Seq<u8>>, c: ConfigM) -> Seq<TileM>
    decreases grid.len(),
{
    if grid.len() == 0 {
        Seq::empty()
    } else {
        grid_tiles(grid.drop_last(), c) + row_tiles(grid.last(), grid.len() - 1, c)
    }
}

/// An enemy as spawned at `(x, y)`: patrolling at the configured speed with
/// `range_end` a patrol-back behind and `range_start` a patrol-ahead beyond
/// the spawn point, initially in the `TowardEnd` state.
pub open spec fn spawned_enemy(x: int, y: int, c: ConfigM) -> EnemyM {
    EnemyM {
        x,
        y,
        velocity: c.enemy_speed,
        range_end: x - c.patrol_back,
        range_start: x + c.patrol_ahead,
        dir: PatrolDir::TowardEnd,
    }
}

/// The enemies spawned from a list of spawn points, in order.
pub open spec fn spawn_list(points: Seq<(i64, i64)>, c: ConfigM) -> Seq<EnemyM> {
    points.map_values(|p: (i64, i64)| spawned_enemy(p.0 as int, p.1 as int, c))
}

/// The camera as the world starts: at the origin, with the configured
/// viewport.
pub open spec fn initial_camera(c: ConfigM) -> CameraM {
    CameraM { x: 0, y: 0, viewport_width: c.viewport_width, viewport_height: c.viewport_height }
}

/// The whole world at level load: the initial player, the tiles the kind
/// grid describes, no attack spheres, the spawned enemies, the initial
/// camera.
pub open spec fn init_spec(c: ConfigM, grid: Seq<Seq<u8>>, points: Seq<(i64, i64)>) -> WorldM {
    WorldM {
        player: initial_player(c),
        tiles: grid_tiles(grid, c),
        spheres: Seq::empty(),
        enemies: spawn_list(points, c),
        camera: initial_camera(c),
        config: c,
    }
}

// ---------------------------------------------------------------------------
// Render submission
// ---------------------------------------------------------------------------
/// The sprite sheet the player shows: a walking sheet for the held direction
/// key (checked in right / left / up / down order, independent of collision
/// outcome), else an idle sheet from the retained previous facing.
pub open spec fn player_sprite_spec(input: InputState, prev_facing: Facing) -> Sprite {
    if input.right_held {
        Sprite::PlayerWalkingRight
    } else if input.left_held {
        Sprite::PlayerWalkingLeft
    } else if input.up_held {
        Sprite::PlayerWalkingUp
    } else if input.down_held {
        Sprite::PlayerWalkingDown
    } else {
        match prev_facing {
            Facing::Right => Sprite::PlayerIdleRight,
            Facing::Left => Sprite::PlayerIdleLeft,
            Facing::Up => Sprite::PlayerIdleUp,
            Facing::Down => Sprite::PlayerIdleDown,
            Facing::Neutral => Sprite::PlayerWalkingDown,
        }
    }
}

/// The sprite of a tile kind.
pub open spec fn tile_sprite_spec(kind: TileKind) -> Sprite {
    match kind {
        TileKind::Stone => Sprite::StoneTile,
        TileKind::Woodplank => Sprite::WoodplankTile,
        TileKind::Grass => Sprite::GrassTile,
    }
}

/// Draw commands for the tiles inside the viewport, in tile order.
pub open spec fn tile_draws(tiles: Seq<TileM>, camera: CameraM) -> Seq<DrawCmdM>
    decreases tiles.len(),
{
    if tiles.len() == 0 {
        Seq::empty()
    } else {
        let head = tiles[0];
        let rest = tile_draws(tiles.drop_first(), camera);
        if point_in_viewport(camera, head.x, head.y) {
            seq![DrawCmdM { sprite: tile_sprite_spec(head.kind), x: head.x, y: head.y }] + rest
        } else {
            rest
        }
    }
}

/// Draw commands for the enemies inside the viewport, in order.
pub open spec fn enemy_draws(enemies: Seq<EnemyM>, camera: CameraM) -> Seq<DrawCmdM>
    decreases enemies.len(),
{
    if enemies.len() == 0 {
        Seq::empty()
    } else {
        let head = enemies[0];
        let rest = enemy_draws(enemies.drop_first(), camera);
        if point_in_viewport(camera, head.x, head.y) {
            seq![DrawCmdM { sprite: Sprite::EnemyIdle, x: head.x, y: head.y }] + rest
        } else {
            rest
        }
    }
}

/// Draw commands for the live attack spheres, one each, in order.
pub open spec fn sphere_draws(spheres: Seq<SphereM>) -> Seq<DrawCmdM>
    decreases spheres.len(),
{
    if spheres.len() == 0 {
        Seq::empty()
    } else {
        seq![DrawCmdM { sprite: Sprite::AttackBall, x: spheres[0].x, y: spheres[0].y }]
            + sphere_draws(spheres.drop_first())
    }
}

/// The player's draw command: one submission while alive, none once dead.
pub open spec fn player_draws(p: PlayerM, input: InputState) -> Seq<DrawCmdM> {
    if p.alive {
        seq![
            DrawCmdM { sprite: player_sprite_spec(input, p.prev_facing), x: p.x, y: p.y },
        ]
    } else {
        Seq::empty()
    }
}

/// The full render submission for one frame, in draw order: culled tiles,
/// then every live sphere, then the player (skipped when dead), then the
/// culled enemies.
pub open spec fn draw_spec(w: WorldM, input: InputState) -> Seq<DrawCmdM> {
    tile_draws(w.tiles, w.camera) + sphere_draws(w.spheres) + player_draws(w.player, input)
        + enemy_draws(w.enemies, w.camera)
}

} // verus!
