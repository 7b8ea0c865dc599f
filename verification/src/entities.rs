//! Entity records of the game world — tiles, the player, attack spheres,
//! enemies, the camera — together with the tuning constants, the per-tick
//! input record, and the mathematical models the contracts speak of.

use vstd::prelude::*;

verus! {

/// Logical direction the player sprite faces.  `Neutral` means no movement
/// key is held this tick.
#[derive(Clone, Copy, Debug, PartialEq, Eq, Structural)]
pub enum Facing {
    Neutral,
    Right,
    Left,
    Up,
    Down,
}

/// Enemy patrol oscillation flag.  `TowardEnd` is the spawn state and means
/// the enemy is walking in the negative-x direction, toward `range_end` (or
/// holding still on a boundary); `TowardStart` means it is walking back in
/// the positive-x direction, toward `range_start`.
#[derive(Clone, Copy, Debug, PartialEq, Eq, Structural)]
pub enum PatrolDir {
    TowardEnd,
    TowardStart,
}

/// Kind of a placed tile; decides its sprite and (for stone) collidability.
#[derive(Clone, Copy, Debug, PartialEq, Eq, Structural)]
pub enum TileKind {
    Stone,
    Woodplank,
    Grass,
}

/// Sprite sheet selector handed to the external renderer.
#[derive(Clone, Copy, Debug, PartialEq, Eq, Structural)]
pub enum Sprite {
    PlayerIdleRight,
    PlayerIdleLeft,
    PlayerIdleUp,
    PlayerIdleDown,
    PlayerWalkingRight,
    PlayerWalkingLeft,
    PlayerWalkingUp,
    PlayerWalkingDown,
    StoneTile,
    WoodplankTile,
    GrassTile,
    AttackBall,
    EnemyIdle,
}

/// Which logical actions the external input layer reports for this tick.
/// The four `*_held` flags are level-triggered; `attack_pressed` is
/// edge-triggered (true only on the tick the key went down).
#[derive(Clone, Copy, Debug, PartialEq, Eq, Structural)]
pub struct InputState {
    pub left_held: bool,
    pub right_held: bool,
    pub up_held: bool,
    pub down_held: bool,
    pub attack_pressed: bool,
}

/// Tuning constants of the simulation, exposed as data so that tests can run
/// the core under the reference values or any other in-bounds values.
#[derive(Clone, Copy, Debug)]
pub struct Config {
    pub window_width: i64,
    pub window_height: i64,
    pub player_speed: i64,
    pub player_size: i64,
    pub tile_size: i64,
    pub projectile_speed: i64,
    pub projectile_size: i64,
    pub projectile_cap: usize,
    pub enemy_speed: i64,
    pub enemy_size: i64,
    pub patrol_back: i64,
    pub patrol_ahead: i64,
    pub pushback: i64,
    pub viewport_width: i64,
    pub viewport_height: i64,
}

/// Mathematical model of [`Config`].
pub ghost struct ConfigM {
    pub window_width: int,
    pub window_height: int,
    pub player_speed: int,
    pub player_size: int,
    pub tile_size: int,
    pub projectile_speed: int,
    pub projectile_size: int,
    pub projectile_cap: int,
    pub enemy_speed: int,
    pub enemy_size: int,
    pub patrol_back: int,
    pub patrol_ahead: int,
    pub pushback: int,
    pub viewport_width: int,
    pub viewport_height: int,
}

impl View for Config {
    type V = ConfigM;

    open spec fn view(&self) -> ConfigM {
        ConfigM {
            window_width: self.window_width as int,
            window_height: self.window_height as int,
            player_speed: self.player_speed as int,
            player_size: self.player_size as int,
            tile_size: self.tile_size as int,
            projectile_speed: self.projectile_speed as int,
            projectile_size: self.projectile_size as int,
            projectile_cap: self.projectile_cap as int,
            enemy_speed: self.enemy_speed as int,
            enemy_size: self.enemy_size as int,
            patrol_back: self.patrol_back as int,
            patrol_ahead: self.patrol_ahead as int,
            pushback: self.pushback as int,
            viewport_width: self.viewport_width as int,
            viewport_height: self.viewport_height as int,
        }
    }
}

impl ConfigM {
    /// The machine bounds under which every tick's arithmetic is exact, plus
    /// the one structural demand: the two patrol offsets together span a
    /// non-empty interval, so a spawned enemy has `range_end < range_start`.
    pub open spec fn wf(self) -> bool {
        &&& 0 < self.window_width <= 1_000_000
        &&& 0 < self.window_height <= 1_000_000
        &&& 0 <= self.player_speed <= crate::STEP_LIMIT
        &&& 0 < self.player_size <= crate::STEP_LIMIT
        &&& 0 < self.tile_size <= crate::STEP_LIMIT
        &&& 0 <= self.projectile_speed <= crate::STEP_LIMIT
        &&& 0 < self.projectile_size <= crate::STEP_LIMIT
        &&& 0 <= self.projectile_cap <= crate::STEP_LIMIT
        &&& 0 <= self.enemy_speed <= crate::STEP_LIMIT
        &&& 0 < self.enemy_size <= crate::STEP_LIMIT
        &&& 0 < self.patrol_back <= crate::STEP_LIMIT
        &&& 0 <= self.patrol_ahead <= crate::STEP_LIMIT
        &&& 0 <= self.pushback <= crate::STEP_LIMIT
        &&& 0 < self.viewport_width <= 1_000_000
        &&& 0 < self.viewport_height <= 1_000_000
    }
}

impl Default for Config {
    /// The reference tuning: 1280 by 960 window, 48-unit player walking 6
    /// units per tick, 32-unit tiles, up to 6 attack spheres of 32 units
    /// travelling 10 per tick, 48-unit enemies walking 3 per tick between
    /// `spawn - 200` and `spawn + 5`, and a 7-unit collision pushback.
    fn default() -> (c: Config)
        ensures
            c@ == ConfigM::reference(),
            c@.wf(),
    {
        Config {
            window_width: 1280,
            window_height: 960,
            player_speed: 6,
            player_size: 48,
            tile_size: 32,
            projectile_speed: 10,
            projectile_size: 32,
            projectile_cap: 6,
            enemy_speed: 3,
            enemy_size: 48,
            patrol_back: 200,
            patrol_ahead: 5,
            pushback: 7,
            viewport_width: 1280,
            viewport_height: 960,
        }
    }
}

impl ConfigM {
    /// The reference tuning as a model value.
    pub open spec fn reference() -> ConfigM {
        ConfigM {
            window_width: 1280,
            window_height: 960,
            player_speed: 6,
            player_size: 48,
            tile_size: 32,
            projectile_speed: 10,
            projectile_size: 32,
            projectile_cap: 6,
            enemy_speed: 3,
            enemy_size: 48,
            patrol_back: 200,
            patrol_ahead: 5,
            pushback: 7,
            viewport_width: 1280,
            viewport_height: 960,
        }
    }
}

/// A placed tile: immutable after creation, one per occupied grid cell.
#[derive(Clone, Copy, Debug, PartialEq, Eq, Structural)]
pub struct Tile {
    pub kind: TileKind,
    pub x: i64,
    pub y: i64,
    pub collidable: bool,
}

/// Mathematical model of [`Tile`].
pub ghost struct TileM {
    pub kind: TileKind,
    pub x: int,
    pub y: int,
    pub collidable: bool,
}

impl View for Tile {
    type V = TileM;

    open spec fn view(&self) -> TileM {
        TileM { kind: self.kind, x: self.x as int, y: self.y as int, collidable: self.collidable }
    }
}

impl Tile {
    /// Builds a tile record from its sprite kind, position and collidability.
    pub fn new(kind: TileKind, x: i64, y: i64, collidable: bool) -> (t: Tile)
        ensures
            t@ == (TileM { kind, x: x as int, y: y as int, collidable }),
    {
        Tile { kind, x, y, collidable }
    }
}

impl TileM {
    pub open spec fn in_bounds(self) -> bool {
        &&& -crate::POS_LIMIT <= self.x <= crate::POS_LIMIT
        &&& -crate::POS_LIMIT <= self.y <= crate::POS_LIMIT
    }
}

/// The player sprite.  `colliding` is a per-tick transient set by the tile
/// collision pass and consumed by the movement step of the same tick;
/// `prev_facing` retains the last non-neutral facing for idle sprite choice
/// and for aiming an attack fired while idle; `alive` falls to false forever
/// on first enemy contact.
#[derive(Clone, Copy, Debug, PartialEq, Eq, Structural)]
pub struct Player {
    pub x: i64,
    pub y: i64,
    pub velocity_x: i64,
    pub colliding: bool,
    pub facing: Facing,
    pub prev_facing: Facing,
    pub alive: bool,
}

/// Mathematical model of [`Player`].
pub ghost struct PlayerM {
    pub x: int,
    pub y: int,
    pub velocity_x: int,
    pub colliding: bool,
    pub facing: Facing,
    pub prev_facing: Facing,
    pub alive: bool,
}

impl View for Player {
    type V = PlayerM;

    open spec fn view(&self) -> PlayerM {
        PlayerM {
            x: self.x as int,
            y: self.y as int,
            velocity_x: self.velocity_x as int,
            colliding: self.colliding,
            facing: self.facing,
            prev_facing: self.prev_facing,
            alive: self.alive,
        }
    }
}

impl Player {
    /// Builds a player record from its field values.
    pub fn new(
        x: i64,
        y: i64,
        velocity_x: i64,
        colliding: bool,
        facing: Facing,
        prev_facing: Facing,
        alive: bool,
    ) -> (p: Player)
        ensures
            p@ == (PlayerM {
                x: x as int,
                y: y as int,
                velocity_x: velocity_x as int,
                colliding,
                facing,
                prev_facing,
                alive,
            }),
    {
        Player { x, y, velocity_x, colliding, facing, prev_facing, alive }
    }

    /// The player's bounding box: its position extended by the configured
    /// sprite size on both axes.
    pub fn bounds(&self, config: &Config) -> (r: Rectangle)
        ensures
            r == (Rectangle {
                x: self.x,
                y: self.y,
                width: config.player_size,
                height: config.player_size,
            }),
    {
        Rectangle { x: self.x, y: self.y, width: config.player_size, height: config.player_size }
    }
}

impl PlayerM {
    pub open spec fn in_bounds(self) -> bool {
        &&& -crate::POS_LIMIT <= self.x <= crate::POS_LIMIT
        &&& -crate::POS_LIMIT <= self.y <= crate::POS_LIMIT
    }
}

/// An axis-aligned box given by its top-left corner and dimensions.
#[derive(Clone, Copy, Debug, PartialEq, Eq, Structural)]
pub struct Rectangle {
    pub x: i64,
    pub y: i64,
    pub width: i64,
    pub height: i64,
}

/// A live attack sphere.  `velocity` is a signed scalar applied along the
/// axis implied by `facing`; `visible == false` marks the sphere for removal
/// by the next tick's cleanup step (one-tick deferred deletion).
#[derive(Clone, Copy, Debug, PartialEq, Eq, Structural)]
pub struct PlayerAttackSphere {
    pub x: i64,
    pub y: i64,
    pub velocity: i64,
    pub facing: Facing,
    pub visible: bool,
}

/// Mathematical model of [`PlayerAttackSphere`].
pub ghost struct SphereM {
    pub x: int,
    pub y: int,
    pub velocity: int,
    pub facing: Facing,
    pub visible: bool,
}

impl View for PlayerAttackSphere {
    type V = SphereM;

    open spec fn view(&self) -> SphereM {
        SphereM {
            x: self.x as int,
            y: self.y as int,
            velocity: self.velocity as int,
            facing: self.facing,
            visible: self.visible,
        }
    }
}

impl PlayerAttackSphere {
    /// Builds an attack sphere record from its field values.
    pub fn new(x: i64, y: i64, velocity: i64, facing: Facing, visible: bool) -> (s:
        PlayerAttackSphere)
        ensures
            s@ == (SphereM {
                x: x as int,
                y: y as int,
                velocity: velocity as int,
                facing,
                visible,
            }),
    {
        PlayerAttackSphere { x, y, velocity, facing, visible }
    }
}

impl SphereM {
    pub open spec fn in_bounds(self) -> bool {
        &&& -crate::POS_LIMIT <= self.x <= crate::POS_LIMIT
        &&& -crate::POS_LIMIT <= self.y <= crate::POS_LIMIT
        &&& -crate::STEP_LIMIT <= self.velocity <= crate::STEP_LIMIT
    }
}

/// A patrolling enemy.  `range_end` and `range_start` bound its horizontal
/// excursion and are fixed at spawn; `dir` is the oscillation flag of the
/// patrol state machine.
#[derive(Clone, Copy, Debug, PartialEq, Eq, Structural)]
pub struct Enemy {
    pub x: i64,
    pub y: i64,
    pub velocity: i64,
    pub range_end: i64,
    pub range_start: i64,
    pub dir: PatrolDir,
}

/// Mathematical model of [`Enemy`].
pub ghost struct EnemyM {
    pub x: int,
    pub y: int,
    pub velocity: int,
    pub range_end: int,
    pub range_start: int,
    pub dir: PatrolDir,
}

impl View for Enemy {
    type V = EnemyM;

    open spec fn view(&self) -> EnemyM {
        EnemyM {
            x: self.x as int,
            y: self.y as int,
            velocity: self.velocity as int,
            range_end: self.range_end as int,
            range_start: self.range_start as int,
            dir: self.dir,
        }
    }
}

impl Enemy {
    /// Builds an enemy record from its field values.
    pub fn new(x: i64, y: i64, velocity: i64, range_end: i64, range_start: i64, dir: PatrolDir) -> (e:
        Enemy)
        ensures
            e@ == (EnemyM {
                x: x as int,
                y: y as int,
                velocity: velocity as int,
                range_end: range_end as int,
                range_start: range_start as int,
                dir,
            }),
    {
        Enemy { x, y, velocity, range_end, range_start, dir }
    }

    /// Spawns an enemy at `(x, y)` with the configured speed and patrol
    /// interval: `range_end` lies `patrol_back` units behind the spawn point
    /// and `range_start` lies `patrol_ahead` units ahead of it, so
    /// `range_end < range_start` and the spawn position is inside the patrol
    /// excursion bound.
    pub fn spawn(x: i64, y: i64, config: &Config) -> (e: Enemy)
        requires
            config@.wf(),
            -crate::SPAWN_LIMIT <= x <= crate::SPAWN_LIMIT,
            -crate::SPAWN_LIMIT <= y <= crate::SPAWN_LIMIT,
        ensures
            e@ == (EnemyM {
                x: x as int,
                y: y as int,
                velocity: config@.enemy_speed,
                range_end: x - config@.patrol_back,
                range_start: x + config@.patrol_ahead,
                dir: PatrolDir::TowardEnd,
            }),
            e@.wf(),
            e@.range_end < e@.range_start,
            e@.in_patrol_range(),
    {
        Enemy {
            x,
            y,
            velocity: config.enemy_speed,
            range_end: x - config.patrol_back,
            range_start: x + config.patrol_ahead,
            dir: PatrolDir::TowardEnd,
        }
    }
}

impl EnemyM {
    pub open spec fn in_bounds(self) -> bool {
        &&& -crate::POS_LIMIT <= self.x <= crate::POS_LIMIT
        &&& -crate::POS_LIMIT <= self.y <= crate::POS_LIMIT
        &&& -crate::POS_LIMIT <= self.range_end <= crate::POS_LIMIT
        &&& -crate::POS_LIMIT <= self.range_start <= crate::POS_LIMIT
        &&& 0 <= self.velocity <= crate::STEP_LIMIT
    }

    /// Structural well-formedness an enemy has from spawn on: machine bounds
    /// plus an ordered patrol interval.
    pub open spec fn wf(self) -> bool {
        &&& self.in_bounds()
        &&& self.range_end <= self.range_start
    }

    /// The patrol excursion bound: the enemy's x never strays more than one
    /// velocity step outside its patrol interval.
    pub open spec fn in_patrol_range(self) -> bool {
        self.range_end - self.velocity <= self.x <= self.range_start + self.velocity
    }
}

/// The camera.  While the player is alive its position tracks the player's
/// center each tick; on death it freezes.  The viewport dimensions drive the
/// visibility cull.
#[derive(Clone, Copy, Debug, PartialEq, Eq, Structural)]
pub struct Camera {
    pub x: i64,
    pub y: i64,
    pub viewport_width: i64,
    pub viewport_height: i64,
}

/// Mathematical model of [`Camera`].
pub ghost struct CameraM {
    pub x: int,
    pub y: int,
    pub viewport_width: int,
    pub viewport_height: int,
}

impl View for Camera {
    type V = CameraM;

    open spec fn view(&self) -> CameraM {
        CameraM {
            x: self.x as int,
            y: self.y as int,
            viewport_width: self.viewport_width as int,
            viewport_height: self.viewport_height as int,
        }
    }
}

impl CameraM {
    pub open spec fn in_bounds(self) -> bool {
        &&& -crate::POS_LIMIT - crate::STEP_LIMIT <= self.x <= crate::POS_LIMIT + crate::STEP_LIMIT
        &&& -crate::POS_LIMIT - crate::STEP_LIMIT <= self.y <= crate::POS_LIMIT + crate::STEP_LIMIT
        &&& 0 < self.viewport_width <= 1_000_000
        &&& 0 < self.viewport_height <= 1_000_000
    }
}

/// One render submission: a sprite reference and the position to draw it at.
#[derive(Clone, Copy, Debug, PartialEq, Eq, Structural)]
pub struct DrawCmd {
    pub sprite: Sprite,
    pub x: i64,
    pub y: i64,
}

/// Mathematical model of [`DrawCmd`].
pub ghost struct DrawCmdM {
    pub sprite: Sprite,
    pub x: int,
    pub y: int,
}

impl View for DrawCmd {
    type V = DrawCmdM;

    open spec fn view(&self) -> DrawCmdM {
        DrawCmdM { sprite: self.sprite, x: self.x as int, y: self.y as int }
    }
}

/// The element-wise view of a sequence of records.
pub open spec fn views_of<T: View>(s: Seq<T>) -> Seq<T::V> {
    s.map_values(|x: T| x@)
}

} // verus!
