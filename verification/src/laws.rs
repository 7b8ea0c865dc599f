//! The stated laws of the simulation, proved over the tick model.

use vstd::prelude::*;

use crate::entities::{ConfigM, EnemyM, Facing, InputState, PlayerM, SphereM, TileM};
use crate::model::{camera_track, cleanup_pass, lemma_cleanup_at, lemma_cleanup_len};
use crate::model::{lemma_cleanup_none, lemma_remove_first_sphere_hit_none, lemma_strike_pass_len};
use crate::model::{lemma_tile_pass_len, patrol_step, player_hits_tile};
use crate::model::{remove_first_sphere_hit, sphere_hits_tile, strike_pass, tick_spec};
use crate::model::{tile_pass, travel_pass, WorldM};

verus! {

// ---------------------------------------------------------------------------
// Enemy patrol bounds
// ---------------------------------------------------------------------------
/// The iterated patrol state machine: the enemy after `n` ticks of
/// unobstructed patrolling.
pub open spec fn patrol_iter(e: EnemyM, n: nat) -> EnemyM
    decreases n,
{
    if n == 0 {
        e
    } else {
        patrol_step(patrol_iter(e, (n - 1) as nat))
    }
}

/// One patrol step keeps the enemy inside the excursion bound
/// `[range_end - velocity, range_start + velocity]` and never touches its
/// patrol interval, speed, or vertical position.
pub proof fn lemma_patrol_step_in_range(e: EnemyM)
    requires
        0 <= e.velocity,
        e.range_end <= e.range_start,
        e.in_patrol_range(),
    ensures
        patrol_step(e).in_patrol_range(),
        patrol_step(e).range_end == e.range_end,
        patrol_step(e).range_start == e.range_start,
        patrol_step(e).velocity == e.velocity,
        patrol_step(e).y == e.y,
{
}

/// For every number of ticks, an unobstructed patrolling enemy stays inside
/// the excursion bound `[range_end - velocity, range_start + velocity]`: the
/// patrol may overshoot its interval by at most one velocity step before
/// reversing.
pub proof fn lemma_patrol_bounded_forever(e: EnemyM, n: nat)
    requires
        0 <= e.velocity,
        e.range_end <= e.range_start,
        e.in_patrol_range(),
    ensures
        patrol_iter(e, n).in_patrol_range(),
        patrol_iter(e, n).range_end == e.range_end,
        patrol_iter(e, n).range_start == e.range_start,
        patrol_iter(e, n).velocity == e.velocity,
    decreases n,
{
    if n > 0 {
        lemma_patrol_bounded_forever(e, (n - 1) as nat);
        lemma_patrol_step_in_range(patrol_iter(e, (n - 1) as nat));
    }
}

// ---------------------------------------------------------------------------
// Projectile cap
// ---------------------------------------------------------------------------
/// A world that starts a tick at or under the projectile cap ends it at or
/// under the cap: the passes only remove spheres, and the spawn pass refuses
/// to fire at the cap.
pub proof fn lemma_projectile_cap(w: WorldM, input: InputState)
    requires
        w.spheres.len() <= w.config.projectile_cap,
    ensures
        tick_spec(w, input).spheres.len() <= w.config.projectile_cap,
{
    let camera = camera_track(w.player, w.camera, w.config);
    let after_tiles = tile_pass(w.player, w.spheres, w.tiles, w.config);
    let cleaned = cleanup_pass(after_tiles.1);
    let after_strike = strike_pass(cleaned, w.enemies, camera, w.config);
    lemma_tile_pass_len(w.player, w.spheres, w.tiles, w.config);
    lemma_cleanup_len(after_tiles.1);
    lemma_strike_pass_len(cleaned, w.enemies, camera, w.config);
    assert(travel_pass(after_strike.0).len() == after_strike.0.len());
}

// ---------------------------------------------------------------------------
// Deferred sphere deletion
// ---------------------------------------------------------------------------
/// No sphere overlaps any collidable tile, so the tile pass cannot remove
/// one.
pub open spec fn no_sphere_tile_hits(
    spheres: Seq<SphereM>,
    tiles: Seq<TileM>,
    c: ConfigM,
) -> bool {
    forall|ti: int, k: int|
        0 <= ti < tiles.len() && 0 <= k < spheres.len() ==> !sphere_hits_tile(
            spheres[k],
            tiles[ti],
            c,
        )
}

/// When no sphere overlaps a collidable tile, the tile pass hands the sphere
/// list through unchanged.
pub proof fn lemma_tile_pass_spheres_unchanged(
    p: PlayerM,
    spheres: Seq<SphereM>,
    tiles: Seq<TileM>,
    c: ConfigM,
)
    requires
        no_sphere_tile_hits(spheres, tiles, c),
    ensures
        tile_pass(p, spheres, tiles, c).1 == spheres,
    decreases tiles.len(),
{
    if tiles.len() > 0 && !player_hits_tile(p, tiles[0], c) {
        let cleared = PlayerM { colliding: false, ..p };
        assert forall|k: int| 0 <= k < spheres.len() implies !sphere_hits_tile(
            spheres[k],
            tiles[0],
            c,
        ) by {}
        lemma_remove_first_sphere_hit_none(spheres, tiles[0], c);
        assert(no_sphere_tile_hits(spheres, tiles.drop_first(), c)) by {
            assert forall|ti: int, k: int|
                0 <= ti < tiles.drop_first().len() && 0 <= k < spheres.len() implies !sphere_hits_tile(
                spheres[k],
                tiles.drop_first()[ti],
                c,
            ) by {
                assert(tiles.drop_first()[ti] == tiles[ti + 1]);
            }
        }
        lemma_tile_pass_spheres_unchanged(cleared, spheres, tiles.drop_first(), c);
    }
}

/// A sphere marked invisible is never removed in the tick that marks it:
/// when every sphere is still visible at the start of a tick (and none sits
/// on a collidable tile), the tick removes no sphere, even though the strike
/// pass may mark some invisible.
pub proof fn lemma_marked_sphere_survives_marking_tick(w: WorldM, input: InputState)
    requires
        forall|k: int| 0 <= k < w.spheres.len() ==> w.spheres[k].visible,
        no_sphere_tile_hits(w.spheres, w.tiles, w.config),
    ensures
        tick_spec(w, input).spheres.len() >= w.spheres.len(),
{
    let camera = camera_track(w.player, w.camera, w.config);
    lemma_tile_pass_spheres_unchanged(w.player, w.spheres, w.tiles, w.config);
    lemma_cleanup_none(w.spheres);
    lemma_strike_pass_len(w.spheres, w.enemies, camera, w.config);
}

/// A sphere marked invisible is removed exactly one tick later: when the
/// sphere at `idx` is the only invisible one (and no sphere sits on a
/// collidable tile), the next tick's cleanup removes precisely that sphere,
/// and the rest of the tick removes no other.
pub proof fn lemma_invisible_sphere_removed_next_tick(w: WorldM, input: InputState, idx: int)
    requires
        0 <= idx < w.spheres.len(),
        !w.spheres[idx].visible,
        forall|k: int| 0 <= k < w.spheres.len() && k != idx ==> (#[trigger] w.spheres[k]).visible,
        no_sphere_tile_hits(w.spheres, w.tiles, w.config),
    ensures
        cleanup_pass(tile_pass(w.player, w.spheres, w.tiles, w.config).1) == w.spheres.remove(idx),
        tick_spec(w, input).spheres.len() >= w.spheres.len() - 1,
{
    let camera = camera_track(w.player, w.camera, w.config);
    lemma_tile_pass_spheres_unchanged(w.player, w.spheres, w.tiles, w.config);
    lemma_cleanup_at(w.spheres, idx);
    lemma_strike_pass_len(w.spheres.remove(idx), w.enemies, camera, w.config);
}

// ---------------------------------------------------------------------------
// Player lifecycle and facing
// ---------------------------------------------------------------------------
/// The tile pass only moves the player and toggles its collision flag; the
/// facing state, retained facing, and lifecycle flag pass through.
pub proof fn lemma_tile_pass_player_flags(
    p: PlayerM,
    spheres: Seq<SphereM>,
    tiles: Seq<TileM>,
    c: ConfigM,
)
    ensures
        tile_pass(p, spheres, tiles, c).0.alive == p.alive,
        tile_pass(p, spheres, tiles, c).0.facing == p.facing,
        tile_pass(p, spheres, tiles, c).0.prev_facing == p.prev_facing,
    decreases tiles.len(),
{
    if tiles.len() > 0 && !player_hits_tile(p, tiles[0], c) {
        let cleared = PlayerM { colliding: false, ..p };
        lemma_tile_pass_player_flags(
            cleared,
            remove_first_sphere_hit(spheres, tiles[0], c),
            tiles.drop_first(),
            c,
        );
    }
}

/// Death is permanent: a tick never revives a dead player, so `alive` falls
/// from true to false at most once over any run.
pub proof fn lemma_death_is_permanent(w: WorldM, input: InputState)
    requires
        !w.player.alive,
    ensures
        !tick_spec(w, input).player.alive,
{
    lemma_tile_pass_player_flags(w.player, w.spheres, w.tiles, w.config);
}

/// Whenever no movement key is held this tick, the player's facing is
/// neutral after the tick.
pub proof fn lemma_facing_neutral_when_idle(w: WorldM, input: InputState)
    requires
        !input.left_held,
        !input.right_held,
        !input.up_held,
        !input.down_held,
    ensures
        tick_spec(w, input).player.facing == Facing::Neutral,
{
}

/// The retained facing never becomes neutral: once the player has faced a
/// direction, `prev_facing` keeps one forever.
pub proof fn lemma_prev_facing_never_neutral(w: WorldM, input: InputState)
    requires
        w.player.prev_facing != Facing::Neutral,
    ensures
        tick_spec(w, input).player.prev_facing != Facing::Neutral,
{
    lemma_tile_pass_player_flags(w.player, w.spheres, w.tiles, w.config);
}

} // verus!
