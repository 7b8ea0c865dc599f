//! Axis-aligned bounding-box geometry: the strict overlap test every
//! collision pass in the game is built on, and the camera viewport cull.

use vstd::prelude::*;

use crate::entities::{Camera, CameraM, Tile};

verus! {

/// Strict AABB overlap: two boxes, each given by its top-left corner and its
/// width and height, intersect on both axes with strict inequalities.  Boxes
/// that merely share an edge do not overlap.
pub open spec fn overlaps(
    one_x: int,
    one_y: int,
    two_x: int,
    two_y: int,
    one_w: int,
    one_h: int,
    two_w: int,
    two_h: int,
) -> bool {
    &&& one_x < two_x + two_w
    &&& one_x + one_w > two_x
    &&& one_y < two_y + two_h
    &&& one_y + one_h > two_y
}

/// Executable strict AABB overlap test between a box at `(one_x, one_y)` of
/// size `one_w` by `one_h` and a box at `(two_x, two_y)` of size `two_w` by
/// `two_h`.
pub fn collision(
    one_x: i64,
    one_y: i64,
    two_x: i64,
    two_y: i64,
    one_w: i64,
    one_h: i64,
    two_w: i64,
    two_h: i64,
) -> (r: bool)
    requires
        -crate::GEOM_LIMIT <= one_x <= crate::GEOM_LIMIT,
        -crate::GEOM_LIMIT <= one_y <= crate::GEOM_LIMIT,
        -crate::GEOM_LIMIT <= two_x <= crate::GEOM_LIMIT,
        -crate::GEOM_LIMIT <= two_y <= crate::GEOM_LIMIT,
        0 <= one_w <= crate::GEOM_LIMIT,
        0 <= one_h <= crate::GEOM_LIMIT,
        0 <= two_w <= crate::GEOM_LIMIT,
        0 <= two_h <= crate::GEOM_LIMIT,
    ensures
        r == overlaps(
            one_x as int,
            one_y as int,
            two_x as int,
            two_y as int,
            one_w as int,
            one_h as int,
            two_w as int,
            two_h as int,
        ),
{
    one_x < two_x + two_w && one_x + one_w > two_x && one_y < two_y + two_h && one_y + one_h
        > two_y
}

/// The point-based viewport cull: a position is visible when it lies
/// strictly inside the camera-centered box of one viewport on both axes.
pub open spec fn point_in_viewport(camera: CameraM, x: int, y: int) -> bool {
    &&& x < camera.x + camera.viewport_width / 2
    &&& x > camera.x - camera.viewport_width / 2
    &&& y < camera.y + camera.viewport_height / 2
    &&& y > camera.y - camera.viewport_height / 2
}

/// Executable viewport cull for an arbitrary position.
pub fn point_in_camera_view(camera: &Camera, x: i64, y: i64) -> (r: bool)
    requires
        camera@.in_bounds(),
        -crate::GEOM_LIMIT <= x <= crate::GEOM_LIMIT,
        -crate::GEOM_LIMIT <= y <= crate::GEOM_LIMIT,
    ensures
        r == point_in_viewport(camera@, x as int, y as int),
{
    x < camera.x + camera.viewport_width / 2 && x > camera.x - camera.viewport_width / 2 && y
        < camera.y + camera.viewport_height / 2 && y > camera.y - camera.viewport_height / 2
}

/// Whether a tile's position falls inside the camera viewport; used to scope
/// render submission.
pub fn in_camera_viewport(camera: &Camera, tile: &Tile) -> (r: bool)
    requires
        camera@.in_bounds(),
        tile@.in_bounds(),
    ensures
        r == point_in_viewport(camera@, tile@.x, tile@.y),
{
    point_in_camera_view(camera, tile.x, tile.y)
}

/// Swapping the two boxes (each keeping its own dimensions) does not change
/// whether they overlap.
pub proof fn lemma_overlaps_symmetric(
    one_x: int,
    one_y: int,
    two_x: int,
    two_y: int,
    one_w: int,
    one_h: int,
    two_w: int,
    two_h: int,
)
    ensures
        overlaps(one_x, one_y, two_x, two_y, one_w, one_h, two_w, two_h) == overlaps(
            two_x,
            two_y,
            one_x,
            one_y,
            two_w,
            two_h,
            one_w,
            one_h,
        ),
{
}

/// The overlap test is strict: boxes that only share an edge on some axis do
/// not count as overlapping.
pub proof fn lemma_overlaps_strict(
    one_x: int,
    one_y: int,
    two_x: int,
    two_y: int,
    one_w: int,
    one_h: int,
    two_w: int,
    two_h: int,
)
    requires
        one_x + one_w == two_x || two_x + two_w == one_x || one_y + one_h == two_y || two_y + two_h
            == one_y,
    ensures
        !overlaps(one_x, one_y, two_x, two_y, one_w, one_h, two_w, two_h),
{
}

} // verus!
