//! Tests of the strict AABB overlap test.

use hypoterra::geom::collision;

#[test]
fn overlapping_boxes_collide() {
    // A 48x48 box at the origin against a 32x32 box shifted 40 right: they
    // share an 8-unit strip.
    assert!(collision(0, 0, 40, 0, 48, 48, 32, 32));
}

#[test]
fn separated_boxes_do_not_collide() {
    assert!(!collision(0, 0, 100, 100, 48, 48, 32, 32));
}

#[test]
fn touching_right_edge_is_not_collision() {
    // A's right edge (x = 48) equals B's left edge: strict test says no.
    assert!(!collision(0, 0, 48, 0, 48, 48, 32, 32));
}

#[test]
fn touching_left_edge_is_not_collision() {
    // B's right edge (x = 32) equals A's left edge.
    assert!(!collision(32, 0, 0, 0, 48, 48, 32, 32));
}

#[test]
fn touching_bottom_edge_is_not_collision() {
    assert!(!collision(0, 0, 0, 48, 48, 48, 32, 32));
}

#[test]
fn touching_top_edge_is_not_collision() {
    assert!(!collision(0, 32, 0, 0, 48, 48, 32, 32));
}

#[test]
fn one_unit_past_edge_collides() {
    // One unit of genuine overlap on x, full overlap on y.
    assert!(collision(0, 0, 47, 0, 48, 48, 32, 32));
}

#[test]
fn collision_symmetric_under_swap() {
    // Swapping the boxes (keeping each box's own dimensions) never changes
    // the outcome.
    let cases: Vec<(i64, i64, i64, i64, i64, i64, i64, i64)> = vec![
        (0, 0, 40, 0, 48, 48, 32, 32),
        (0, 0, 48, 0, 48, 48, 32, 32),
        (10, 20, -5, 15, 48, 48, 32, 32),
        (100, 100, 96, 100, 48, 48, 32, 32),
        (-50, -50, -40, -60, 32, 32, 48, 48),
    ];
    for (ax, ay, bx, by, aw, ah, bw, bh) in cases {
        assert_eq!(
            collision(ax, ay, bx, by, aw, ah, bw, bh),
            collision(bx, by, ax, ay, bw, bh, aw, ah),
        );
    }
}

#[test]
fn containment_collides() {
    // A small box wholly inside a large one.
    assert!(collision(10, 10, 0, 0, 8, 8, 48, 48));
}
