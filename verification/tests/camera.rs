use isotile::camera::{
    camera_scroll_flags, closest_point_in_map_iso, ortho_view_bounds, snap_camera_to_map,
};
use isotile::coords::{map_to_world_iso_simple, COORD_ONE};

/// Forward-transforms a map point, for expected values.
fn world(x: i64, y: i64) -> (i64, i64) {
    map_to_world_iso_simple(x, y)
}

#[test]
fn clamp_inside_returns_point_unchanged() {
    let w = 10 * COORD_ONE;
    let h = 8 * COORD_ONE;
    for &(x, y) in &[(0, 0), (w, h), (3 * COORD_ONE, 7 * COORD_ONE), (w, 0), (0, h)] {
        assert_eq!(closest_point_in_map_iso(x, y, w, h, 0), world(x, y));
    }
}

#[test]
fn clamp_eight_outside_regions() {
    let w = 10 * COORD_ONE;
    let h = 8 * COORD_ONE;
    let lo = -COORD_ONE;
    let e = COORD_ONE;
    // Four corners.
    assert_eq!(closest_point_in_map_iso(lo - 5, lo - 5, w, h, e), world(lo, lo));
    assert_eq!(closest_point_in_map_iso(lo - 5, h + 5, w, h, e), world(lo, h));
    assert_eq!(closest_point_in_map_iso(w + 5, lo - 5, w, h, e), world(w, lo));
    assert_eq!(closest_point_in_map_iso(w + 5, h + 5, w, h, e), world(w, h));
    // Four edges: the in-bounds axis passes through untouched.
    assert_eq!(closest_point_in_map_iso(lo - 5, 2 * COORD_ONE, w, h, e), world(lo, 2 * COORD_ONE));
    assert_eq!(closest_point_in_map_iso(w + 5, 2 * COORD_ONE, w, h, e), world(w, 2 * COORD_ONE));
    assert_eq!(closest_point_in_map_iso(COORD_ONE, lo - 5, w, h, e), world(COORD_ONE, lo));
    assert_eq!(closest_point_in_map_iso(COORD_ONE, h + 5, w, h, e), world(COORD_ONE, h));
}

#[test]
fn clamp_is_idempotent_on_map_space() {
    // Clamping the map-space clamp of any point changes nothing: spot-check
    // by clamping with the whole map collapsed to a point.
    let w = 6 * COORD_ONE;
    let h = 6 * COORD_ONE;
    // (w, h) corner clamp, re-clamped, stays the corner.
    assert_eq!(closest_point_in_map_iso(99 * COORD_ONE, 99 * COORD_ONE, w, h, 0), world(w, h));
    assert_eq!(closest_point_in_map_iso(w, h, w, h, 0), world(w, h));
}

#[test]
fn scroll_flags_follow_keys_and_edges() {
    let sw = 800 * COORD_ONE;
    let sh = 600 * COORD_ONE;
    let m = 50 * COORD_ONE;
    // Mouse in the middle, no keys: nothing moves.
    assert_eq!(
        camera_scroll_flags(400 * COORD_ONE, 300 * COORD_ONE, sw, sh, m, false, false, false, false),
        (false, false, false, false)
    );
    // Keys force movement regardless of the pointer.
    assert_eq!(
        camera_scroll_flags(400 * COORD_ONE, 300 * COORD_ONE, sw, sh, m, true, false, false, true),
        (true, false, false, true)
    );
    // Pointer within the margin of each edge.
    assert_eq!(
        camera_scroll_flags(10 * COORD_ONE, 300 * COORD_ONE, sw, sh, m, false, false, false, false),
        (false, false, true, false)
    );
    assert_eq!(
        camera_scroll_flags(790 * COORD_ONE, 10 * COORD_ONE, sw, sh, m, false, false, false, false),
        (true, false, false, true)
    );
    assert_eq!(
        camera_scroll_flags(400 * COORD_ONE, 590 * COORD_ONE, sw, sh, m, false, false, false, false),
        (false, true, false, false)
    );
}

#[test]
fn snap_leaves_in_bounds_camera_alone() {
    // Camera over the middle of a 10x10 map.
    let (wx, wy) = world(5 * COORD_ONE, 5 * COORD_ONE);
    assert_eq!(snap_camera_to_map(wx, -wy, 10, 10), None);
}

#[test]
fn snap_pulls_camera_back_to_the_map() {
    // Camera far past the south-east corner comes back to (w, h).
    let (wx, wy) = world(40 * COORD_ONE, 40 * COORD_ONE);
    let (cx, cy) = world(10 * COORD_ONE, 10 * COORD_ONE);
    assert_eq!(snap_camera_to_map(wx, -wy, 10, 10), Some((cx, -cy)));
    // Camera past the north-west corner comes back to the origin.
    let (wx, wy) = world(-3 * COORD_ONE, -2 * COORD_ONE);
    assert_eq!(snap_camera_to_map(wx, -wy, 10, 10), Some((0, 0)));
}

#[test]
fn ortho_bounds_are_centred_halves() {
    assert_eq!(ortho_view_bounds(800 * COORD_ONE, 600 * COORD_ONE),
        (-400 * COORD_ONE, 400 * COORD_ONE, -300 * COORD_ONE, 300 * COORD_ONE));
    assert_eq!(ortho_view_bounds(0, 0), (0, 0, 0, 0));
}
