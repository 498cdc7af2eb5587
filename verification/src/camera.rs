//! Camera decisions: edge scrolling, clamping to the playable map, and the
//! orthographic view bounds.  The engine-facing loop only performs what
//! these functions decide.

use crate::coords::{
    div_floor, map_to_world_iso_simple, map_x_of_world, map_y_of_world, world_to_map_iso_simple,
    world_x_of_map, world_y_of_map, COORD_LIMIT, COORD_ONE, MAX_MAP_DIM,
};
use vstd::prelude::*;

verus! {

/// One coordinate clamped to `[lo, hi]`; the lower bound wins when the
/// interval is empty.
pub open spec fn clamp_coord(v: int, lo: int, hi: int) -> int {
    if v < lo {
        lo
    } else if v > hi {
        hi
    } else {
        v
    }
}

/// Nearest in-bounds map-space point of a camera at `(map_x, map_y)`: each
/// axis independently clamped to `[-e, w]` and `[-e, h]`.  The `e`
/// inflation lets the camera see past the flat edge of elevated terrain.
pub open spec fn clamp_map_x(map_x: int, w: int, e: int) -> int {
    clamp_coord(map_x, -e, w)
}

/// See `clamp_map_x`; the y axis against `[-e, h]`.
pub open spec fn clamp_map_y(map_y: int, h: int, e: int) -> int {
    clamp_coord(map_y, -e, h)
}

/// Finds the world-space position of the nearest map-space point inside
/// `[-e, w] x [-e, h]`: total, defined for every input.  Each of the nine
/// region cases (four corners, four edges, inside) clamps to its nearest
/// boundary point; the result is converted back through the flat forward
/// transform.
pub fn closest_point_in_map_iso(map_x: i64, map_y: i64, w: i64, h: i64, e: i64) -> (r: (i64, i64))
    requires
        -COORD_LIMIT <= map_x <= COORD_LIMIT,
        -COORD_LIMIT <= map_y <= COORD_LIMIT,
        0 <= w <= COORD_LIMIT,
        0 <= h <= COORD_LIMIT,
        0 <= e <= COORD_LIMIT,
    ensures
        r.0 == world_x_of_map(
            clamp_map_x(map_x as int, w as int, e as int),
            clamp_map_y(map_y as int, h as int, e as int),
        ),
        r.1 == world_y_of_map(
            clamp_map_x(map_x as int, w as int, e as int),
            clamp_map_y(map_y as int, h as int, e as int),
        ),
{
    let origin = -e;
    let (x, y): (i64, i64) = if map_x < origin && map_y < origin {
        (origin, origin)
    } else if map_x < origin && map_y > h {
        (origin, h)
    } else if map_x > w && map_y < origin {
        (w, origin)
    } else if map_x > w && map_y > h {
        (w, h)
    } else if map_x < origin {
        (origin, map_y)
    } else if map_x > w {
        (w, map_y)
    } else if map_y < origin {
        (map_x, origin)
    } else if map_y > h {
        (map_x, h)
    } else {
        (map_x, map_y)
    };
    map_to_world_iso_simple(x, y)
}

/// Clamping never moves an already in-bounds point.
pub proof fn lemma_clamp_inside(map_x: int, map_y: int, w: int, h: int, e: int)
    requires
        -e <= map_x <= w,
        -e <= map_y <= h,
    ensures
        clamp_map_x(map_x, w, e) == map_x,
        clamp_map_y(map_y, h, e) == map_y,
{
}

/// Clamping is idempotent: a clamped point is in bounds, so clamping it
/// again returns it unchanged.
pub proof fn lemma_clamp_idempotent(map_x: int, map_y: int, w: int, h: int, e: int)
    requires
        -e <= w,
        -e <= h,
    ensures
        clamp_map_x(clamp_map_x(map_x, w, e), w, e) == clamp_map_x(map_x, w, e),
        clamp_map_y(clamp_map_y(map_y, h, e), h, e) == clamp_map_y(map_y, h, e),
{
}

/// Which way the camera should scroll this frame: a direction moves when
/// its key is held or the pointer sits within `margin` of that screen edge.
/// Returned as `(up, down, left, right)`.
pub fn camera_scroll_flags(
    mouse_x: i64,
    mouse_y: i64,
    screen_w: i64,
    screen_h: i64,
    margin: i64,
    up_held: bool,
    down_held: bool,
    left_held: bool,
    right_held: bool,
) -> (r: (bool, bool, bool, bool))
    requires
        -COORD_LIMIT <= mouse_x <= COORD_LIMIT,
        -COORD_LIMIT <= mouse_y <= COORD_LIMIT,
        0 <= screen_w <= COORD_LIMIT,
        0 <= screen_h <= COORD_LIMIT,
        0 <= margin <= COORD_LIMIT,
    ensures
        r.0 == (up_held || mouse_y - margin < 0),
        r.1 == (down_held || mouse_y + margin > screen_h),
        r.2 == (left_held || mouse_x - margin < 0),
        r.3 == (right_held || mouse_x + margin > screen_w),
{
    let up = up_held || mouse_y - margin < 0;
    let down = down_held || mouse_y + margin > screen_h;
    let left = left_held || mouse_x - margin < 0;
    let right = right_held || mouse_x + margin > screen_w;
    (up, down, left, right)
}

/// Snaps a camera back onto the playable map.  Takes the camera's render
/// translation (render y is world y negated), converts it to map space,
/// and, when it has left `[0, width] x [0, height]` map units, returns the
/// translation of the nearest in-bounds point; `None` when no move is
/// needed.
pub fn snap_camera_to_map(cam_x: i64, cam_y: i64, width: usize, height: usize) -> (r: Option<
    (i64, i64),
>)
    requires
        -COORD_LIMIT <= cam_x <= COORD_LIMIT,
        -COORD_LIMIT <= cam_y <= COORD_LIMIT,
        width <= MAX_MAP_DIM,
        height <= MAX_MAP_DIM,
    ensures
        ({
            let mx = map_x_of_world(cam_x as int, -cam_y as int);
            let my = map_y_of_world(cam_x as int, -cam_y as int);
            let wu = width as int * COORD_ONE as int;
            let hu = height as int * COORD_ONE as int;
            &&& (r is None <==> 0 <= mx <= wu && 0 <= my <= hu)
            &&& r matches Some(t) ==> {
                let cx = clamp_map_x(mx, wu, 0);
                let cy = clamp_map_y(my, hu, 0);
                &&& t.0 == world_x_of_map(cx, cy)
                &&& t.1 == -world_y_of_map(cx, cy)
            }
        }),
{
    let w = (width as i64) * COORD_ONE;
    let h = (height as i64) * COORD_ONE;
    let (map_x, map_y) = world_to_map_iso_simple(cam_x, -cam_y);
    if map_x < 0 || map_x > w || map_y < 0 || map_y > h {
        let (new_x, new_y) = closest_point_in_map_iso(map_x, map_y, w, h, 0);
        Some((new_x, -new_y))
    } else {
        None
    }
}

/// Orthographic view bounds `(left, right, bottom, top)` centred on the
/// camera for a window of the given size, so window resizes never scale
/// the scene.  Odd sub-unit sizes floor the half extents.
pub fn ortho_view_bounds(screen_w: i64, screen_h: i64) -> (r: (i64, i64, i64, i64))
    requires
        0 <= screen_w <= COORD_LIMIT,
        0 <= screen_h <= COORD_LIMIT,
    ensures
        r.0 == -(screen_w as int / 2),
        r.1 == screen_w as int / 2,
        r.2 == -(screen_h as int / 2),
        r.3 == screen_h as int / 2,
{
    let half_w = div_floor(screen_w, 2);
    let half_h = div_floor(screen_h, 2);
    (-half_w, half_w, -half_h, half_h)
}

} // verus!
