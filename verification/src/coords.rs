//! Fixed-point isometric coordinate transforms.
//!
//! Map space counts grid cells (x east, y south on the diamond grid); world
//! space is the render plane.  Both are measured in the same fixed-point
//! scale: one unit is `COORD_ONE` sub-units.  The diamond projection uses
//! tile-size constants given in whole units, so the transform formulas read
//! exactly like their real-valued counterparts and are exact: no rounding
//! happens anywhere except in the inverse transform, which floors to the
//! sub-unit grid.

use vstd::arithmetic::div_mod::{
    lemma_fundamental_div_mod, lemma_fundamental_div_mod_converse,
    lemma_div_multiples_vanish, lemma_div_multiples_vanish_fancy, lemma_mod_bound,
};
use vstd::prelude::*;

verus! {

/// Sub-units per map/world unit: the fixed-point scale of every coordinate.
pub const COORD_ONE: i64 = 64;

/// Full tile width in world units.
pub const TILE_SIZE: i64 = 64;

/// Half a tile width in world units.
pub const HALF_TILE: i64 = 32;

/// A quarter tile width in world units.
pub const QUARTER_TILE: i64 = 16;

/// World-unit rise per elevation level (one half tile).
pub const ELEVATION_STEP: i64 = 32;

/// Magnitude bound on the coordinates the executable transforms accept,
/// chosen so that every intermediate product stays far inside `i64`.
pub const COORD_LIMIT: i64 = 0x40_0000_0000;

/// Largest grid extent, in cells, the library handles: keeps every index
/// computation inside `usize` on any platform and every world coordinate
/// inside `COORD_LIMIT`.
pub const MAX_MAP_DIM: usize = 16384;

/// World x of a map-space point under the flat diamond projection.
pub open spec fn world_x_of_map(map_x: int, map_y: int) -> int {
    (map_x - map_y) * (HALF_TILE as int)
}

/// World y of a map-space point under the flat diamond projection.
pub open spec fn world_y_of_map(map_x: int, map_y: int) -> int {
    (map_x + map_y) * (QUARTER_TILE as int)
}

/// World y of a map-space point once the tile's elevation level and
/// sub-tile height nudge are applied.  `elevation` and `height` are in the
/// same fixed-point scale as the coordinates.
pub open spec fn world_y_of_map_elevated(map_x: int, map_y: int, elevation: int, height: int) -> int {
    (map_x + map_y) * (QUARTER_TILE as int) - elevation * (ELEVATION_STEP as int) + height
}

/// Map x of a world-space point under the flat inverse transform, floored
/// to the sub-unit grid.  The real-valued inverse
/// `(wx / HALF_TILE + wy / QUARTER_TILE) / 2` collapses, at fixed-point
/// scale, to a single division by `2 * HALF_TILE`.
pub open spec fn map_x_of_world(world_x: int, world_y: int) -> int {
    (world_x + 2 * world_y) / (2 * HALF_TILE as int)
}

/// Map y of a world-space point under the flat inverse transform, floored
/// to the sub-unit grid.
pub open spec fn map_y_of_world(world_x: int, world_y: int) -> int {
    (2 * world_y - world_x) / (2 * HALF_TILE as int)
}

/// Flooring division, exact on all of the signed range the transforms use.
pub fn div_floor(a: i64, d: i64) -> (r: i64)
    requires
        0 < d <= 0x1_0000_0000,
        -0x4000_0000_0000_0000 <= a <= 0x4000_0000_0000_0000,
    ensures
        r == a as int / d as int,
{
    if a >= 0 {
        let q = (a as u64) / (d as u64);
        q as i64
    } else {
        let n = (-a) as u64;
        let q = (n + (d as u64) - 1) / (d as u64);
        proof {
            lemma_neg_div_floor(-a as int, d as int);
        }
        -(q as i64)
    }
}

/// Euclidean division of a negative number: `(-n) / d == -((n + d - 1) / d)`.
proof fn lemma_neg_div_floor(n: int, d: int)
    requires
        0 < n,
        0 < d,
    ensures
        (-n) / d == -((n + d - 1) / d),
{
    let k = n / d;
    let r = n % d;
    lemma_fundamental_div_mod(n, d);
    if r == 0 {
        assert(-n == (-k) * d + 0) by (nonlinear_arith)
            requires n == d * k;
        lemma_fundamental_div_mod_converse(-n, d, -k, 0);
        assert((n + d - 1) / d == k) by {
            assert(n + d - 1 == d * k + (d - 1));
            lemma_div_multiples_vanish_fancy(k, d - 1, d);
        }
    } else {
        assert(-n == (-k - 1) * d + (d - r)) by (nonlinear_arith)
            requires n == d * k + r;
        lemma_fundamental_div_mod_converse(-n, d, -k - 1, d - r);
        assert((n + d - 1) / d == k + 1) by {
            assert(n + d - 1 == d * (k + 1) + (r - 1)) by (nonlinear_arith)
                requires n == d * k + r;
            lemma_div_multiples_vanish_fancy(k + 1, r - 1, d);
        }
    }
}

/// Converts map-space to world-space coordinates, flat form (no elevation).
pub fn map_to_world_iso_simple(map_x: i64, map_y: i64) -> (r: (i64, i64))
    requires
        -COORD_LIMIT <= map_x <= COORD_LIMIT,
        -COORD_LIMIT <= map_y <= COORD_LIMIT,
    ensures
        r.0 == world_x_of_map(map_x as int, map_y as int),
        r.1 == world_y_of_map(map_x as int, map_y as int),
{
    let world_x = (map_x - map_y) * HALF_TILE;
    let world_y = (map_x + map_y) * QUARTER_TILE;
    (world_x, world_y)
}

/// Converts map-space to world-space coordinates, with the tile's elevation
/// level and sub-tile height nudge applied after the diamond projection.
pub fn map_to_world_iso(map_x: i64, map_y: i64, elevation: i64, height: i64) -> (r: (i64, i64))
    requires
        -COORD_LIMIT <= map_x <= COORD_LIMIT,
        -COORD_LIMIT <= map_y <= COORD_LIMIT,
        0 <= elevation <= COORD_LIMIT,
        -COORD_LIMIT <= height <= COORD_LIMIT,
    ensures
        r.0 == world_x_of_map(map_x as int, map_y as int),
        r.1 == world_y_of_map_elevated(map_x as int, map_y as int, elevation as int, height as int),
{
    let world_x = (map_x - map_y) * HALF_TILE;
    let world_y = (map_x + map_y) * QUARTER_TILE - elevation * ELEVATION_STEP + height;
    (world_x, world_y)
}

/// Converts world-space to map-space coordinates, flat form.  The result is
/// floored to the sub-unit grid; on any point produced by
/// `map_to_world_iso_simple` the round trip is exact (`lemma_round_trip`).
pub fn world_to_map_iso_simple(world_x: i64, world_y: i64) -> (r: (i64, i64))
    requires
        -COORD_LIMIT <= world_x <= COORD_LIMIT,
        -COORD_LIMIT <= world_y <= COORD_LIMIT,
    ensures
        r.0 == map_x_of_world(world_x as int, world_y as int),
        r.1 == map_y_of_world(world_x as int, world_y as int),
        -COORD_LIMIT <= r.0 <= COORD_LIMIT,
        -COORD_LIMIT <= r.1 <= COORD_LIMIT,
{
    let map_x = div_floor(world_x + 2 * world_y, 2 * HALF_TILE);
    let map_y = div_floor(2 * world_y - world_x, 2 * HALF_TILE);
    proof {
        lemma_div_64_bound(world_x as int + 2 * world_y as int);
        lemma_div_64_bound(2 * world_y as int - world_x as int);
    }
    (map_x, map_y)
}

/// A quotient by 64 keeps the coordinate bound.
pub proof fn lemma_div_64_bound(a: int)
    requires
        -3 * COORD_LIMIT <= a <= 3 * COORD_LIMIT,
    ensures
        -COORD_LIMIT <= a / 64 <= COORD_LIMIT,
{
    lemma_fundamental_div_mod(a, 64);
    lemma_mod_bound(a, 64);
}

/// The flat transforms are mutually inverse: converting any map-space point
/// to world space and back returns it exactly, elevation and height aside.
pub proof fn lemma_round_trip(map_x: int, map_y: int)
    ensures
        map_x_of_world(world_x_of_map(map_x, map_y), world_y_of_map(map_x, map_y)) == map_x,
        map_y_of_world(world_x_of_map(map_x, map_y), world_y_of_map(map_x, map_y)) == map_y,
{
    let wx = world_x_of_map(map_x, map_y);
    let wy = world_y_of_map(map_x, map_y);
    assert(wx + 2 * wy == 64 * map_x);
    assert(2 * wy - wx == 64 * map_y);
    lemma_div_multiples_vanish(map_x, 64);
    lemma_div_multiples_vanish(map_y, 64);
}

} // verus!
