//! The occlusion-aware tile picking engine.
//!
//! Elevated tiles are drawn shifted upward and overlap the diamonds of
//! tiles behind them, so the flat inverse transform alone names the wrong
//! cell as soon as any tile is raised.  Picking instead starts at the
//! base cell of the query point shifted up by half a tile, walks the
//! column of cells whose raised silhouettes could cover the point, and
//! returns the first whose elevation-aware diamond test passes — "first
//! visually in front wins", matching the painter's draw order.

use crate::coords::{
    div_floor, map_to_world_iso, map_x_of_world, map_y_of_world, world_to_map_iso_simple,
    world_x_of_map, world_y_of_map, world_y_of_map_elevated, COORD_LIMIT, COORD_ONE, HALF_TILE,
    MAX_MAP_DIM, QUARTER_TILE,
};
use crate::mapdata::TileMap;
use crate::tile::Tile;
use vstd::arithmetic::div_mod::{
    lemma_div_multiples_vanish, lemma_div_multiples_vanish_fancy, lemma_fundamental_div_mod,
    lemma_fundamental_div_mod_converse, lemma_mod_bound, lemma_mod_multiples_vanish,
};
use vstd::prelude::*;

verus! {

/// Whether cell `(x, y)` lies on a `width` by `height` grid.
pub fn tile_exists(x: i64, y: i64, width: i64, height: i64) -> (r: bool)
    ensures
        r == (0 <= x < width && 0 <= y < height),
{
    x >= 0 && y >= 0 && x < width && y < height
}

/// World x of the anchor the picking test uses for a tile.
pub open spec fn pick_anchor_x(t: Tile) -> int {
    world_x_of_map(t.x as int * COORD_ONE as int, t.y as int * COORD_ONE as int)
}

/// World y of the anchor the picking test uses for a tile: the
/// elevation-aware transform with the height nudge halved (half of
/// `COORD_ONE` is `HALF_TILE`) — the hit-box is vertically centred on the
/// visible diamond, not on the sprite's origin.
pub open spec fn pick_anchor_y(t: Tile) -> int {
    world_y_of_map_elevated(
        t.x as int * COORD_ONE as int,
        t.y as int * COORD_ONE as int,
        t.elevation as int * COORD_ONE as int,
        t.height as int * (HALF_TILE as int),
    )
}

/// The diamond half-plane test against an anchor: with slopes
/// `(1/2, -1/2)` for a left-side candidate and `(-1/2, 1/2)` for a
/// right-side one, the point is inside iff it lies strictly above the
/// lower line and on or below the upper line shifted up by half a tile.
/// The strict/non-strict pair classifies every edge point exactly once.
pub open spec fn in_pick_wedge(qx: int, qy: int, ax: int, ay: int, left: bool) -> bool {
    let tx = qx - ax;
    let ty = qy - ay;
    if left {
        2 * ty > -tx && 2 * ty <= tx + 2 * (HALF_TILE as int * COORD_ONE as int)
    } else {
        2 * ty > tx && 2 * ty <= -tx + 2 * (HALF_TILE as int * COORD_ONE as int)
    }
}

/// The candidate column: from `(x, y)` zig-zag downward — `+1` in y on a
/// left candidate, `+1` in x on a right one, flipping the side each step —
/// while inside the grid's lower bounds, recording each in-bounds cell
/// with the side that was active when it was reached.
pub open spec fn scan_column(x: int, y: int, left: bool, w: int, h: int) -> Seq<(int, int, bool)>
    decreases (w - x) + (h - y),
{
    if x >= w || y >= h {
        Seq::empty()
    } else {
        let rest = if left {
            scan_column(x, y + 1, false, w, h)
        } else {
            scan_column(x + 1, y, true, w, h)
        };
        if 0 <= x && 0 <= y {
            seq![(x, y, left)] + rest
        } else {
            rest
        }
    }
}

/// First candidate whose diamond test passes, in scan order.
pub open spec fn first_pick_hit(
    qx: int,
    qy: int,
    cands: Seq<(int, int, bool)>,
    tm: TileMap,
    w: int,
) -> Option<(int, int)>
    decreases cands.len(),
{
    if cands.len() == 0 {
        None
    } else {
        let c = cands[0];
        let t = tm.v@[c.1 * w + c.0];
        if in_pick_wedge(qx, qy, pick_anchor_x(t), pick_anchor_y(t), c.2) {
            Some((t.x as int, t.y as int))
        } else {
            first_pick_hit(qx, qy, cands.skip(1), tm, w)
        }
    }
}

/// Base cell x of a query point: the flat inverse of the point shifted up
/// by half a tile, floored to a whole cell.
pub open spec fn pick_base_x(wx: int, wy: int) -> int {
    map_x_of_world(wx, wy - HALF_TILE as int * COORD_ONE as int) / COORD_ONE as int
}

/// Base cell y of a query point.
pub open spec fn pick_base_y(wx: int, wy: int) -> int {
    map_y_of_world(wx, wy - HALF_TILE as int * COORD_ONE as int) / COORD_ONE as int
}

/// Starting side of the zig-zag scan: the exclusive-or of the base cell's
/// grid parity and the query's world-space column parity.
pub open spec fn pick_side_left(wx: int, bx: int, by: int) -> bool {
    let map_even = (bx + by) % 2 == 0;
    let world_even = (wx / (HALF_TILE as int * COORD_ONE as int)) % 2 == 0;
    map_even != world_even
}

/// The grid cell a world-space query point visually resolves to, if any.
pub open spec fn pick_tile_spec(wx: int, wy: int, w: int, h: int, tm: TileMap) -> Option<(int, int)> {
    let bx = pick_base_x(wx, wy);
    let by = pick_base_y(wx, wy);
    first_pick_hit(wx, wy, scan_column(bx, by, pick_side_left(wx, bx, by), w, h), tm, w)
}

/// The candidate tuples a scan column yields, as the executable walk
/// collects them.
pub open spec fn cands_seq(s: Seq<(usize, usize, bool)>) -> Seq<(int, int, bool)> {
    Seq::new(s.len(), |i: int| (s[i].0 as int, s[i].1 as int, s[i].2))
}

/// Magnitude bound on picking query coordinates.
pub const PICK_LIMIT: i64 = 0x20_0000_0000;

/// Whether `a` is even (in the Euclidean sense, any sign).
fn is_even(a: i64) -> (r: bool)
    requires
        -0x4000_0000_0000_0000 <= a <= 0x4000_0000_0000_0000,
    ensures
        r == (a as int % 2 == 0),
{
    if a >= 0 {
        (a as u64) % 2 == 0
    } else {
        let m = ((-a) as u64) % 2 == 0;
        proof {
            lemma_neg_mod2(-a as int);
        }
        m
    }
}

/// Negation keeps evenness: `(-n) % 2 == 0` iff `n % 2 == 0`.
proof fn lemma_neg_mod2(n: int)
    requires
        0 < n,
    ensures
        ((-n) % 2 == 0) == (n % 2 == 0),
{
    lemma_fundamental_div_mod(n, 2);
    lemma_mod_bound(n, 2);
    let k = n / 2;
    if n % 2 == 0 {
        lemma_fundamental_div_mod_converse(-n, 2, -k, 0);
    } else {
        lemma_fundamental_div_mod_converse(-n, 2, -k - 1, 1);
    }
}

/// Resolves a world-space point to the grid cell visually under it, or
/// `None` when the point is over background.  The tile index must cover a
/// `width` by `height` grid.
pub fn world_to_map_iso(
    world_x: i64,
    world_y: i64,
    width: usize,
    height: usize,
    tile_map: &TileMap,
) -> (r: Option<(usize, usize)>)
    requires
        -PICK_LIMIT <= world_x <= PICK_LIMIT,
        -PICK_LIMIT <= world_y <= PICK_LIMIT,
        width <= MAX_MAP_DIM,
        height <= MAX_MAP_DIM,
        tile_map.wf(width as int, height as int),
    ensures
        ({
            let p = pick_tile_spec(world_x as int, world_y as int, width as int, height as int, *tile_map);
            &&& (r is Some <==> p is Some)
            &&& r matches Some(c) ==> p == Some((c.0 as int, c.1 as int)) && c.0 < width && c.1 < height
        }),
{
    let ghost tm = *tile_map;
    let wi = width as i64;
    let hi = height as i64;
    // Base cell of the query shifted up by half a tile.
    let (base_x_f, base_y_f) = world_to_map_iso_simple(world_x, world_y - HALF_TILE * COORD_ONE);
    let mut x = div_floor(base_x_f, COORD_ONE);
    let mut y = div_floor(base_y_f, COORD_ONE);
    let ghost bx0 = x as int;
    let ghost by0 = y as int;
    // Left or right half of the base diamond, from the parity table.
    let map_even = is_even(x + y);
    let world_even = is_even(div_floor(world_x, HALF_TILE * COORD_ONE));
    let mut left = map_even != world_even;
    let ghost left0 = left;
    proof {
        crate::coords::lemma_div_64_bound(base_x_f as int);
        crate::coords::lemma_div_64_bound(base_y_f as int);
        assert(bx0 == pick_base_x(world_x as int, world_y as int));
        assert(by0 == pick_base_y(world_x as int, world_y as int));
        assert(left0 == pick_side_left(world_x as int, bx0, by0));
    }
    let ghost scan0 = scan_column(bx0, by0, left0, wi as int, hi as int);
    // Walk the candidate column.
    let mut cands: Vec<(usize, usize, bool)> = Vec::new();
    while x < wi && y < hi
        invariant
            wi == width as int,
            hi == height as int,
            width <= MAX_MAP_DIM,
            height <= MAX_MAP_DIM,
            -COORD_LIMIT <= x <= COORD_LIMIT,
            -COORD_LIMIT <= y <= COORD_LIMIT,
            scan0 == cands_seq(cands@) + scan_column(x as int, y as int, left, wi as int, hi as int),
            forall|i: int|
                0 <= i < cands@.len() ==> (#[trigger] cands@[i]).0 < width && cands@[i].1 < height,
        decreases (wi - x) + (hi - y),
    {
        let ghost pre = cands@;
        let ghost scan_here = scan_column(x as int, y as int, left, wi as int, hi as int);
        if tile_exists(x, y, wi, hi) {
            cands.push((x as usize, y as usize, left));
            proof {
                let c: (int, int, bool) = (x as int, y as int, left);
                assert(cands_seq(cands@) =~= cands_seq(pre) + seq![c]);
            }
        }
        let ghost next_left = !left;
        proof {
            let rest = if left {
                scan_column(x as int, y as int + 1, false, wi as int, hi as int)
            } else {
                scan_column(x as int + 1, y as int, true, wi as int, hi as int)
            };
            if 0 <= x && 0 <= y {
                let c: (int, int, bool) = (x as int, y as int, left);
                assert(scan_here == seq![c] + rest);
                assert(cands_seq(cands@) + rest =~= cands_seq(pre) + (seq![c] + rest));
            } else {
                assert(scan_here == rest);
            }
        }
        if left {
            y = y + 1;
        } else {
            x = x + 1;
        }
        left = !left;
    }
    proof {
        assert(scan_column(x as int, y as int, left, wi as int, hi as int) =~= Seq::<(int, int, bool)>::empty());
        assert(scan0 =~= cands_seq(cands@));
    }
    proof {
        assert(scan0.skip(0) =~= scan0);
    }
    // Test each candidate's elevation-aware diamond, front-most first.
    let mut k: usize = 0;
    while k < cands.len()
        invariant
            wi == width as int,
            hi == height as int,
            width <= MAX_MAP_DIM,
            height <= MAX_MAP_DIM,
            -PICK_LIMIT <= world_x <= PICK_LIMIT,
            -PICK_LIMIT <= world_y <= PICK_LIMIT,
            tile_map.wf(width as int, height as int),
            tm == *tile_map,
            k <= cands@.len(),
            scan0 == cands_seq(cands@),
            forall|i: int|
                0 <= i < cands@.len() ==> (#[trigger] cands@[i]).0 < width && cands@[i].1 < height,
            pick_tile_spec(world_x as int, world_y as int, width as int, height as int, tm)
                == first_pick_hit(world_x as int, world_y as int, scan0, tm, wi as int),
            first_pick_hit(world_x as int, world_y as int, scan0, tm, wi as int) == first_pick_hit(
                world_x as int,
                world_y as int,
                scan0.skip(k as int),
                tm,
                wi as int,
            ),
        decreases cands@.len() - k,
    {
        let (cx, cy, cleft) = cands[k];
        proof {
            assert(0 <= cy as int * wi as int + cx as int && (cy as int * wi as int + cx as int)
                < (wi as int) * (hi as int)) by (nonlinear_arith)
                requires
                    0 <= cx as int,
                    (cx as int) < wi as int,
                    0 <= cy as int,
                    (cy as int) < hi as int;
        }
        let t = tile_map.get(cx, cy, width);
        proof {
            lemma_fundamental_div_mod_converse(
                cy as int * wi as int + cx as int,
                wi as int,
                cy as int,
                cx as int,
            );
        }
        let (anchor_x, anchor_y) = map_to_world_iso(
            (t.x as i64) * COORD_ONE,
            (t.y as i64) * COORD_ONE,
            (t.elevation as i64) * COORD_ONE,
            (t.height as i64) * HALF_TILE,
        );
        let test_x = world_x - anchor_x;
        let test_y = world_y - anchor_y;
        let hit = if cleft {
            2 * test_y > -test_x && 2 * test_y <= test_x + 2 * (HALF_TILE * COORD_ONE)
        } else {
            2 * test_y > test_x && 2 * test_y <= -test_x + 2 * (HALF_TILE * COORD_ONE)
        };
        proof {
            let s = scan0.skip(k as int);
            assert(s[0] == scan0[k as int]);
            assert(s.skip(1) =~= scan0.skip(k as int + 1));
        }
        if hit {
            proof {
                let s = scan0.skip(k as int);
                let c = s[0];
                assert(c == (cx as int, cy as int, cleft));
                assert(tm.v@[c.1 * (wi as int) + c.0] == t);
                assert(in_pick_wedge(
                    world_x as int,
                    world_y as int,
                    pick_anchor_x(t),
                    pick_anchor_y(t),
                    cleft,
                ));
                assert(first_pick_hit(world_x as int, world_y as int, s, tm, wi as int) == Some(
                    (t.x as int, t.y as int),
                ));
            }
            return Some((t.x, t.y));
        }
        k = k + 1;
    }
    proof {
        assert(scan0.skip(cands@.len() as int) =~= Seq::<(int, int, bool)>::empty());
    }
    None
}

/// Every candidate the scan records lies on the grid.
proof fn lemma_scan_column_in_bounds(x: int, y: int, left: bool, w: int, h: int)
    ensures
        forall|i: int|
            0 <= i < scan_column(x, y, left, w, h).len() ==> {
                let c = #[trigger] scan_column(x, y, left, w, h)[i];
                0 <= c.0 < w && 0 <= c.1 < h
            },
    decreases (w - x) + (h - y),
{
    if x >= w || y >= h {
    } else {
        let rest = if left {
            scan_column(x, y + 1, false, w, h)
        } else {
            scan_column(x + 1, y, true, w, h)
        };
        if left {
            lemma_scan_column_in_bounds(x, y + 1, false, w, h);
        } else {
            lemma_scan_column_in_bounds(x + 1, y, true, w, h);
        }
        let s = scan_column(x, y, left, w, h);
        if 0 <= x && 0 <= y {
            assert(s == seq![(x, y, left)] + rest);
            assert forall|i: int| 0 <= i < s.len() implies {
                let c = #[trigger] s[i];
                0 <= c.0 < w && 0 <= c.1 < h
            } by {
                if i > 0 {
                    assert(s[i] == rest[i - 1]);
                }
            }
        } else {
            assert(s == rest);
        }
    }
}

/// A hit among in-grid candidates names an in-grid cell.
proof fn lemma_first_hit_in_bounds(
    qx: int,
    qy: int,
    cands: Seq<(int, int, bool)>,
    tm: TileMap,
    w: int,
    h: int,
)
    requires
        tm.wf(w, h),
        forall|i: int|
            0 <= i < cands.len() ==> {
                let c = #[trigger] cands[i];
                0 <= c.0 < w && 0 <= c.1 < h
            },
    ensures
        first_pick_hit(qx, qy, cands, tm, w) matches Some(c) ==> 0 <= c.0 < w && 0 <= c.1 < h,
    decreases cands.len(),
{
    if cands.len() == 0 {
    } else {
        let c = cands[0];
        assert(0 <= c.1 * w + c.0 && c.1 * w + c.0 < w * h) by (nonlinear_arith)
            requires
                0 <= c.0,
                c.0 < w,
                0 <= c.1,
                c.1 < h;
        lemma_fundamental_div_mod_converse(c.1 * w + c.0, w, c.1, c.0);
        lemma_first_hit_in_bounds(qx, qy, cands.skip(1), tm, w, h);
    }
}

/// Whatever picking returns, it is a cell of the grid: a query point over
/// background — or anywhere outside the map — can only resolve to `None`.
pub proof fn lemma_pick_in_bounds(wx: int, wy: int, w: int, h: int, tm: TileMap)
    requires
        tm.wf(w, h),
    ensures
        pick_tile_spec(wx, wy, w, h, tm) matches Some(c) ==> 0 <= c.0 < w && 0 <= c.1 < h,
{
    let bx = pick_base_x(wx, wy);
    let by = pick_base_y(wx, wy);
    let left = pick_side_left(wx, bx, by);
    lemma_scan_column_in_bounds(bx, by, left, w, h);
    lemma_first_hit_in_bounds(wx, wy, scan_column(bx, by, left, w, h), tm, w, h);
}

/// Two consecutive candidates of one scan, at equal elevation and height,
/// never both claim a query point: the upper bound of each wedge is the
/// strict lower bound of its successor's.
pub proof fn lemma_scan_wedges_disjoint(qx: int, qy: int, ax: int, ay: int)
    ensures
        !(in_pick_wedge(qx, qy, ax, ay, true) && in_pick_wedge(
            qx,
            qy,
            ax - HALF_TILE as int * COORD_ONE as int,
            ay + QUARTER_TILE as int * COORD_ONE as int,
            false,
        )),
        !(in_pick_wedge(qx, qy, ax, ay, false) && in_pick_wedge(
            qx,
            qy,
            ax + HALF_TILE as int * COORD_ONE as int,
            ay + QUARTER_TILE as int * COORD_ONE as int,
            true,
        )),
{
}

/// A query point exactly on the edge a candidate shares with its scan
/// successor (equal elevation and height) is classified into exactly one
/// of the two: the `>` and `<=` bounds leave no gap and no double match,
/// and the edge itself belongs to the earlier candidate.
pub proof fn lemma_shared_edge_classified(qx: int, qy: int, ax: int, ay: int)
    ensures
        ({
            let tx = qx - ax;
            let ty = qy - ay;
            let b = 2 * (HALF_TILE as int * COORD_ONE as int);
            &&& (2 * ty == tx + b && 2 * ty > -tx) ==> in_pick_wedge(qx, qy, ax, ay, true)
                && !in_pick_wedge(
                qx,
                qy,
                ax - HALF_TILE as int * COORD_ONE as int,
                ay + QUARTER_TILE as int * COORD_ONE as int,
                false,
            )
            &&& (2 * ty == -tx + b && 2 * ty > tx) ==> in_pick_wedge(qx, qy, ax, ay, false)
                && !in_pick_wedge(
                qx,
                qy,
                ax + HALF_TILE as int * COORD_ONE as int,
                ay + QUARTER_TILE as int * COORD_ONE as int,
                true,
            )
        }),
{
}

/// A query point whose candidate column starts beyond the far edges of the
/// grid resolves to nothing: the scan records no candidate at all.
pub proof fn lemma_pick_outside(wx: int, wy: int, w: int, h: int, tm: TileMap)
    requires
        pick_base_x(wx, wy) >= w || pick_base_y(wx, wy) >= h,
    ensures
        pick_tile_spec(wx, wy, w, h, tm) is None,
{
    let bx = pick_base_x(wx, wy);
    let by = pick_base_y(wx, wy);
    assert(scan_column(bx, by, pick_side_left(wx, bx, by), w, h) =~= Seq::<(int, int, bool)>::empty());
}

/// On a map whose tiles all have elevation 0 (heights may carry any
/// sub-tile nudge below half a tile), picking the world-space centre of
/// cell `(x, y)`'s flat diamond returns `(x, y)`, for every cell of the
/// grid: with nothing raised, picking agrees with the flat transforms
/// everywhere.
pub proof fn lemma_pick_flat_center(w: int, h: int, tm: TileMap, x: int, y: int)
    requires
        0 <= x < w,
        0 <= y < h,
        tm.wf(w, h),
        forall|i: int|
            0 <= i < tm.v@.len() ==> (#[trigger] tm.v@[i]).elevation == 0 && tm.v@[i].height
                < HALF_TILE,
    ensures
        ({
            let qx = world_x_of_map(x * COORD_ONE as int, y * COORD_ONE as int);
            let qy = world_y_of_map(x * COORD_ONE as int, y * COORD_ONE as int) + QUARTER_TILE as int
                * COORD_ONE as int;
            pick_tile_spec(qx, qy, w, h, tm) == Some((x, y))
        }),
{
    let qx = world_x_of_map(x * COORD_ONE as int, y * COORD_ONE as int);
    let qy = world_y_of_map(x * COORD_ONE as int, y * COORD_ONE as int) + QUARTER_TILE as int
        * COORD_ONE as int;
    assert(qx == 2048 * (x - y));
    assert(qy == 1024 * (x + y) + 1024);

    // The base cell is the north-west neighbour (x - 1, y - 1).
    let sx = qx + 2 * (qy - 2048);
    let sy = 2 * (qy - 2048) - qx;
    assert(sx == 64 * (64 * x - 32));
    assert(sy == 64 * (64 * y - 32));
    assert(map_x_of_world(qx, qy - 2048) == 64 * x - 32) by {
        lemma_div_multiples_vanish(64 * x - 32, 64);
    }
    assert(map_y_of_world(qx, qy - 2048) == 64 * y - 32) by {
        lemma_div_multiples_vanish(64 * y - 32, 64);
    }
    assert(pick_base_x(qx, qy) == x - 1) by {
        assert(64 * x - 32 == 64 * (x - 1) + 32);
        lemma_div_multiples_vanish_fancy(x - 1, 32, 64);
    }
    assert(pick_base_y(qx, qy) == y - 1) by {
        assert(64 * y - 32 == 64 * (y - 1) + 32);
        lemma_div_multiples_vanish_fancy(y - 1, 32, 64);
    }

    // The scan starts on the right-hand side: the grid parity of the base
    // cell always equals the world-column parity of the query here.
    assert(((x - 1) + (y - 1)) % 2 == (x + y) % 2) by {
        lemma_mod_multiples_vanish(-1, x + y, 2);
    }
    assert(qx / 2048 == x - y) by {
        lemma_div_multiples_vanish(x - y, 2048);
    }
    assert((x + y) % 2 == (x - y) % 2) by {
        lemma_mod_multiples_vanish(y, x - y, 2);
    }
    assert(!pick_side_left(qx, x - 1, y - 1));

    // The first candidate that can pass the diamond test is (x, y) itself.
    let rest = scan_column(x + 1, y, true, w, h);
    let s_c = scan_column(x, y, false, w, h);
    let s_b = scan_column(x, y - 1, true, w, h);
    let s_a = scan_column(x - 1, y - 1, false, w, h);
    let target: (int, int, bool) = (x, y, false);
    assert(s_c == seq![target] + rest);

    lemma_flat_tile_at(tm, w, h, x, y);
    let t = tm.v@[y * w + x];
    assert((seq![target] + rest)[0] == target);
    assert(in_pick_wedge(qx, qy, pick_anchor_x(t), pick_anchor_y(t), false));
    assert(first_pick_hit(qx, qy, s_c, tm, w) == Some((x, y)));

    if y >= 1 {
        let cb: (int, int, bool) = (x, y - 1, true);
        assert(s_b == seq![cb] + s_c);
        lemma_flat_tile_at(tm, w, h, x, y - 1);
        let tb = tm.v@[(y - 1) * w + x];
        assert((seq![cb] + s_c)[0] == cb);
        assert(!in_pick_wedge(qx, qy, pick_anchor_x(tb), pick_anchor_y(tb), true));
        assert((seq![cb] + s_c).skip(1) =~= s_c);
        assert(first_pick_hit(qx, qy, s_b, tm, w) == Some((x, y)));
    } else {
        assert(s_b == s_c);
    }

    if x >= 1 && y >= 1 {
        let ca: (int, int, bool) = (x - 1, y - 1, false);
        assert(s_a == seq![ca] + s_b);
        lemma_flat_tile_at(tm, w, h, x - 1, y - 1);
        let ta = tm.v@[(y - 1) * w + (x - 1)];
        assert((seq![ca] + s_b)[0] == ca);
        assert(!in_pick_wedge(qx, qy, pick_anchor_x(ta), pick_anchor_y(ta), false));
        assert((seq![ca] + s_b).skip(1) =~= s_b);
        assert(first_pick_hit(qx, qy, s_a, tm, w) == Some((x, y)));
    } else {
        assert(s_a == s_b);
    }
}

/// On an all-flat well-formed map, the tile stored for cell `(x, y)`
/// carries exactly those coordinates, elevation 0 and a height nudge
/// below half a tile.
pub open spec fn flat_tile_at(tm: TileMap, w: int, h: int, x: int, y: int) -> bool {
    let t = tm.v@[y * w + x];
    &&& t.x == x
    &&& t.y == y
    &&& t.elevation == 0
    &&& t.height < HALF_TILE
}

proof fn lemma_flat_tile_at(tm: TileMap, w: int, h: int, x: int, y: int)
    requires
        tm.wf(w, h),
        forall|i: int|
            0 <= i < tm.v@.len() ==> (#[trigger] tm.v@[i]).elevation == 0 && tm.v@[i].height
                < HALF_TILE,
        0 <= x < w,
        0 <= y < h,
    ensures
        flat_tile_at(tm, w, h, x, y),
{
    assert(0 <= y * w + x && y * w + x < w * h) by (nonlinear_arith)
        requires
            0 <= x,
            x < w,
            0 <= y,
            y < h;
    lemma_fundamental_div_mod_converse(y * w + x, w, y, x);
}

} // verus!
