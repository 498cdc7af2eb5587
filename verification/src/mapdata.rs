//! The serialized map, its materialization into a tile grid, and the dense
//! runtime tile index.

use crate::error::MapError;
use crate::terrain::{terrain_index, lemma_terrain_index, TerrainSet, MAX_TILE_HEIGHT};
use crate::tile::Tile;
use vstd::arithmetic::div_mod::{
    lemma_fundamental_div_mod, lemma_fundamental_div_mod_converse,
};
use vstd::prelude::*;
use vstd::string::StrSliceExecFns;

verus! {

/// Grid extents in cells; both must be non-zero before use.
#[derive(Clone, Copy, PartialEq, Eq, Structural, Debug)]
pub struct MapDimensions {
    pub width: usize,
    pub height: usize,
}

impl Default for MapDimensions {
    /// An empty, not yet usable extent.
    fn default() -> (r: MapDimensions)
        ensures
            r.width == 0 && r.height == 0,
    {
        MapDimensions { width: 0, height: 0 }
    }
}

/// A map as loaded from a file: extents, a terrain-catalog reference and
/// the flattened grid as a character string, row-major, width-first.  Two
/// encodings exist: one character per cell (terrain code, elevation 0) and
/// two characters per cell (terrain code, then one decimal elevation
/// digit).  `build_tiles` materializes `tiles` from them.
#[derive(Debug)]
pub struct MapData {
    pub dimensions: MapDimensions,
    pub terrain_file: String,
    pub data: String,
    pub tiles: Vec<Vec<Tile>>,
}

impl Default for MapData {
    /// An empty map with a single empty row, as a fresh editor starts with.
    fn default() -> (r: MapData)
        ensures
            r.dimensions.width == 0 && r.dimensions.height == 0,
            r.terrain_file@ == Seq::<char>::empty(),
            r.data@ == Seq::<char>::empty(),
            r.tiles@.len() == 1 && r.tiles@[0]@.len() == 0,
    {
        MapData {
            dimensions: MapDimensions { width: 0, height: 0 },
            terrain_file: String::new(),
            data: String::new(),
            tiles: vec![Vec::new()],
        }
    }
}

/// A decimal digit character, the only elevation encoding.
pub open spec fn is_elevation_digit(c: char) -> bool {
    48 <= c as u32 <= 57
}

/// Elevation level encoded by a digit character.
pub open spec fn elevation_of(c: char) -> int {
    c as u32 - 48
}

/// Parses one decimal digit, the behaviour of `char::to_digit(10)`.
fn digit_value(c: char) -> (r: Option<u32>)
    ensures
        r is Some <==> is_elevation_digit(c),
        r matches Some(v) ==> v == elevation_of(c) && v <= 9,
{
    let u = c as u32;
    if 48 <= u && u <= 57 {
        Some(u - 48)
    } else {
        None
    }
}

/// The characters of `s`, in order.
fn chars_of(s: &str) -> (r: Vec<char>)
    ensures
        r@ == s@,
{
    let n = s.unicode_len();
    let mut r: Vec<char> = Vec::new();
    let mut i: usize = 0;
    while i < n
        invariant
            i <= n,
            n == s@.len(),
            r@ == s@.subrange(0, i as int),
        decreases n - i,
    {
        r.push(s.get_char(i));
        i = i + 1;
    }
    assert(r@ == s@);
    r
}

/// The data string's length fits one of the two cell encodings.
pub open spec fn data_len_ok(n: int, w: int, h: int) -> bool {
    n == w * h || n == 2 * w * h
}

/// What a correctly materialized cell looks like: the first catalog brush
/// matching `code` generated the tile, with the given coordinates and
/// elevation and one of the brush's candidate sprites.
pub open spec fn tile_matches(terrain: TerrainSet, code: char, x: int, y: int, e: int, t: Tile) -> bool {
    let idx = terrain_index(terrain.tiles@, code);
    &&& idx >= 0
    &&& t.x == x
    &&& t.y == y
    &&& t.elevation == e
    &&& t.height == terrain.tiles@[idx].height
    &&& t.slope == terrain.tiles@[idx].slope
    &&& exists|j: int|
        0 <= j < terrain.tiles@[idx].tiles@.len() && t.sprite_index == terrain.tiles@[idx].tiles@[j]
}

/// Terrain code of cell `i` under the chosen encoding.
pub open spec fn cell_code(data: Seq<char>, two: bool, i: int) -> char {
    if two {
        data[2 * i]
    } else {
        data[i]
    }
}

/// Elevation of cell `i` under the chosen encoding (0 in the legacy one).
pub open spec fn cell_elevation(data: Seq<char>, two: bool, i: int) -> int {
    if two {
        elevation_of(data[2 * i + 1])
    } else {
        0
    }
}

/// Why materializing cell `i` fails, if it does.  In the two-character
/// encoding the elevation digit is checked before the terrain code.
pub open spec fn cell_error(terrain: TerrainSet, data: Seq<char>, two: bool, i: int) -> Option<MapError> {
    if two && !is_elevation_digit(data[2 * i + 1]) {
        Some(MapError::InvalidElevation)
    } else if terrain_index(terrain.tiles@, cell_code(data, two, i)) == -1 {
        Some(MapError::UnknownTerrainCode)
    } else {
        None
    }
}

/// First cell at or after `i` that fails to materialize, or `-1`.
pub open spec fn first_bad_cell_from(
    terrain: TerrainSet,
    data: Seq<char>,
    two: bool,
    i: int,
    n_cells: int,
) -> int
    decreases n_cells - i,
{
    if i < 0 || i >= n_cells {
        -1
    } else if cell_error(terrain, data, two, i) is Some {
        i
    } else {
        first_bad_cell_from(terrain, data, two, i + 1, n_cells)
    }
}

/// First cell of the whole grid that fails to materialize, or `-1`.
pub open spec fn first_bad_cell(terrain: TerrainSet, data: Seq<char>, two: bool, n_cells: int) -> int {
    first_bad_cell_from(terrain, data, two, 0, n_cells)
}

/// If every cell before `m` materializes, the first failure overall is the
/// first failure at or after `m`.
proof fn lemma_first_bad_prefix(terrain: TerrainSet, data: Seq<char>, two: bool, m: int, n_cells: int)
    requires
        0 <= m <= n_cells,
        forall|j: int| 0 <= j < m ==> cell_error(terrain, data, two, j) is None,
    ensures
        first_bad_cell(terrain, data, two, n_cells) == first_bad_cell_from(terrain, data, two, m, n_cells),
    decreases m,
{
    if m > 0 {
        lemma_first_bad_prefix(terrain, data, two, m - 1, n_cells);
    }
}

/// A fully and correctly materialized grid for the given data string.
pub open spec fn grid_matches(
    terrain: TerrainSet,
    data: Seq<char>,
    two: bool,
    w: int,
    h: int,
    tiles: Seq<Vec<Tile>>,
) -> bool {
    &&& tiles.len() == h
    &&& forall|y: int| 0 <= y < h ==> (#[trigger] tiles[y])@.len() == w
    &&& forall|y: int, x: int|
        0 <= y < h && 0 <= x < w ==> tile_matches(
            terrain,
            cell_code(data, two, y * w + x),
            x,
            y,
            cell_elevation(data, two, y * w + x),
            #[trigger] tiles[y]@[x],
        )
}

impl MapData {
    /// A materialized grid whose cells carry their own coordinates and
    /// bounded elevation and height: what the tile index and the picking
    /// engine rely on.
    pub open spec fn grid_built(self) -> bool {
        let w = self.dimensions.width as int;
        let h = self.dimensions.height as int;
        &&& w > 0
        &&& h > 0
        &&& self.tiles@.len() == h
        &&& forall|y: int| 0 <= y < h ==> (#[trigger] self.tiles@[y])@.len() == w
        &&& forall|y: int, x: int|
            0 <= y < h && 0 <= x < w ==> {
                let t = #[trigger] self.tiles@[y]@[x];
                &&& t.x == x
                &&& t.y == y
                &&& t.elevation <= 9
                &&& t.height <= MAX_TILE_HEIGHT
            }
    }

    /// Materializes the tile grid from the data string, or rejects the map:
    /// zero extents, a length fitting neither encoding, a non-digit
    /// elevation or an unknown terrain code are fatal, and on failure the
    /// map is left untouched — no partial grid is ever built.  The error
    /// reported is the one of the first offending cell in row-major order.
    pub fn build_tiles(&mut self, terrain: &TerrainSet) -> (r: Result<(), MapError>)
        requires
            terrain.wf(),
        ensures
            final(self).dimensions == old(self).dimensions,
            final(self).terrain_file == old(self).terrain_file,
            final(self).data == old(self).data,
            r is Err ==> *final(self) == *old(self),
            r == Err::<(), MapError>(MapError::ZeroDimensions) <==> (old(self).dimensions.width == 0
                || old(self).dimensions.height == 0),
            ({
                let w = old(self).dimensions.width as int;
                let h = old(self).dimensions.height as int;
                let n = old(self).data@.len() as int;
                w > 0 && h > 0 ==> (r == Err::<(), MapError>(MapError::DataLengthMismatch) <==> !data_len_ok(n, w, h))
            }),
            ({
                let w = old(self).dimensions.width as int;
                let h = old(self).dimensions.height as int;
                let d = old(self).data@;
                let n = d.len() as int;
                let two = n == 2 * w * h;
                w > 0 && h > 0 && data_len_ok(n, w, h) ==> {
                    let fb = first_bad_cell(*terrain, d, two, w * h);
                    &&& (r is Ok <==> fb == -1)
                    &&& fb >= 0 ==> r == Err::<(), MapError>(cell_error(*terrain, d, two, fb).unwrap())
                }
            }),
            r is Ok ==> ({
                let w = old(self).dimensions.width as int;
                let h = old(self).dimensions.height as int;
                let d = old(self).data@;
                let n = d.len() as int;
                let two = n == 2 * w * h;
                &&& w > 0 && h > 0
                &&& data_len_ok(n, w, h)
                &&& grid_matches(*terrain, d, two, w, h, final(self).tiles@)
                &&& final(self).grid_built()
            }),
    {
        let w = self.dimensions.width;
        let h = self.dimensions.height;
        if w == 0 || h == 0 {
            return Err(MapError::ZeroDimensions);
        }
        let chars = chars_of(self.data.as_str());
        let n = chars.len();
        let ghost wi = w as int;
        let ghost hi = h as int;
        let ghost d = self.data@;
        let two: bool;
        if n % w == 0 && n / w == h {
            proof {
                lemma_fundamental_div_mod(n as int, wi);
                assert(n == wi * hi);
                assert(n != 2 * wi * hi) by (nonlinear_arith)
                    requires n == wi * hi, wi > 0, hi > 0;
            }
            two = false;
        } else if n % 2 == 0 && (n / 2) % w == 0 && (n / 2) / w == h {
            proof {
                lemma_fundamental_div_mod(n as int, 2);
                lemma_fundamental_div_mod(n as int / 2, wi);
                assert(n == 2 * (wi * hi));
                assert(n == 2 * wi * hi) by (nonlinear_arith)
                    requires n == 2 * (wi * hi);
            }
            two = true;
        } else {
            proof {
                if d.len() == wi * hi {
                    lemma_fundamental_div_mod_converse(n as int, wi, hi, 0);
                    assert(n as int == hi * wi + 0) by (nonlinear_arith)
                        requires n == wi * hi;
                }
                if d.len() == 2 * wi * hi {
                    assert(n as int == (wi * hi) * 2 + 0) by (nonlinear_arith)
                        requires n == 2 * wi * hi;
                    lemma_fundamental_div_mod_converse(n as int, 2, wi * hi, 0);
                    lemma_fundamental_div_mod_converse(n as int / 2, wi, hi, 0);
                    assert(wi * hi == hi * wi + 0) by (nonlinear_arith);
                }
            }
            return Err(MapError::DataLengthMismatch);
        }
        let ghost cells = wi * hi;
        proof {
            assert(n == (if two { 2 * cells } else { cells }));
            assert(cells <= n as int) by (nonlinear_arith)
                requires n == (if two { 2 * cells } else { cells }), cells >= 0;
            assert(cells > 0) by (nonlinear_arith)
                requires wi > 0, hi > 0, cells == wi * hi;
            assert(data_len_ok(n as int, wi, hi) && two == (n as int == 2 * wi * hi)) by (nonlinear_arith)
                requires
                    n == (if two { 2 * cells } else { cells }),
                    cells == wi * hi,
                    cells > 0;
        }
        let mut tiles: Vec<Vec<Tile>> = Vec::new();
        let mut y: usize = 0;
        while y < h
            invariant
                terrain.wf(),
                *self == *old(self),
                w == self.dimensions.width,
                h == self.dimensions.height,
                d == self.data@,
                0 < w,
                0 < h,
                y <= h,
                wi == w as int,
                hi == h as int,
                cells == wi * hi,
                chars@ == d,
                n == chars@.len(),
                n == (if two { 2 * cells } else { cells }),
                data_len_ok(n as int, wi, hi),
                two == (n as int == 2 * wi * hi),
                tiles@.len() == y,
                forall|yy: int| 0 <= yy < y ==> (#[trigger] tiles@[yy])@.len() == wi,
                forall|yy: int, xx: int|
                    0 <= yy < y && 0 <= xx < wi ==> cell_well_built(
                        *terrain,
                        d,
                        two,
                        wi,
                        yy,
                        xx,
                        #[trigger] tiles@[yy]@[xx],
                    ),
                forall|j: int| 0 <= j < y * wi ==> cell_error(*terrain, d, two, j) is None,
            decreases h - y,
        {
            let mut row: Vec<Tile> = Vec::new();
            let mut x: usize = 0;
            while x < w
                invariant
                    terrain.wf(),
                    *self == *old(self),
                    w == self.dimensions.width,
                    h == self.dimensions.height,
                    d == self.data@,
                    0 < w,
                    0 < h,
                    y < h,
                    x <= w,
                    wi == w as int,
                    hi == h as int,
                    cells == wi * hi,
                    chars@ == d,
                    n == chars@.len(),
                    n == (if two { 2 * cells } else { cells }),
                    data_len_ok(n as int, wi, hi),
                    two == (n as int == 2 * wi * hi),
                    row@.len() == x,
                    forall|xx: int|
                        0 <= xx < x ==> cell_well_built(
                            *terrain,
                            d,
                            two,
                            wi,
                            y as int,
                            xx,
                            #[trigger] row@[xx],
                        ),
                    forall|j: int| 0 <= j < y * wi + x ==> cell_error(*terrain, d, two, j) is None,
                decreases w - x,
            {
                proof {
                    assert(0 <= y * wi + x < cells) by (nonlinear_arith)
                        requires 0 <= y < hi, 0 <= x < wi, cells == wi * hi;
                }
                let i = y * w + x;
                let code: char;
                let e: usize;
                if two {
                    let cc = chars[2 * i];
                    let ec = chars[2 * i + 1];
                    match digit_value(ec) {
                        Some(v) => {
                            code = cc;
                            e = v as usize;
                        },
                        None => {
                            proof {
                                assert(cell_error(*terrain, d, two, i as int) == Some(
                                    MapError::InvalidElevation,
                                ));
                                lemma_first_bad_prefix(*terrain, d, two, i as int, cells);
                            }
                            return Err(MapError::InvalidElevation);
                        },
                    }
                } else {
                    code = chars[i];
                    e = 0;
                }
                match terrain.create_tile(code, x, y, e) {
                    Ok(t) => {
                        proof {
                            lemma_terrain_index(terrain.tiles@, cell_code(d, two, i as int));
                            assert(cell_error(*terrain, d, two, i as int) is None);
                        }
                        row.push(t);
                    },
                    Err(err) => {
                        proof {
                            lemma_terrain_index(terrain.tiles@, cell_code(d, two, i as int));
                            assert(cell_error(*terrain, d, two, i as int) == Some(
                                MapError::UnknownTerrainCode,
                            ));
                            lemma_first_bad_prefix(*terrain, d, two, i as int, cells);
                        }
                        return Err(err);
                    },
                }
                x = x + 1;
            }
            tiles.push(row);
            proof {
                assert((y + 1) * wi == y * wi + wi) by (nonlinear_arith);
            }
            y = y + 1;
        }
        proof {
            assert(y * wi == cells) by (nonlinear_arith)
                requires y == hi, cells == wi * hi;
            lemma_first_bad_prefix(*terrain, d, two, cells, cells);
        }
        self.tiles = tiles;
        Ok(())
    }
}

/// One materialized cell: correctly generated and within the bounds the
/// tile index relies on.
pub open spec fn cell_well_built(
    terrain: TerrainSet,
    data: Seq<char>,
    two: bool,
    w: int,
    y: int,
    x: int,
    t: Tile,
) -> bool {
    &&& tile_matches(terrain, cell_code(data, two, y * w + x), x, y, cell_elevation(data, two, y * w + x), t)
    &&& t.elevation <= 9
    &&& t.height <= MAX_TILE_HEIGHT
}

/// The dense runtime tile index: cell `(x, y)` of a width-`w` grid sits at
/// position `y * w + x`.
#[derive(Clone, Debug)]
pub struct TileMap {
    pub v: Vec<Tile>,
}

impl TileMap {
    /// A usable index for a `w` by `h` grid: every cell carries its own
    /// coordinates and bounded elevation and height.
    pub open spec fn wf(self, w: int, h: int) -> bool {
        &&& self.v@.len() == w * h
        &&& forall|i: int|
            0 <= i < self.v@.len() ==> {
                let t = #[trigger] self.v@[i];
                &&& t.x == i % w
                &&& t.y == i / w
                &&& t.elevation <= 9
                &&& t.height <= MAX_TILE_HEIGHT
            }
    }

    /// The tile at `(x, y)` of a width-`w` grid.
    pub fn get(&self, x: usize, y: usize, w: usize) -> (r: Tile)
        requires
            x < w,
            y * w + x < self.v@.len(),
        ensures
            r == self.v@[y as int * w as int + x as int],
    {
        let len = self.v.len();
        self.v[y * w + x]
    }

    /// Flattens a materialized grid into the dense index.
    pub fn build(map: &MapData) -> (r: TileMap)
        requires
            map.grid_built(),
        ensures
            r.wf(map.dimensions.width as int, map.dimensions.height as int),
            forall|y: int, x: int|
                0 <= y < map.dimensions.height as int && 0 <= x < map.dimensions.width as int
                    ==> #[trigger] r.v@[y * map.dimensions.width as int + x] == map.tiles@[y]@[x],
    {
        let w = map.dimensions.width;
        let h = map.dimensions.height;
        let ghost wi = w as int;
        let ghost hi = h as int;
        let mut v: Vec<Tile> = Vec::new();
        let mut y: usize = 0;
        while y < h
            invariant
                map.grid_built(),
                wi == map.dimensions.width as int,
                hi == map.dimensions.height as int,
                w == map.dimensions.width,
                h == map.dimensions.height,
                y <= h,
                v@.len() == y * wi,
                forall|i: int|
                    0 <= i < v@.len() ==> {
                        let t = #[trigger] v@[i];
                        &&& t.x == i % wi
                        &&& t.y == i / wi
                        &&& t.elevation <= 9
                        &&& t.height <= MAX_TILE_HEIGHT
                    },
                forall|yy: int, xx: int|
                    0 <= yy < y && 0 <= xx < wi ==> #[trigger] v@[yy * wi + xx] == map.tiles@[yy]@[xx],
            decreases h - y,
        {
            let row = &map.tiles[y];
            let mut x: usize = 0;
            while x < w
                invariant
                    map.grid_built(),
                    wi == map.dimensions.width as int,
                    hi == map.dimensions.height as int,
                    w == map.dimensions.width,
                    h == map.dimensions.height,
                    y < h,
                    x <= w,
                    row@ == map.tiles@[y as int]@,
                    v@.len() == y * wi + x,
                    forall|i: int|
                        0 <= i < v@.len() ==> {
                            let t = #[trigger] v@[i];
                            &&& t.x == i % wi
                            &&& t.y == i / wi
                            &&& t.elevation <= 9
                            &&& t.height <= MAX_TILE_HEIGHT
                        },
                    forall|yy: int, xx: int|
                        0 <= yy < y && 0 <= xx < wi ==> #[trigger] v@[yy * wi + xx] == map.tiles@[yy]@[xx],
                    forall|xx: int|
                        0 <= xx < x ==> #[trigger] v@[y as int * wi + xx] == map.tiles@[y as int]@[xx],
                decreases w - x,
            {
                proof {
                    assert(0 <= y * wi + x < wi * hi) by (nonlinear_arith)
                        requires 0 <= y < hi, 0 <= x < wi;
                    let i = y as int * wi + x as int;
                    assert(i % wi == x as int && i / wi == y as int) by {
                        lemma_fundamental_div_mod_converse(i, wi, y as int, x as int);
                        assert(i == y as int * wi + x as int);
                    }
                }
                v.push(row[x]);
                proof {
                    assert forall|yy: int, xx: int| 0 <= yy < y && 0 <= xx < wi implies #[trigger] v@[yy
                        * wi + xx] == map.tiles@[yy]@[xx] by {
                        assert(0 <= yy * wi + xx && yy * wi + xx < y * wi) by (nonlinear_arith)
                            requires 0 <= yy < y, 0 <= xx < wi, wi > 0;
                    }
                }
                x = x + 1;
            }
            proof {
                assert((y + 1) * wi == y * wi + wi) by (nonlinear_arith);
                assert forall|yy: int, xx: int| 0 <= yy < y + 1 && 0 <= xx < wi implies #[trigger] v@[yy
                    * wi + xx] == map.tiles@[yy]@[xx] by {
                    if yy == y as int {
                        assert(v@[y as int * wi + xx] == map.tiles@[y as int]@[xx]);
                    }
                }
            }
            y = y + 1;
        }
        proof {
            assert(y * wi == wi * hi) by (nonlinear_arith)
                requires y == hi;
        }
        TileMap { v }
    }
}

} // verus!
