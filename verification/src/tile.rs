//! Tiles and the terrain brushes that generate them.

use vstd::prelude::*;

use rand::Rng;

verus! {

/// Slope tag of a terrain brush.  Stored with the tile for forward
/// compatibility; no transform consumes it yet.
#[derive(Clone, Copy, PartialEq, Eq, Structural, Debug)]
pub enum Slope {
    Flat,
    NW,
    NE,
    SE,
    SW,
}

/// Serde default for [`Slope`]: flat, no slope.
pub fn slope_none() -> (r: Slope)
    ensures
        r == Slope::Flat,
{
    Slope::Flat
}

/// A terrain brush from the catalog: generates tiles whose character code
/// matches `char_code`.  `tiles` lists the candidate sprite indices; one is
/// chosen at random per generated tile (cosmetic variation only).
#[derive(Debug)]
pub struct TerrainTile {
    pub name: String,
    pub char_code: char,
    pub tiles: Vec<usize>,
    pub height: usize,
    pub slope: Slope,
}

impl TerrainTile {
    /// Field-wise equivalence up to views: what cloning preserves.
    pub open spec fn equiv(self, other: TerrainTile) -> bool {
        &&& self.name@ == other.name@
        &&& self.char_code == other.char_code
        &&& self.tiles@ == other.tiles@
        &&& self.height == other.height
        &&& self.slope == other.slope
    }
}

impl Clone for TerrainTile {
    fn clone(&self) -> (r: TerrainTile)
        ensures
            self.equiv(r),
    {
        let tiles = clone_usize_vec(&self.tiles);
        TerrainTile {
            name: self.name.clone(),
            char_code: self.char_code,
            tiles,
            height: self.height,
            slope: self.slope,
        }
    }
}

/// Copies a vector of indices element by element.
fn clone_usize_vec(v: &Vec<usize>) -> (r: Vec<usize>)
    ensures
        r@ == v@,
{
    let mut r: Vec<usize> = Vec::new();
    let mut i: usize = 0;
    while i < v.len()
        invariant
            i <= v.len(),
            r@ == v@.subrange(0, i as int),
        decreases v.len() - i,
    {
        r.push(v[i]);
        i = i + 1;
    }
    assert(r@ == v@);
    r
}

/// A tile on the map grid: the sprite chosen for it, its grid coordinates,
/// its terrain height nudge (sub-tile world units) and its elevation level.
#[derive(Clone, Copy, PartialEq, Eq, Structural, Debug)]
pub struct Tile {
    pub sprite_index: usize,
    pub x: usize,
    pub y: usize,
    pub height: usize,
    pub elevation: usize,
    pub slope: Slope,
}

impl Tile {
    /// A blank tile at the origin.
    pub fn new() -> (r: Tile)
        ensures
            r == (Tile {
                sprite_index: 0,
                x: 0,
                y: 0,
                height: 0,
                elevation: 0,
                slope: Slope::Flat,
            }),
    {
        Tile { sprite_index: 0, x: 0, y: 0, height: 0, elevation: 0, slope: Slope::Flat }
    }
}

/// Relies on rand::thread_rng and rand::Rng::gen_range: for `0 < n`,
/// `gen_range(0, n)` returns a value uniformly drawn from `[0, n)` (and
/// panics when the range is empty, which the precondition rules out).
/// Nothing further is assumed of the draw.
#[verifier::external_body]
fn random_below(n: usize) -> (r: usize)
    requires
        0 < n,
    ensures
        r < n,
{
    rand::thread_rng().gen_range(0, n)
}

impl TerrainTile {
    /// Builds the tile this brush generates at `(x, y)` with elevation `e`,
    /// displaying the candidate sprite number `variant`.  Deterministic:
    /// `create_tile` draws the variant at random and delegates here.
    pub fn create_tile_with(&self, x: usize, y: usize, e: usize, variant: usize) -> (r: Tile)
        requires
            variant < self.tiles@.len(),
        ensures
            r.sprite_index == self.tiles@[variant as int],
            r.x == x,
            r.y == y,
            r.height == self.height,
            r.elevation == e,
            r.slope == self.slope,
    {
        Tile {
            sprite_index: self.tiles[variant],
            x,
            y,
            height: self.height,
            elevation: e,
            slope: self.slope,
        }
    }

    /// Generates a tile at `(x, y)` with elevation `e`, choosing one of the
    /// brush's candidate sprites at random.
    pub fn create_tile(self, x: usize, y: usize, e: usize) -> (r: Tile)
        requires
            self.tiles@.len() > 0,
        ensures
            exists|j: int| 0 <= j < self.tiles@.len() && r.sprite_index == self.tiles@[j],
            r.x == x,
            r.y == y,
            r.height == self.height,
            r.elevation == e,
            r.slope == self.slope,
    {
        let variant = random_below(self.tiles.len());
        self.create_tile_with(x, y, e, variant)
    }
}

/// A transient per-tile UI marker (the editor's mouse-over highlight).
pub struct TileUIElement {
    pub tile_x: usize,
    pub tile_y: usize,
    pub el_type: TileUIElementType,
}

/// What a [`TileUIElement`] marks.
#[derive(Clone, Copy, PartialEq, Eq, Structural, Debug)]
pub enum TileUIElementType {
    EditorMouseOver,
}

} // verus!
