//! The terrain catalog: a named set of terrain brushes looked up by
//! character code when map data is materialized.

use crate::error::MapError;
use crate::tile::{Tile, TerrainTile};
use vstd::prelude::*;

verus! {

/// Upper bound on a terrain brush's `height` nudge, in world units.  Keeps
/// the picking engine's fixed-point arithmetic far inside `i64`.
pub const MAX_TILE_HEIGHT: usize = 4096;

/// Index of the first brush in `s` whose character code is `c`, or `-1`
/// when none matches.  Lookup is first-match: a catalog with duplicate
/// codes silently resolves to the earlier brush.
pub open spec fn terrain_index(s: Seq<TerrainTile>, c: char) -> int
    decreases s.len(),
{
    if s.len() == 0 {
        -1
    } else if s[0].char_code == c {
        0
    } else {
        let rest = terrain_index(s.skip(1), c);
        if rest == -1 {
            -1
        } else {
            rest + 1
        }
    }
}

/// `terrain_index` returns `-1` exactly when no brush matches, and
/// otherwise the position of the first matching brush.
pub proof fn lemma_terrain_index(s: Seq<TerrainTile>, c: char)
    ensures
        terrain_index(s, c) == -1 ==> forall|i: int| 0 <= i < s.len() ==> s[i].char_code != c,
        terrain_index(s, c) != -1 ==> {
            let idx = terrain_index(s, c);
            &&& 0 <= idx < s.len()
            &&& s[idx].char_code == c
            &&& forall|i: int| 0 <= i < idx ==> s[i].char_code != c
        },
    decreases s.len(),
{
    if s.len() == 0 {
    } else if s[0].char_code == c {
    } else {
        lemma_terrain_index(s.skip(1), c);
        assert forall|i: int| 0 <= i < s.len() && s[i].char_code == c implies i >= 1 by {
            if i >= 1 {
                assert(s.skip(1)[i - 1] == s[i]);
            }
        }
        if terrain_index(s, c) != -1 {
            let idx = terrain_index(s.skip(1), c);
            assert(s.skip(1)[idx] == s[idx + 1]);
            assert forall|i: int| 0 <= i < idx + 1 implies s[i].char_code != c by {
                if i >= 1 {
                    assert(s.skip(1)[i - 1] == s[i]);
                }
            }
        } else {
            assert forall|i: int| 0 <= i < s.len() implies s[i].char_code != c by {
                if i >= 1 {
                    assert(s.skip(1)[i - 1] == s[i]);
                }
            }
        }
    }
}

/// A terrain catalog: the sprite-sheet it references and the ordered brushes
/// it offers.
#[derive(Debug)]
pub struct TerrainSet {
    pub texture_file: String,
    pub texture_format: String,
    pub desc: String,
    pub tile_size: usize,
    pub num_tiles: usize,
    pub tiles: Vec<TerrainTile>,
}

/// Serde default for a catalog's description.
pub fn default_description() -> (r: String)
    ensures
        r@ == "No Description"@,
{
    "No Description".to_owned()
}

impl TerrainSet {
    /// A usable catalog: every brush offers at least one sprite (so tile
    /// generation cannot fail) and heights stay within the fixed-point range.
    pub open spec fn wf(self) -> bool {
        forall|i: int| 0 <= i < self.tiles@.len() ==> {
            &&& (#[trigger] self.tiles@[i]).tiles@.len() > 0
            &&& self.tiles@[i].height <= MAX_TILE_HEIGHT
        }
    }

    /// Looks up the first brush matching character code `t`; fails when the
    /// catalog defines none (a corrupt or mismatched catalog/map pairing).
    pub fn find_terrain(&self, t: char) -> (r: Result<TerrainTile, MapError>)
        ensures
            terrain_index(self.tiles@, t) >= 0 <==> r is Ok,
            r matches Ok(tt) ==> tt.equiv(self.tiles@[terrain_index(self.tiles@, t)]),
            r matches Err(e) ==> e == MapError::UnknownTerrainCode,
    {
        proof {
            lemma_terrain_index(self.tiles@, t);
        }
        let mut i: usize = 0;
        while i < self.tiles.len()
            invariant
                i <= self.tiles@.len(),
                forall|k: int| 0 <= k < i ==> self.tiles@[k].char_code != t,
            decreases self.tiles@.len() - i,
        {
            if self.tiles[i].char_code == t {
                proof {
                    lemma_terrain_index(self.tiles@, t);
                    assert(terrain_index(self.tiles@, t) == i);
                }
                return Ok(self.tiles[i].clone());
            }
            i = i + 1;
        }
        proof {
            lemma_terrain_index(self.tiles@, t);
        }
        Err(MapError::UnknownTerrainCode)
    }

    /// Generates the tile that character code `t` produces at `(x, y)` with
    /// elevation `e`, or fails when the code matches no brush.
    pub fn create_tile(&self, t: char, x: usize, y: usize, e: usize) -> (r: Result<Tile, MapError>)
        requires
            self.wf(),
        ensures
            terrain_index(self.tiles@, t) >= 0 <==> r is Ok,
            r matches Ok(tile) ==> {
                let def = self.tiles@[terrain_index(self.tiles@, t)];
                &&& tile.x == x
                &&& tile.y == y
                &&& tile.elevation == e
                &&& tile.height == def.height
                &&& tile.slope == def.slope
                &&& exists|j: int| 0 <= j < def.tiles@.len() && tile.sprite_index == def.tiles@[j]
            },
            r matches Err(err) ==> err == MapError::UnknownTerrainCode,
    {
        match self.find_terrain(t) {
            Ok(def) => {
                proof {
                    lemma_terrain_index(self.tiles@, t);
                }
                Ok(def.create_tile(x, y, e))
            },
            Err(e) => Err(e),
        }
    }
}

} // verus!
