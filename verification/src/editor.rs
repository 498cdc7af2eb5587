//! Editor interaction decisions: what the per-frame highlight pass should
//! do, given the current markers and the picking result.  The entity work
//! itself stays with the engine-facing loop.

use crate::tile::TerrainTile;
use vstd::prelude::*;

verus! {

/// What the editor currently paints with.
pub enum EditorMode {
    Idle,
    Terrain(TerrainTile),
}

/// Plans the highlight update for one frame.  `markers` holds the grid
/// coordinates of the existing highlight markers, `pick` the cell under
/// the pointer, if any.  Returns one removal flag per marker — every
/// marker not on the picked cell goes — and whether a new marker must be
/// created on the picked cell (only when no marker sits there already).
pub fn tile_ui_plan(markers: &Vec<(usize, usize)>, pick: Option<(usize, usize)>) -> (r: (
    Vec<bool>,
    bool,
))
    ensures
        r.0@.len() == markers@.len(),
        pick is None ==> (forall|i: int| 0 <= i < markers@.len() ==> #[trigger] r.0@[i] == true)
            && r.1 == false,
        pick matches Some(p) ==> {
            &&& forall|i: int| 0 <= i < markers@.len() ==> #[trigger] r.0@[i] == (markers@[i] != p)
            &&& r.1 == !(exists|i: int| 0 <= i < markers@.len() && #[trigger] markers@[i] == p)
        },
{
    match pick {
        Some(p) => {
            let mut remove: Vec<bool> = Vec::new();
            let mut found = false;
            let mut i: usize = 0;
            while i < markers.len()
                invariant
                    i <= markers@.len(),
                    remove@.len() == i,
                    forall|k: int| 0 <= k < i ==> #[trigger] remove@[k] == (markers@[k] != p),
                    found == exists|k: int| 0 <= k < i && #[trigger] markers@[k] == p,
                decreases markers@.len() - i,
            {
                let m = markers[i];
                let stays = m.0 == p.0 && m.1 == p.1;
                remove.push(!stays);
                if stays {
                    found = true;
                }
                i = i + 1;
            }
            (remove, !found)
        },
        None => {
            let mut remove: Vec<bool> = Vec::new();
            let mut i: usize = 0;
            while i < markers.len()
                invariant
                    i <= markers@.len(),
                    remove@.len() == i,
                    forall|k: int| 0 <= k < i ==> #[trigger] remove@[k] == true,
                decreases markers@.len() - i,
            {
                remove.push(true);
                i = i + 1;
            }
            (remove, false)
        },
    }
}

} // verus!
