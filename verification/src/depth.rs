//! Render depth ordering and sprite placement.
//!
//! Every drawable gets a single scalar depth from its map position and its
//! draw layer; sorting ascending yields back-to-front paint order.  The
//! depth of a position is `(x + y + z + layer_offset) / 1000` with layer
//! offsets in twentieths of a map unit; it is returned here as an exact
//! integer scaled by `20 * COORD_ONE * 1000` — order, which is all the
//! renderer consumes, is preserved exactly.

use crate::coords::{
    map_to_world_iso, world_x_of_map, world_y_of_map_elevated, COORD_LIMIT, COORD_ONE, MAX_MAP_DIM,
    QUARTER_TILE,
};
use crate::terrain::MAX_TILE_HEIGHT;
use vstd::prelude::*;

verus! {

/// A draw layer: the base tile, its UI overlay, the ladder of object
/// sub-layers (named for the tile quadrant or edge an object occupies,
/// back to front), and the top-most UI layer.
#[derive(Clone, Copy, PartialEq, Eq, Structural, Debug)]
pub enum TileLayer {
    Base,
    BaseUI,
    ObjectUL,
    ObjectUR,
    ObjectCU,
    ObjectCLU,
    ObjectCRU,
    ObjectLU,
    ObjectRU,
    ObjectC,
    ObjectLD,
    ObjectRD,
    ObjectCLD,
    ObjectCRD,
    ObjectDL,
    ObjectDR,
    ObjectCD,
    ObjectUI,
}

/// Rank of a layer in the paint-order ladder, in twentieths of a map unit:
/// strictly increasing through the ladder, never more than nine.
pub open spec fn layer_rank(layer: TileLayer) -> int {
    match layer {
        TileLayer::Base => 0,
        TileLayer::BaseUI => 1,
        TileLayer::ObjectUL | TileLayer::ObjectUR | TileLayer::ObjectCU => 2,
        TileLayer::ObjectCLU | TileLayer::ObjectCRU => 3,
        TileLayer::ObjectLU | TileLayer::ObjectRU => 4,
        TileLayer::ObjectC => 5,
        TileLayer::ObjectLD | TileLayer::ObjectRD => 6,
        TileLayer::ObjectCLD | TileLayer::ObjectCRD => 7,
        TileLayer::ObjectDL | TileLayer::ObjectDR | TileLayer::ObjectCD => 8,
        TileLayer::ObjectUI => 9,
    }
}

/// Depth of a map-space position on a layer, scaled by
/// `20 * COORD_ONE * 1000`.
pub open spec fn depth_of(map_x: int, map_y: int, map_z: int, layer: TileLayer) -> int {
    (map_x + map_y + map_z) * 20 + layer_rank(layer) * (COORD_ONE as int)
}

/// The layer's rank in the paint-order ladder, in twentieths of a map unit.
pub fn tile_layer_value(layer: TileLayer) -> (r: i64)
    ensures
        r == layer_rank(layer),
        0 <= r <= 9,
{
    match layer {
        TileLayer::Base => 0,
        TileLayer::BaseUI => 1,
        TileLayer::ObjectUL | TileLayer::ObjectUR | TileLayer::ObjectCU => 2,
        TileLayer::ObjectCLU | TileLayer::ObjectCRU => 3,
        TileLayer::ObjectLU | TileLayer::ObjectRU => 4,
        TileLayer::ObjectC => 5,
        TileLayer::ObjectLD | TileLayer::ObjectRD => 6,
        TileLayer::ObjectCLD | TileLayer::ObjectCRD => 7,
        TileLayer::ObjectDL | TileLayer::ObjectDR | TileLayer::ObjectCD => 8,
        TileLayer::ObjectUI => 9,
    }
}

/// Depth value for a map-space position and a draw layer.
pub fn z_value_iso(map_x: i64, map_y: i64, map_z: i64, layer: TileLayer) -> (r: i64)
    requires
        -COORD_LIMIT <= map_x <= COORD_LIMIT,
        -COORD_LIMIT <= map_y <= COORD_LIMIT,
        -COORD_LIMIT <= map_z <= COORD_LIMIT,
    ensures
        r == depth_of(map_x as int, map_y as int, map_z as int, layer),
{
    (map_x + map_y + map_z) * 20 + tile_layer_value(layer) * COORD_ONE
}

/// At one map position the ladder paints lower-ranked layers first: depth
/// respects the ladder order.
pub proof fn lemma_depth_layer_order(map_x: int, map_y: int, map_z: int, l1: TileLayer, l2: TileLayer)
    requires
        layer_rank(l1) < layer_rank(l2),
    ensures
        depth_of(map_x, map_y, map_z, l1) < depth_of(map_x, map_y, map_z, l2),
{
}

/// Depths of distinct grid cells never interleave: whatever the layers, a
/// position whose coordinate sum is at least one full cell behind another
/// draws strictly earlier.  The layer offsets stay within one cell's worth
/// of depth, so they can never reorder cells.
pub proof fn lemma_depth_cell_order(
    x1: int, y1: int, z1: int, l1: TileLayer,
    x2: int, y2: int, z2: int, l2: TileLayer,
)
    requires
        x1 + y1 + z1 + COORD_ONE as int <= x2 + y2 + z2,
    ensures
        depth_of(x1, y1, z1, l1) < depth_of(x2, y2, z2, l2),
{
    assert(layer_rank(l1) <= 9);
    assert(layer_rank(l2) >= 0);
}

/// World-space render placement of a tile: x, render y (world y negated),
/// and the base-layer depth — exactly what the editor sets on a tile's
/// transform.  The full height nudge is applied, as the sprite is drawn
/// with it.
pub fn tile_placement(x: usize, y: usize, elevation: usize, height: usize) -> (r: (i64, i64, i64))
    requires
        x < MAX_MAP_DIM,
        y < MAX_MAP_DIM,
        elevation <= 9,
        height <= MAX_TILE_HEIGHT,
    ensures
        r.0 == world_x_of_map(x * COORD_ONE as int, y * COORD_ONE as int),
        r.1 == -world_y_of_map_elevated(
            x * COORD_ONE as int,
            y * COORD_ONE as int,
            elevation * COORD_ONE as int,
            height * COORD_ONE as int,
        ),
        r.2 == depth_of(x * COORD_ONE as int, y * COORD_ONE as int, 0, TileLayer::Base),
{
    let mx = (x as i64) * COORD_ONE;
    let my = (y as i64) * COORD_ONE;
    let (wx, wy) = map_to_world_iso(mx, my, (elevation as i64) * COORD_ONE, (height as i64) * COORD_ONE);
    let z = z_value_iso(mx, my, 0, TileLayer::Base);
    (wx, -wy, z)
}

/// World-space render placement of a tile's UI overlay: like the tile but a
/// quarter tile higher (the overlay sits on the diamond's face) and on the
/// overlay layer.
pub fn tile_ui_placement(x: usize, y: usize, elevation: usize) -> (r: (i64, i64, i64))
    requires
        x < MAX_MAP_DIM,
        y < MAX_MAP_DIM,
        elevation <= 9,
    ensures
        r.0 == world_x_of_map(x * COORD_ONE as int, y * COORD_ONE as int),
        r.1 == -world_y_of_map_elevated(
            x * COORD_ONE as int,
            y * COORD_ONE as int,
            elevation * COORD_ONE as int,
            QUARTER_TILE as int * COORD_ONE as int,
        ),
        r.2 == depth_of(x * COORD_ONE as int, y * COORD_ONE as int, 0, TileLayer::BaseUI),
{
    let mx = (x as i64) * COORD_ONE;
    let my = (y as i64) * COORD_ONE;
    let (wx, wy) = map_to_world_iso(mx, my, (elevation as i64) * COORD_ONE, QUARTER_TILE * COORD_ONE);
    let z = z_value_iso(mx, my, 0, TileLayer::BaseUI);
    (wx, -wy, z)
}

} // verus!
