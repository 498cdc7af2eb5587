use isotile::coords::COORD_ONE;
use isotile::mapdata::TileMap;
use isotile::picking::{tile_exists, world_to_map_iso};
use isotile::tile::{Slope, Tile};

/// A width-by-height index whose cells carry the given elevations (height 0).
fn grid(width: usize, height: usize, elevations: &[&[usize]]) -> TileMap {
    let mut v = Vec::new();
    for y in 0..height {
        for x in 0..width {
            v.push(Tile {
                sprite_index: 0,
                x,
                y,
                height: 0,
                elevation: elevations[y][x],
                slope: Slope::Flat,
            });
        }
    }
    TileMap { v }
}

fn flat(width: usize, height: usize) -> TileMap {
    let rows: Vec<Vec<usize>> = (0..height).map(|_| vec![0; width]).collect();
    let borrowed: Vec<&[usize]> = rows.iter().map(|r| r.as_slice()).collect();
    grid(width, height, &borrowed)
}

/// World-space centre of cell `(x, y)`'s flat diamond.
fn flat_center(x: i64, y: i64) -> (i64, i64) {
    ((x - y) * 32 * COORD_ONE, (x + y) * 16 * COORD_ONE + 16 * COORD_ONE)
}

#[test]
fn tile_exists_bounds() {
    assert!(tile_exists(0, 0, 1, 1));
    assert!(tile_exists(4, 2, 5, 3));
    assert!(!tile_exists(-1, 0, 5, 5));
    assert!(!tile_exists(0, -3, 5, 5));
    assert!(!tile_exists(5, 0, 5, 5));
    assert!(!tile_exists(0, 5, 5, 5));
}

#[test]
fn picking_determinism_flat_grid() {
    // Every flat diamond centre of a 5x5 all-flat grid picks its own cell.
    let tm = flat(5, 5);
    for y in 0..5i64 {
        for x in 0..5i64 {
            let (qx, qy) = flat_center(x, y);
            assert_eq!(world_to_map_iso(qx, qy, 5, 5, &tm), Some((x as usize, y as usize)));
        }
    }
}

#[test]
fn picking_occlusion_raised_tile() {
    // Cell (0, 0) raised three levels: the centre of its raised silhouette
    // resolves to (0, 0)...
    let tm = grid(2, 2, &[&[3, 0], &[0, 0]]);
    let q = (0, -3 * 32 * COORD_ONE + 16 * COORD_ONE);
    assert_eq!(q, (0, -5120));
    assert_eq!(world_to_map_iso(q.0, q.1, 2, 2, &tm), Some((0, 0)));
    // ...while on an all-flat map the same point is over empty sky.
    let flat_tm = flat(2, 2);
    assert_eq!(world_to_map_iso(q.0, q.1, 2, 2, &flat_tm), None);
    // The neighbouring cell (0, 1) keeps its own flat diamond.
    let (cx, cy) = flat_center(0, 1);
    assert_eq!(world_to_map_iso(cx, cy, 2, 2, &tm), Some((0, 1)));
}

#[test]
fn picking_out_of_bounds_is_none() {
    // A point a million world units away from a 10x10 map picks nothing.
    let tm = flat(10, 10);
    let far = 1_000_000 * COORD_ONE;
    assert_eq!(world_to_map_iso(far, far, 10, 10, &tm), None);
    assert_eq!(world_to_map_iso(-far, -far, 10, 10, &tm), None);
    assert_eq!(world_to_map_iso(far, -far, 10, 10, &tm), None);
}

#[test]
fn picking_edge_classification() {
    // The midpoint of the edge shared by the diamonds of (2, 2) and (2, 3)
    // resolves to exactly one of the two cells, and a one-sub-unit nudge
    // across the edge lands in the expected neighbour.
    let tm = flat(5, 5);
    assert_eq!(world_to_map_iso(-1024, 5632, 5, 5, &tm), Some((2, 2)));
    assert_eq!(world_to_map_iso(-1024, 5631, 5, 5, &tm), Some((2, 2)));
    assert_eq!(world_to_map_iso(-1024, 5633, 5, 5, &tm), Some((2, 3)));
    assert_eq!(world_to_map_iso(-1023, 5632, 5, 5, &tm), Some((2, 2)));
    assert_eq!(world_to_map_iso(-1025, 5632, 5, 5, &tm), Some((2, 3)));
}

#[test]
fn picking_determinism_with_height_nudges() {
    // Sub-tile height nudges below half a tile never change which flat
    // diamond centre picks which cell.
    let mut v = Vec::new();
    for y in 0..4usize {
        for x in 0..4usize {
            v.push(Tile {
                sprite_index: 0,
                x,
                y,
                height: (x + 3 * y) % 31,
                elevation: 0,
                slope: Slope::Flat,
            });
        }
    }
    let tm = TileMap { v };
    for y in 0..4i64 {
        for x in 0..4i64 {
            let (qx, qy) = flat_center(x, y);
            assert_eq!(world_to_map_iso(qx, qy, 4, 4, &tm), Some((x as usize, y as usize)));
        }
    }
}
