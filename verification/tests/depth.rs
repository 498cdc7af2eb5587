use isotile::coords::COORD_ONE;
use isotile::depth::{tile_layer_value, tile_placement, tile_ui_placement, z_value_iso, TileLayer};
use isotile::editor::tile_ui_plan;

#[test]
fn layer_ladder_is_strictly_increasing() {
    let ladder = [
        vec![TileLayer::Base],
        vec![TileLayer::BaseUI],
        vec![TileLayer::ObjectUL, TileLayer::ObjectUR, TileLayer::ObjectCU],
        vec![TileLayer::ObjectCLU, TileLayer::ObjectCRU],
        vec![TileLayer::ObjectLU, TileLayer::ObjectRU],
        vec![TileLayer::ObjectC],
        vec![TileLayer::ObjectLD, TileLayer::ObjectRD],
        vec![TileLayer::ObjectCLD, TileLayer::ObjectCRD],
        vec![TileLayer::ObjectDL, TileLayer::ObjectDR, TileLayer::ObjectCD],
        vec![TileLayer::ObjectUI],
    ];
    for (rank, group) in ladder.iter().enumerate() {
        for layer in group {
            assert_eq!(tile_layer_value(*layer), rank as i64);
        }
    }
}

#[test]
fn depth_exact_values() {
    // Cell (1, 0), base layer: (1 + 0 + 0) * 20 sub-depths per sub-unit.
    assert_eq!(z_value_iso(COORD_ONE, 0, 0, TileLayer::Base), 20 * COORD_ONE);
    // The overlay sits one ladder step above: + COORD_ONE.
    assert_eq!(z_value_iso(COORD_ONE, 0, 0, TileLayer::BaseUI), 20 * COORD_ONE + COORD_ONE);
}

#[test]
fn depth_orders_sublayers_within_a_cell() {
    // Two object sub-layers drawn back to front at one cell keep their order.
    let back = z_value_iso(3 * COORD_ONE, 4 * COORD_ONE, 0, TileLayer::ObjectCU);
    let front = z_value_iso(3 * COORD_ONE, 4 * COORD_ONE, 0, TileLayer::ObjectDL);
    assert!(back < front);
}

#[test]
fn depth_never_interleaves_adjacent_cells() {
    // The top-most layer of a cell still draws behind the bottom layer of
    // the next cell toward the viewer.
    let back_top = z_value_iso(2 * COORD_ONE, 2 * COORD_ONE, 0, TileLayer::ObjectUI);
    let front_bottom = z_value_iso(2 * COORD_ONE, 3 * COORD_ONE, 0, TileLayer::Base);
    assert!(back_top < front_bottom);
}

#[test]
fn tile_placement_render_values() {
    // Cell (2, 1), elevation 1, height 3: world position with render y
    // negated, and the base-layer depth.
    let (rx, ry, z) = tile_placement(2, 1, 1, 3);
    assert_eq!(rx, (2 - 1) * 32 * COORD_ONE);
    assert_eq!(ry, -((2 + 1) * 16 * COORD_ONE - 32 * COORD_ONE + 3 * COORD_ONE));
    assert_eq!(z, (2 + 1) * 20 * COORD_ONE);
}

#[test]
fn tile_ui_placement_sits_on_the_overlay_layer() {
    // The highlight rides a quarter tile above the flat anchor and one
    // ladder step above the base depth.
    let (rx, ry, z) = tile_ui_placement(1, 1, 0);
    assert_eq!(rx, 0);
    assert_eq!(ry, -(2 * 16 * COORD_ONE + 16 * COORD_ONE));
    assert_eq!(z, 2 * 20 * COORD_ONE + COORD_ONE);
}

#[test]
fn highlight_plan_keeps_only_the_picked_marker() {
    let markers = vec![(1, 1), (2, 3), (4, 4)];
    let (remove, create) = tile_ui_plan(&markers, Some((2, 3)));
    assert_eq!(remove, vec![true, false, true]);
    assert!(!create);
    let (remove, create) = tile_ui_plan(&markers, Some((0, 0)));
    assert_eq!(remove, vec![true, true, true]);
    assert!(create);
    let (remove, create) = tile_ui_plan(&markers, None);
    assert_eq!(remove, vec![true, true, true]);
    assert!(!create);
    let (remove, create) = tile_ui_plan(&Vec::new(), Some((1, 2)));
    assert!(remove.is_empty());
    assert!(create);
}
