use isotile::error::MapError;
use isotile::mapdata::{MapData, MapDimensions, TileMap};
use isotile::terrain::{default_description, TerrainSet};
use isotile::tile::{slope_none, Slope, TerrainTile, Tile};

fn brush(name: &str, code: char, sprites: Vec<usize>, height: usize, slope: Slope) -> TerrainTile {
    TerrainTile { name: name.to_owned(), char_code: code, tiles: sprites, height, slope }
}

fn catalog() -> TerrainSet {
    TerrainSet {
        texture_file: "terrain".to_owned(),
        texture_format: "png".to_owned(),
        desc: default_description(),
        tile_size: 32,
        num_tiles: 4,
        tiles: vec![
            brush("grass", 'g', vec![0], 0, Slope::Flat),
            brush("water", 'w', vec![1, 2, 3], 2, Slope::Flat),
            brush("grass again", 'g', vec![9], 7, Slope::NW),
        ],
    }
}

fn map(width: usize, height: usize, data: &str) -> MapData {
    MapData {
        dimensions: MapDimensions { width, height },
        terrain_file: "pack".to_owned(),
        data: data.to_owned(),
        tiles: Vec::new(),
    }
}

#[test]
fn build_tiles_two_char_format() {
    let mut m = map(2, 2, "g0w1g2g9");
    m.build_tiles(&catalog()).unwrap();
    assert_eq!(m.tiles.len(), 2);
    assert_eq!(m.tiles[0].len(), 2);
    let t00 = &m.tiles[0][0];
    assert_eq!((t00.x, t00.y, t00.elevation, t00.height, t00.sprite_index), (0, 0, 0, 0, 0));
    let t01 = &m.tiles[0][1];
    assert_eq!((t01.x, t01.y, t01.elevation, t01.height), (1, 0, 1, 2));
    assert!(vec![1, 2, 3].contains(&t01.sprite_index));
    let t11 = &m.tiles[1][1];
    assert_eq!((t11.x, t11.y, t11.elevation), (1, 1, 9));
}

#[test]
fn build_tiles_legacy_format() {
    // One character per cell: elevation is always zero.
    let mut m = map(3, 2, "ggwwgg");
    m.build_tiles(&catalog()).unwrap();
    assert_eq!(m.tiles.len(), 2);
    for row in &m.tiles {
        assert_eq!(row.len(), 3);
        for t in row {
            assert_eq!(t.elevation, 0);
        }
    }
    assert_eq!(m.tiles[1][0].height, 2);
}

#[test]
fn build_tiles_rejects_length_mismatch() {
    // Five characters fit neither one nor two characters per 2x2 cell.
    let mut m = map(2, 2, "g0g0g");
    assert_eq!(m.build_tiles(&catalog()), Err(MapError::DataLengthMismatch));
    assert!(m.tiles.is_empty());
    let mut m = map(2, 2, "g0g");
    assert_eq!(m.build_tiles(&catalog()), Err(MapError::DataLengthMismatch));
    assert!(m.tiles.is_empty());
}

#[test]
fn build_tiles_rejects_zero_dimensions() {
    let mut m = map(0, 4, "gggg");
    assert_eq!(m.build_tiles(&catalog()), Err(MapError::ZeroDimensions));
    let mut m = map(4, 0, "gggg");
    assert_eq!(m.build_tiles(&catalog()), Err(MapError::ZeroDimensions));
}

#[test]
fn build_tiles_rejects_unknown_code() {
    let mut m = map(2, 1, "gx");
    assert_eq!(m.build_tiles(&catalog()), Err(MapError::UnknownTerrainCode));
    assert!(m.tiles.is_empty());
}

#[test]
fn build_tiles_rejects_bad_elevation_digit() {
    let mut m = map(1, 1, "gx");
    assert_eq!(m.build_tiles(&catalog()), Err(MapError::InvalidElevation));
    // The digit is checked before the code: 'x' as a code would also fail,
    // but the elevation character is rejected first within a cell.
    let mut m = map(1, 1, "xx");
    assert_eq!(m.build_tiles(&catalog()), Err(MapError::InvalidElevation));
}

#[test]
fn find_terrain_first_match_wins() {
    // Two brushes share the code 'g': lookup returns the earlier one.
    let c = catalog();
    let t = c.find_terrain('g').unwrap();
    assert_eq!(t.name, "grass");
    assert_eq!(t.height, 0);
    assert!(c.find_terrain('x').is_err());
    assert_eq!(c.find_terrain('x').unwrap_err(), MapError::UnknownTerrainCode);
}

#[test]
fn create_tile_draws_a_listed_sprite() {
    // The random variant draw must land inside the brush's candidate list;
    // with a single candidate the sprite is pinned exactly.
    let c = catalog();
    for _ in 0..32 {
        let t = c.create_tile('w', 3, 4, 5).unwrap();
        assert!(vec![1, 2, 3].contains(&t.sprite_index));
        assert_eq!((t.x, t.y, t.elevation, t.height), (3, 4, 5, 2));
    }
    let t = c.create_tile('g', 0, 0, 0).unwrap();
    assert_eq!(t.sprite_index, 0);
}

#[test]
fn create_tile_with_is_deterministic() {
    let b = brush("water", 'w', vec![1, 2, 3], 2, Slope::SE);
    let t = b.create_tile_with(5, 6, 7, 2);
    assert_eq!(t.sprite_index, 3);
    assert_eq!((t.x, t.y, t.elevation, t.height), (5, 6, 7, 2));
    assert_eq!(t.slope, Slope::SE);
}

#[test]
fn tile_map_build_and_get() {
    let mut m = map(3, 2, "g0g1g2g3g4g5");
    m.build_tiles(&catalog()).unwrap();
    let tm = TileMap::build(&m);
    assert_eq!(tm.v.len(), 6);
    for y in 0..2 {
        for x in 0..3 {
            let t = tm.get(x, y, 3);
            assert_eq!((t.x, t.y), (x, y));
            assert_eq!(t.elevation, y * 3 + x);
        }
    }
}

#[test]
fn defaults_and_helpers() {
    let d = MapDimensions::default();
    assert_eq!((d.width, d.height), (0, 0));
    let m = MapData::default();
    assert_eq!((m.dimensions.width, m.dimensions.height), (0, 0));
    assert_eq!(m.terrain_file, "");
    assert_eq!(m.data, "");
    assert_eq!(m.tiles.len(), 1);
    assert!(m.tiles[0].is_empty());
    assert_eq!(default_description(), "No Description");
    assert_eq!(slope_none(), Slope::Flat);
    let t = Tile::new();
    assert_eq!((t.sprite_index, t.x, t.y, t.height, t.elevation), (0, 0, 0, 0, 0));
    assert_eq!(MapError::UnknownTerrainCode.message(), "tile incompatible with terrain set");
}
