use sparse_tilemap::coords::{
    cell_to_chunk_cell, cell_to_chunk_pos, Cell, ChunkCell, ChunkPos, ChunkTilePos, TilePos, UVec2,
};
use sparse_tilemap::hex::{hex_offset_from_orientation, hex_rotation_degrees, HexOrientation, OffsetHexMode};
use sparse_tilemap::layer::{ChunkLayer, LayerError};
use sparse_tilemap::chunk::{ChunkSettings, Topology};
use sparse_tilemap::tilemap::{Chunks, Tilemap};
use sparse_tilemap::coords::Entity;

#[test]
fn square_conversion() {
    let m = UVec2::new(10, 10);
    assert_eq!(cell_to_chunk_pos(Cell::new(12, 31), m), ChunkPos::new(1, 3));
    assert_eq!(cell_to_chunk_cell(Cell::new(12, 31), m), ChunkCell::new(2, 1));
}

#[test]
fn negative_cells_round_down() {
    let m = UVec2::new(10, 4);
    assert_eq!(cell_to_chunk_pos(Cell::new(-1, -4), m), ChunkPos::new(-1, -1));
    assert_eq!(cell_to_chunk_cell(Cell::new(-1, -4), m), ChunkCell::new(9, 0));
    assert_eq!(cell_to_chunk_pos(Cell::new(-11, -5), m), ChunkPos::new(-2, -2));
    assert_eq!(cell_to_chunk_cell(Cell::new(-11, -5), m), ChunkCell::new(9, 3));
    assert_eq!(cell_to_chunk_pos(Cell::new(i32::MIN, i32::MAX), UVec2::new(1, 1)), ChunkPos::new(i32::MIN, i32::MAX));
}

#[test]
fn accessors() {
    let p = ChunkPos::new(3, -4);
    assert_eq!((p.x(), p.y()), (3, -4));
    let c = ChunkCell::new(5, 6);
    assert_eq!((c.x(), c.y()), (5, 6));
    let t = ChunkTilePos::new(7, 8);
    assert_eq!((t.x(), t.y()), (7, 8));
    let tp = TilePos::new(23, 9);
    assert_eq!(tp.into_chunk_tile_pos(UVec2::new(10, 4)), ChunkTilePos::new(3, 1));
}

#[test]
fn hex_orientation_mapping() {
    assert_eq!(hex_offset_from_orientation(HexOrientation::Pointy), OffsetHexMode::OddRows);
    assert_eq!(hex_offset_from_orientation(HexOrientation::Flat), OffsetHexMode::OddColumns);
    assert_eq!(hex_rotation_degrees(HexOrientation::Pointy), 0);
    assert_eq!(hex_rotation_degrees(HexOrientation::Flat), 30);
}

#[test]
fn layer_storage_kinds() {
    let mut dense: ChunkLayer<u16> = ChunkLayer::new_dense_uniform(3, 2, 7);
    let mut sparse: ChunkLayer<u16> = ChunkLayer::new_sparse_empty(3, 2);
    let default: ChunkLayer<u16> = ChunkLayer::new_dense_default(3, 2);
    assert_eq!(default.get_tile_data(ChunkCell::new(2, 1)), Some(0));
    assert_eq!(dense.get_chunk_dimensions(), UVec2::new(3, 2));
    assert_eq!(sparse.get_chunk_dimensions(), UVec2::new(3, 2));
    assert_eq!(dense.get_tile_data(ChunkCell::new(2, 1)), Some(7));
    assert_eq!(sparse.get_tile_data(ChunkCell::new(2, 1)), None);
    dense.set_tile_data(ChunkCell::new(2, 1), 9);
    sparse.set_tile_data(ChunkCell::new(2, 1), 9);
    assert_eq!(dense.get_tile_data(ChunkCell::new(2, 1)), Some(9));
    assert_eq!(sparse.get_tile_data(ChunkCell::new(2, 1)), Some(9));
    assert_eq!(sparse.get_tile_data(ChunkCell::new(1, 1)), None);
    assert_eq!(dense.get_tile_data(ChunkCell::new(3, 1)), None);
    let ragged = vec![vec![1u16, 2], vec![3]];
    assert_eq!(ChunkLayer::new_dense_from_vecs(&ragged).err(), Some(LayerError::MalformedInputGrid));
}

#[test]
fn chunk_registry() {
    let ragged = vec![vec![Entity(0), Entity(1)], vec![Entity(2)]];
    assert_eq!(Chunks::new_chunk_entity_grid(ragged).err(), Some(LayerError::MalformedInputGrid));
    let grid = Chunks::new_chunk_entity_grid(vec![vec![Entity(0), Entity(1)], vec![Entity(2), Entity(3)]]).unwrap();
    let chunks = Chunks::new(grid, UVec2::new(4, 4));
    assert_eq!(chunks.get_chunk(ChunkPos::new(1, 0)), Some(Entity(1)));
    assert_eq!(chunks.get_chunk(ChunkPos::new(0, 1)), Some(Entity(2)));
    assert_eq!(chunks.get_chunk(ChunkPos::new(2, 0)), None);
    assert_eq!(chunks.get_chunk(ChunkPos::new(-1, 0)), None);
    assert_eq!(chunks.chunk_counts(), UVec2::new(2, 2));
    assert_eq!(chunks.max_chunk_size(), UVec2::new(4, 4));
}

#[test]
fn tilemap_registry_access() {
    let grid = Chunks::new_chunk_entity_grid(vec![vec![Entity(4), Entity(5)]]).unwrap();
    let s = ChunkSettings { max_chunk_size: UVec2::new(3, 3), topology: Topology::Square };
    let mut map = Tilemap::new(Chunks::new(grid, UVec2::new(3, 3)), s);
    assert_eq!(map.get_chunk_for_cell(Cell::new(4, 2)), Some(Entity(5)));
    assert_eq!(map.get_chunk_for_cell(Cell::new(4, 3)), None);
    assert_eq!(map.get_chunk_for_cell(Cell::new(-1, 0)), None);
    assert_eq!(map.get_chunk(ChunkPos::new(0, 0)), Some(Entity(4)));
    assert_eq!(map.get_chunks_max_size(), UVec2::new(3, 3));
    map.chunks_mut().max_chunk_size = UVec2::new(6, 6);
    assert_eq!(map.chunks().max_chunk_size(), UVec2::new(6, 6));
}
