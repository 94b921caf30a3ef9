use sparse_tilemap::chunk::{Chunk, ChunkError, ChunkSettings, Topology, DEFAULT_LAYER};
use sparse_tilemap::coords::{Cell, ChunkCell, ChunkPos, Entity, UVec2};
use sparse_tilemap::layer::ChunkLayerType;

#[derive(Clone, Copy, Default, PartialEq, Eq, Debug)]
struct TileData(u8);

const SECONDARY: u32 = 2;

fn settings(x: u32, y: u32) -> ChunkSettings {
    ChunkSettings { max_chunk_size: UVec2::new(x, y), topology: Topology::Square }
}

fn dense_chunk<T: Copy>(rows: Vec<Vec<T>>) -> Chunk<T> {
    Chunk::new(ChunkPos::new(0, 0), UVec2::new(2, 2), &ChunkLayerType::Dense(rows), settings(2, 2))
        .unwrap()
}

fn tuple_rows() -> Vec<Vec<(i32, i32)>> {
    vec![
        vec![(0, 0), (1, 2), (2, 0), (3, 0)],
        vec![(4, 1), (5, 6), (6, 7), (7, 8)],
        vec![(8, 4), (9, 6), (10, 1), (11, 4)],
    ]
}

fn check_new_from_vecs() {
    let chunk = dense_chunk(vec![vec![0, 1, 2, 3], vec![4, 5, 6, 7], vec![8, 9, 10, 11]]);
    assert_eq!(chunk.get_tile_data(DEFAULT_LAYER, ChunkCell::new(0, 0)).unwrap().unwrap(), 0);

    let chunk = dense_chunk(vec![
        vec![TileData(0), TileData(1), TileData(2), TileData(3)],
        vec![TileData(4), TileData(5), TileData(6), TileData(7)],
        vec![TileData(8), TileData(9), TileData(10), TileData(11)],
    ]);
    assert_eq!(
        chunk.get_tile_data(DEFAULT_LAYER, ChunkCell::new(0, 0)).unwrap().unwrap(),
        TileData(0)
    );
    assert_eq!(
        chunk.get_tile_data(DEFAULT_LAYER, ChunkCell::new(3, 2)).unwrap().unwrap(),
        TileData(11)
    );

    let chunk = dense_chunk(tuple_rows());
    assert_eq!(chunk.get_tile_data(DEFAULT_LAYER, ChunkCell::new(0, 0)).unwrap().unwrap(), (0, 0));
    assert_eq!(chunk.get_tile_data(DEFAULT_LAYER, ChunkCell::new(2, 2)).unwrap().unwrap(), (10, 1));
}

#[test]
fn chunk_test_new_from_vecs() {
    check_new_from_vecs();
}

#[test]
fn mod_test_new_from_vecs() {
    check_new_from_vecs();
}

#[test]
fn chunk_test_chunks_tilepos_mapping() {
    let chunk = dense_chunk(tuple_rows());
    assert_eq!(chunk.get_tile_data(DEFAULT_LAYER, ChunkCell::new(3, 2)).unwrap().unwrap(), (11, 4));
}

#[test]
fn mod_test_chunks_tilepos_mapping() {
    let chunk = dense_chunk(tuple_rows());
    assert_eq!(chunk.get_tile_data(DEFAULT_LAYER, ChunkCell::new(3, 2)).unwrap().unwrap(), (11, 4));
}

#[test]
fn chunk_test_setting_chunk_tile() {
    let mut chunk = dense_chunk(tuple_rows());
    chunk.set_tile_data(DEFAULT_LAYER, ChunkCell::new(0, 0), (50, 60)).unwrap();
    assert_eq!(chunk.get_tile_data(DEFAULT_LAYER, ChunkCell::new(0, 0)).unwrap().unwrap(), (50, 60));
}

#[test]
fn mod_test_setting_chunk_tile() {
    let mut chunk = dense_chunk(tuple_rows());
    chunk.set_tile_data(DEFAULT_LAYER, ChunkCell::new(0, 0), (50, 60)).unwrap();
    assert_eq!(chunk.get_tile_data(DEFAULT_LAYER, ChunkCell::new(0, 0)).unwrap().unwrap(), (50, 60));
}

#[test]
fn test_adding_sparse_layer() {
    let entries: Vec<(ChunkCell, (u32, u32))> = vec![(ChunkCell::new(0, 0), (50, 60))];
    let mut chunk: Chunk<(u32, u32)> = Chunk::new(
        ChunkPos::new(0, 0),
        UVec2::new(2, 2),
        &ChunkLayerType::Sparse(Vec::new()),
        settings(2, 2),
    )
    .unwrap();
    chunk.add_layer(SECONDARY, &ChunkLayerType::Sparse(entries)).unwrap();
    assert_eq!(chunk.get_tile_data(SECONDARY, ChunkCell::new(0, 0)).unwrap().unwrap(), (50, 60));
}

#[test]
fn test_adding_dense_layer() {
    let mut chunk: Chunk<(i32, i32)> = Chunk::new(
        ChunkPos::new(0, 0),
        UVec2::new(2, 2),
        &ChunkLayerType::Sparse(Vec::new()),
        settings(2, 2),
    )
    .unwrap();
    chunk.add_layer(SECONDARY, &ChunkLayerType::Dense(tuple_rows())).unwrap();
    assert_eq!(chunk.get_tile_data(SECONDARY, ChunkCell::new(3, 2)).unwrap().unwrap(), (11, 4));
}

#[test]
fn ragged_rows_fail_chunk_construction() {
    let rows = vec![vec![0, 1, 2], vec![4, 5, 6, 7], vec![8, 9, 10, 11]];
    let r: Result<Chunk<i32>, ChunkError> =
        Chunk::new(ChunkPos::new(0, 0), UVec2::new(2, 2), &ChunkLayerType::Dense(rows), settings(2, 2));
    assert_eq!(r.err(), Some(ChunkError::MalformedInputGrid));
}

#[test]
fn missing_layer_is_reported() {
    let mut chunk = dense_chunk(tuple_rows());
    assert_eq!(chunk.get_tile_data(SECONDARY, ChunkCell::new(0, 0)), Err(ChunkError::LayerNotFound));
    assert_eq!(
        chunk.set_tile_data(SECONDARY, ChunkCell::new(0, 0), (1, 1)),
        Err(ChunkError::LayerNotFound)
    );
    assert_eq!(chunk.get_tile_entity(SECONDARY, ChunkCell::new(0, 0)), Err(ChunkError::LayerNotFound));
}

#[test]
fn write_outside_layer_is_reported() {
    let mut chunk = dense_chunk(tuple_rows());
    assert_eq!(
        chunk.set_tile_data(DEFAULT_LAYER, ChunkCell::new(4, 0), (1, 1)),
        Err(ChunkError::OutOfBounds)
    );
    assert_eq!(
        chunk.set_tile_entity(DEFAULT_LAYER, ChunkCell::new(0, 3), Entity(1)),
        Err(ChunkError::OutOfBounds)
    );
    assert_eq!(chunk.get_tile_data(DEFAULT_LAYER, ChunkCell::new(4, 0)), Ok(None));
}

#[test]
fn layers_are_isolated() {
    let mut chunk = dense_chunk(tuple_rows());
    chunk.add_layer(SECONDARY, &ChunkLayerType::Sparse(Vec::new())).unwrap();
    chunk.set_tile_data(SECONDARY, ChunkCell::new(1, 1), (99, 99)).unwrap();
    assert_eq!(chunk.get_tile_data(DEFAULT_LAYER, ChunkCell::new(1, 1)).unwrap(), Some((5, 6)));
    chunk.set_tile_data(DEFAULT_LAYER, ChunkCell::new(2, 2), (77, 77)).unwrap();
    assert_eq!(chunk.get_tile_data(SECONDARY, ChunkCell::new(2, 2)).unwrap(), None);
    assert_eq!(chunk.get_tile_data(SECONDARY, ChunkCell::new(1, 1)).unwrap(), Some((99, 99)));
}

#[test]
fn chunk_reads_by_cell_and_tracks_entities() {
    let mut chunk: Chunk<u8> = Chunk::new(
        ChunkPos::new(1, 1),
        UVec2::new(10, 10),
        &ChunkLayerType::Sparse(Vec::new()),
        settings(10, 10),
    )
    .unwrap();
    chunk.set_tile_data_from_cell(DEFAULT_LAYER, Cell::new(12, 15), 7).unwrap();
    assert_eq!(chunk.get_tile_data(DEFAULT_LAYER, ChunkCell::new(2, 5)).unwrap(), Some(7));
    assert_eq!(chunk.get_tile_data_from_cell(DEFAULT_LAYER, Cell::new(12, 15)).unwrap(), Some(7));
    assert_eq!(chunk.get_tile_data_from_cell(DEFAULT_LAYER, Cell::new(13, 15)).unwrap(), None);
    chunk.set_tile_entity_from_cell(DEFAULT_LAYER, Cell::new(19, 10), Entity(42)).unwrap();
    assert_eq!(chunk.get_tile_entity(DEFAULT_LAYER, ChunkCell::new(9, 0)).unwrap(), Some(Entity(42)));
    assert_eq!(
        chunk.get_tile_entity_from_cell(DEFAULT_LAYER, Cell::new(19, 10)).unwrap(),
        Some(Entity(42))
    );
    assert_eq!(chunk.remove_tile_entity(DEFAULT_LAYER, ChunkCell::new(9, 0)).unwrap(), Some(Entity(42)));
    assert_eq!(chunk.get_tile_entity(DEFAULT_LAYER, ChunkCell::new(9, 0)).unwrap(), None);
    assert_eq!(chunk.get_chunk_dimensions(), UVec2::new(10, 10));
}
