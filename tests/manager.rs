use sparse_tilemap::builder::{BuilderError, TilemapBuilder, TilemapLayer};
use sparse_tilemap::chunk::{ChunkSettings, Topology, DEFAULT_LAYER};
use sparse_tilemap::coords::{Cell, ChunkPos, Entity, UVec2};
use sparse_tilemap::hex::HexOrientation;
use sparse_tilemap::layer::LayerError;
use sparse_tilemap::manager::{TilemapManager, TilemapManagerError};

const SECONDARY: u32 = 2;

fn settings(x: u32, y: u32) -> ChunkSettings {
    ChunkSettings { max_chunk_size: UVec2::new(x, y), topology: Topology::Square }
}

fn grid_8x9() -> Vec<Vec<(i32, i32)>> {
    (0..9).map(|y| (0..8).map(|x| (x, y)).collect()).collect()
}

fn dense_manager() -> TilemapManager<(i32, i32)> {
    let layer = TilemapLayer::new_dense_from_vecs(grid_8x9()).unwrap();
    TilemapBuilder::new(layer, settings(5, 5)).spawn_tilemap().unwrap()
}

#[test]
fn tilemap_manager_dense_access() {
    let mut tilemap_manager = dense_manager();
    assert_eq!(tilemap_manager.layer(), DEFAULT_LAYER);
    tilemap_manager.on_layer(SECONDARY);
    assert_eq!(tilemap_manager.layer(), SECONDARY);
    tilemap_manager.on_layer(DEFAULT_LAYER);

    assert_eq!(tilemap_manager.get_tile_data(Cell::new(0, 0)).unwrap(), (0, 0));
    assert_eq!(tilemap_manager.get_tile_data(Cell::new(7, 8)).unwrap(), (7, 8));
    assert_eq!(tilemap_manager.get_tile_data(Cell::new(7, 0)).unwrap(), (7, 0));
    assert_eq!(tilemap_manager.get_tile_data(Cell::new(0, 6)).unwrap(), (0, 6));
    assert_eq!(tilemap_manager.get_tile_data(Cell::new(2, 1)).unwrap(), (2, 1));
    assert_eq!(tilemap_manager.get_tile_data(Cell::new(4, 4)).unwrap(), (4, 4));
    assert_eq!(tilemap_manager.get_tile_data(Cell::new(7, 8)).unwrap(), (7, 8));
    assert_eq!(tilemap_manager.get_tile_data(Cell::new(7, 9)).is_err(), true);
    assert_eq!(tilemap_manager.get_tile_data(Cell::new(8, 7)).is_err(), true);
    assert_eq!(tilemap_manager.get_tile_data(Cell::new(0, 9)).is_err(), true);
    assert_eq!(tilemap_manager.get_tile_data(Cell::new(8, 0)).is_err(), true);
}

#[test]
fn tilemap_manager_sparse_access() {
    let mut entries: Vec<(Cell, (i32, i32))> = Vec::new();
    entries.push((Cell::new(0, 0), (0, 0)));
    entries.push((Cell::new(31, 31), (31, 31)));
    let layer = TilemapLayer::new_sparse_from_hashmap(32, 32, entries);
    let mut tilemap_manager = TilemapBuilder::new(layer, settings(5, 5)).spawn_tilemap().unwrap();
    assert_eq!(tilemap_manager.layer(), DEFAULT_LAYER);
    tilemap_manager.on_layer(SECONDARY);
    assert_eq!(tilemap_manager.layer(), SECONDARY);
    tilemap_manager.on_layer(DEFAULT_LAYER);

    assert_eq!(tilemap_manager.get_tile_data(Cell::new(0, 0)).unwrap(), (0, 0));
    assert_eq!(tilemap_manager.get_tile_data(Cell::new(31, 31)).unwrap(), (31, 31));
    assert_eq!(tilemap_manager.get_tile_data(Cell::new(7, 9)).is_err(), true);
    assert_eq!(tilemap_manager.get_tile_data(Cell::new(8, 7)).is_err(), true);
    assert_eq!(tilemap_manager.get_tile_data(Cell::new(0, 9)).is_err(), true);
    assert_eq!(tilemap_manager.get_tile_data(Cell::new(8, 0)).is_err(), true);
}

#[test]
fn tilemap_manager_dimensions() {
    let mut tilemap_manager = dense_manager();
    tilemap_manager.on_layer(DEFAULT_LAYER);
    assert_eq!(tilemap_manager.dimensions().unwrap(), UVec2::new(8, 9));
}

#[test]
fn dimensions_of_exact_multiple_and_empty_maps() {
    let layer: TilemapLayer<u8> = TilemapLayer::new_sparse_empty(10, 20);
    let mgr = TilemapBuilder::new(layer, settings(5, 5)).spawn_tilemap().unwrap();
    assert_eq!(mgr.dimensions().unwrap(), UVec2::new(10, 20));
    let layer: TilemapLayer<u8> = TilemapLayer::new_sparse_empty(0, 3);
    let mgr = TilemapBuilder::new(layer, settings(5, 5)).spawn_tilemap().unwrap();
    assert_eq!(mgr.dimensions(), Err(TilemapManagerError::InvalidChunkPos));
}

#[test]
fn manager_error_kinds() {
    let mut entries: Vec<(Cell, u8)> = Vec::new();
    entries.push((Cell::new(1, 1), 4));
    let layer = TilemapLayer::new_sparse_from_hashmap(8, 9, entries);
    let mut mgr = TilemapBuilder::new(layer, settings(5, 5)).spawn_tilemap().unwrap();
    assert_eq!(mgr.get_tile_data(Cell::new(-1, 0)), Err(TilemapManagerError::InvalidChunkPos));
    assert_eq!(mgr.get_tile_data(Cell::new(10, 0)), Err(TilemapManagerError::InvalidChunkPos));
    assert_eq!(mgr.get_tile_data(Cell::new(2, 2)), Err(TilemapManagerError::TileDataDoesNotExist));
    assert_eq!(mgr.get_tile_entity(Cell::new(1, 1)), Err(TilemapManagerError::TileEntityDoesNotExist));
    assert_eq!(mgr.sets_tile_data(3, Cell::new(8, 7)), Err(TilemapManagerError::InvalidChunkPos));
    mgr.on_layer(SECONDARY);
    assert_eq!(mgr.get_tile_data(Cell::new(1, 1)), Err(TilemapManagerError::LayerNotFound));
    assert_eq!(mgr.sets_tile_data(3, Cell::new(1, 1)), Err(TilemapManagerError::LayerNotFound));
}

#[test]
fn manager_writes_and_entities() {
    let mut mgr = dense_manager();
    mgr.sets_tile_data((70, 70), Cell::new(6, 7)).unwrap();
    assert_eq!(mgr.get_tile_data(Cell::new(6, 7)).unwrap(), (70, 70));
    assert_eq!(mgr.get_tile_data(Cell::new(5, 7)).unwrap(), (5, 7));

    assert_eq!(mgr.get_or_spawn_tile_entity(Cell::new(3, 3), Entity(9)).unwrap(), Entity(9));
    assert_eq!(mgr.get_or_spawn_tile_entity(Cell::new(3, 3), Entity(10)).unwrap(), Entity(9));
    assert_eq!(mgr.get_tile_entity(Cell::new(3, 3)).unwrap(), Entity(9));
    mgr.set_tile_entity(Cell::new(4, 3), Entity(11)).unwrap();
    assert_eq!(mgr.despawn_tile_entity(Cell::new(3, 3)).unwrap(), Some(Entity(9)));
    assert_eq!(mgr.despawn_tile_entity(Cell::new(3, 3)).unwrap(), None);
    assert_eq!(mgr.get_tile_entity(Cell::new(3, 3)), Err(TilemapManagerError::TileEntityDoesNotExist));
    assert_eq!(mgr.get_tile_entity(Cell::new(4, 3)).unwrap(), Entity(11));

    let chunk = mgr.get_chunk(ChunkPos::new(1, 1)).unwrap();
    assert_eq!(chunk.chunk_pos, ChunkPos::new(1, 1));
    assert!(mgr.get_chunk(ChunkPos::new(2, 0)).is_err());
}

#[test]
fn builder_layers_are_isolated() {
    let main = TilemapLayer::new_dense_from_vecs(grid_8x9()).unwrap();
    let mut builder = TilemapBuilder::new(main, settings(5, 5));
    let second: TilemapLayer<(i32, i32)> = TilemapLayer::new_dense_uniform(8, 9, (-1, -1));
    builder.add_layer(second, SECONDARY).unwrap();
    let mut mgr = builder.spawn_tilemap().unwrap();
    mgr.on_layer(SECONDARY);
    assert_eq!(mgr.get_tile_data(Cell::new(6, 6)).unwrap(), (-1, -1));
    mgr.sets_tile_data((5, 5), Cell::new(2, 2)).unwrap();
    mgr.on_layer(DEFAULT_LAYER);
    assert_eq!(mgr.get_tile_data(Cell::new(2, 2)).unwrap(), (2, 2));
    assert_eq!(mgr.get_tile_data(Cell::new(6, 6)).unwrap(), (6, 6));
    mgr.sets_tile_data((0, 0), Cell::new(6, 6)).unwrap();
    mgr.on_layer(SECONDARY);
    assert_eq!(mgr.get_tile_data(Cell::new(6, 6)).unwrap(), (-1, -1));
    assert_eq!(mgr.get_tile_data(Cell::new(2, 2)).unwrap(), (5, 5));
}

#[test]
fn builder_checks_layers() {
    let main: TilemapLayer<u8> = TilemapLayer::new_dense_uniform(4, 4, 1);
    let mut builder = TilemapBuilder::new(main, settings(3, 3));
    let wrong: TilemapLayer<u8> = TilemapLayer::new_sparse_empty(4, 5);
    assert_eq!(builder.add_layer(wrong, SECONDARY), Err(BuilderError::LayerSizeMismatch));
    let fine: TilemapLayer<u8> = TilemapLayer::new_sparse_empty(4, 4);
    assert_eq!(builder.add_layer(fine, 3), Err(BuilderError::InvalidLayerId));
    let mut fine: TilemapLayer<u8> = TilemapLayer::new_sparse_empty(4, 4);
    fine.spawn_entity_at_tile_pos(Cell::new(3, 3), Entity(5));
    assert_eq!(builder.add_layer(fine, 1 << 31), Ok(()));
    let mut mgr = builder.spawn_tilemap().unwrap();
    mgr.on_layer(1 << 31);
    assert_eq!(mgr.get_tile_entity(Cell::new(3, 3)).unwrap(), Entity(5));
    assert_eq!(mgr.get_tile_data(Cell::new(3, 3)), Err(TilemapManagerError::TileDataDoesNotExist));
}

#[test]
fn ragged_dense_layer_is_rejected() {
    let rows = vec![vec![0, 1, 2], vec![4, 5, 6, 7]];
    assert_eq!(TilemapLayer::new_dense_from_vecs(rows).err(), Some(LayerError::MalformedInputGrid));
}

#[test]
fn hex_map_uses_the_same_chunk_math() {
    let s = ChunkSettings {
        max_chunk_size: UVec2::new(4, 4),
        topology: Topology::Hex(HexOrientation::Flat),
    };
    let layer = TilemapLayer::new_dense_from_vecs(grid_8x9()).unwrap();
    let mgr = TilemapBuilder::new(layer, s).spawn_tilemap().unwrap();
    assert_eq!(mgr.get_tile_data(Cell::new(5, 8)).unwrap(), (5, 8));
    assert_eq!(mgr.tilemap().get_chunk_for_cell(Cell::new(5, 8)).is_some(), true);
    assert_eq!(mgr.tilemap().chunks().chunk_counts(), UVec2::new(2, 3));
    assert_eq!(mgr.dimensions().unwrap(), UVec2::new(8, 9));
}

#[test]
fn default_builder_spawns_nothing() {
    let builder: TilemapBuilder<u8> = TilemapBuilder::default();
    assert_eq!(builder.chunk_settings.max_chunk_size, UVec2::new(50, 50));
    assert!(builder.spawn_tilemap().is_none());
}
