use sparse_tilemap::builder::TilemapLayer;
use sparse_tilemap::chunk::{ChunkSettings, Topology, DEFAULT_LAYER};
use sparse_tilemap::coords::{Cell, ChunkCell, ChunkPos, UVec2};
use sparse_tilemap::map_data::{
    break_data_vecs_down_into_chunk_data, break_data_vecs_into_chunks, break_hashmap_into_chunks,
};

#[derive(Clone, Copy, Default, PartialEq, Eq, Debug)]
struct TileData(u8);

fn settings(x: u32, y: u32) -> ChunkSettings {
    ChunkSettings { max_chunk_size: UVec2::new(x, y), topology: Topology::Square }
}

fn lookup<T: Copy>(data: &[(Cell, T)], cell: Cell) -> Option<T> {
    data.iter().rev().find(|(c, _)| *c == cell).map(|(_, v)| *v)
}

fn grid_8x9() -> Vec<Vec<(i32, i32)>> {
    (0..9).map(|y| (0..8).map(|x| (x, y)).collect()).collect()
}

#[test]
fn map_data_test_new_from_vecs() {
    let vecs = vec![vec![0, 1, 2, 3], vec![4, 5, 6, 7], vec![8, 9, 10, 11]];
    let tilemap = TilemapLayer::new_dense_from_vecs(vecs).unwrap();
    let TilemapLayer::Dense(data, ..) = tilemap else {
        panic!("Wrong type")
    };
    assert_eq!(data[0][0], 0);

    let vecs = vec![
        vec![TileData(0), TileData(1), TileData(2), TileData(3)],
        vec![TileData(4), TileData(5), TileData(6), TileData(7)],
        vec![TileData(8), TileData(9), TileData(10), TileData(11)],
    ];
    let tilemap = TilemapLayer::new_dense_from_vecs(vecs).unwrap();
    let TilemapLayer::Dense(data, ..) = tilemap else {
        panic!("Wrong type")
    };
    assert_eq!(data[0][0], TileData(0));
    assert_eq!(data[2][3], TileData(11));

    let vecs = vec![
        vec![(0, 0), (1, 2), (2, 0), (3, 0)],
        vec![(4, 1), (5, 6), (6, 7), (7, 8)],
        vec![(8, 4), (9, 6), (10, 1), (11, 4)],
    ];
    let tilemap = TilemapLayer::new_dense_from_vecs(vecs).unwrap();
    let TilemapLayer::Dense(data, ..) = tilemap else {
        panic!("Wrong type")
    };
    assert_eq!(data[0][0], (0, 0));
    assert_eq!(data[2][2], (10, 1));
}

#[test]
fn test_new_from_hashmap() {
    let entries: Vec<(Cell, (u32, u32))> =
        vec![(Cell::new(0, 0), (0, 0)), (Cell::new(31, 31), (31, 31))];
    let tilemap = TilemapLayer::new_sparse_from_hashmap(32, 32, entries);
    let TilemapLayer::Sparse(data, size, ..) = tilemap else {
        panic!("Wrong type")
    };
    assert_eq!(size, UVec2::new(32, 32));
    assert_eq!(lookup(&data, Cell::new(1, 1)).is_none(), true);
    assert_eq!(lookup(&data, Cell::new(0, 0)).unwrap(), (0, 0));
    assert_eq!(lookup(&data, Cell::new(31, 31)).unwrap(), (31, 31));
}

#[test]
fn test_vec_breakdown() {
    let vecs = grid_8x9();
    let mcs = UVec2::new(5, 5);

    let zero_zero = break_data_vecs_down_into_chunk_data(&vecs, ChunkPos::new(0, 0), mcs);
    assert_eq!(zero_zero[0][0], (0, 0));
    assert_eq!(zero_zero[0][4], (4, 0));
    assert_eq!(zero_zero[4][0], (0, 4));
    assert_eq!(zero_zero[4][4], (4, 4));

    let one_zero = break_data_vecs_down_into_chunk_data(&vecs, ChunkPos::new(1, 0), mcs);
    assert_eq!(one_zero[0][0], (5, 0));
    assert_eq!(one_zero[0][2], (7, 0));
    assert_eq!(one_zero[4][0], (5, 4));
    assert_eq!(one_zero[4][2], (7, 4));

    let zero_one = break_data_vecs_down_into_chunk_data(&vecs, ChunkPos::new(0, 1), mcs);
    assert_eq!(zero_one[0][0], (0, 5));
    assert_eq!(zero_one[0][4], (4, 5));
    assert_eq!(zero_one[3][0], (0, 8));
    assert_eq!(zero_one[3][4], (4, 8));

    let one_one = break_data_vecs_down_into_chunk_data(&vecs, ChunkPos::new(1, 1), mcs);
    assert_eq!(one_one[0][0], (5, 5));
    assert_eq!(one_one[0][2], (7, 5));
    assert_eq!(one_one[3][0], (5, 8));
    assert_eq!(one_one[3][2], (7, 8));
}

#[test]
fn test_hashmap_breakdown() {
    let entries: Vec<(Cell, (u32, u32))> = vec![
        (Cell::new(0, 0), (0, 0)),
        (Cell::new(5, 5), (5, 5)),
        (Cell::new(1, 0), (1, 0)),
        (Cell::new(0, 19), (0, 19)),
        (Cell::new(31, 3), (31, 3)),
        (Cell::new(12, 31), (12, 31)),
        (Cell::new(10, 10), (10, 10)),
        (Cell::new(15, 15), (15, 15)),
        (Cell::new(27, 27), (27, 27)),
        (Cell::new(31, 31), (31, 31)),
    ];
    let chunks = break_hashmap_into_chunks(&entries, UVec2::new(32, 32), settings(10, 10));

    assert_eq!(chunks.len(), 4);
    assert_eq!(chunks[0].len(), 4);
    assert_eq!(
        chunks[0][0].get_tile_data_from_cell(DEFAULT_LAYER, Cell::new(0, 0)).unwrap().unwrap(),
        (0, 0)
    );
    assert_eq!(
        chunks[3][3].get_tile_data_from_cell(DEFAULT_LAYER, Cell::new(31, 31)).unwrap().unwrap(),
        (31, 31)
    );
    assert_eq!(
        chunks[0][0].get_tile_data_from_cell(DEFAULT_LAYER, Cell::new(0, 0)).unwrap().unwrap(),
        (0, 0)
    );
    assert_eq!(
        chunks[0][0].get_tile_data_from_cell(DEFAULT_LAYER, Cell::new(0, 0)).unwrap().unwrap(),
        (0, 0)
    );
}

#[test]
fn chunk_count_and_edge_sizes() {
    let chunks = break_data_vecs_into_chunks(&grid_8x9(), settings(5, 5));
    assert_eq!(chunks.len(), 2);
    assert_eq!(chunks[0].len(), 2);
    assert_eq!(chunks[0][0].get_chunk_dimensions(), UVec2::new(5, 5));
    assert_eq!(chunks[0][1].get_chunk_dimensions(), UVec2::new(3, 5));
    assert_eq!(chunks[1][0].get_chunk_dimensions(), UVec2::new(5, 4));
    assert_eq!(chunks[1][1].get_chunk_dimensions(), UVec2::new(3, 4));
    assert_eq!(chunks[1][1].chunk_pos, ChunkPos::new(1, 1));
}

#[test]
fn dense_round_trip_through_chunks() {
    let rows = grid_8x9();
    let s = settings(3, 4);
    let chunks = break_data_vecs_into_chunks(&rows, s);
    for y in 0..9 {
        for x in 0..8 {
            let cell = Cell::new(x, y);
            let pos = sparse_tilemap::coords::cell_to_chunk_pos(cell, s.max_chunk_size);
            let local = sparse_tilemap::coords::cell_to_chunk_cell(cell, s.max_chunk_size);
            let chunk = &chunks[pos.y as usize][pos.x as usize];
            assert_eq!(chunk.get_tile_data(DEFAULT_LAYER, local).unwrap(), Some((x, y)));
        }
    }
}

#[test]
fn sparse_round_trip_leaves_others_absent() {
    let entries: Vec<(Cell, u8)> = vec![(Cell::new(0, 0), 1), (Cell::new(31, 31), 2)];
    let chunks = break_hashmap_into_chunks(&entries, UVec2::new(32, 32), settings(10, 10));
    assert_eq!(chunks.len(), 4);
    for row in chunks.iter() {
        assert_eq!(row.len(), 4);
    }
    assert_eq!(chunks[3][3].get_chunk_dimensions(), UVec2::new(2, 2));
    assert_eq!(chunks[0][0].get_tile_data(DEFAULT_LAYER, ChunkCell::new(0, 0)).unwrap(), Some(1));
    assert_eq!(chunks[3][3].get_tile_data(DEFAULT_LAYER, ChunkCell::new(1, 1)).unwrap(), Some(2));
    for (cy, row) in chunks.iter().enumerate() {
        for (cx, chunk) in row.iter().enumerate() {
            let d = chunk.get_chunk_dimensions();
            for j in 0..d.y as i32 {
                for i in 0..d.x as i32 {
                    let here = chunk.get_tile_data(DEFAULT_LAYER, ChunkCell::new(i, j)).unwrap();
                    let owner = (cx, cy, i, j) == (0, 0, 0, 0) || (cx, cy, i, j) == (3, 3, 1, 1);
                    assert_eq!(here.is_some(), owner);
                }
            }
        }
    }
}

#[test]
fn empty_sparse_input_still_makes_every_chunk() {
    let entries: Vec<(Cell, u8)> = Vec::new();
    let chunks = break_hashmap_into_chunks(&entries, UVec2::new(21, 9), settings(10, 10));
    assert_eq!(chunks.len(), 1);
    assert_eq!(chunks[0].len(), 3);
    assert_eq!(chunks[0][2].get_chunk_dimensions(), UVec2::new(1, 9));
}

#[test]
fn breakdown_past_the_map_is_empty() {
    let rows = grid_8x9();
    let past = break_data_vecs_down_into_chunk_data(&rows, ChunkPos::new(0, 2), UVec2::new(5, 5));
    assert_eq!(past.len(), 0);
    let right = break_data_vecs_down_into_chunk_data(&rows, ChunkPos::new(2, 0), UVec2::new(5, 5));
    assert_eq!(right.len(), 5);
    assert_eq!(right[0].len(), 0);
}
