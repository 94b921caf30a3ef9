//! Bulk construction of a map from whole-map layers.
use crate::chunk::{Chunk, ChunkSettings, Topology, DEFAULT_LAYER};
use crate::coords::{chunk_cell_of, chunk_pos_of, valid_chunk_size, Cell, Entity, UVec2};
use crate::manager::{registry_ok, TilemapManager};
use crate::tilemap::{Chunks, Tilemap};
use crate::layer::{in_rect, rows_uniform, ChunkLayerType, LayerError};
use crate::map_data::{
    add_entities_to_layer, break_data_vecs_down_into_chunk_data, break_data_vecs_into_chunks,
    break_hashmap_into_chunks, cells_on_map, chunk_of, clip_len, default_layer_only, grid_layout,
    last_cell_entry, lemma_cell_split, lemma_clip_positive, on_map, read_cell, read_entity,
    read_layer, rows_width, same_layers, set_tile_in_grid,
};
use vstd::prelude::*;

verus! {

/// A whole-map layer, as handed to the builder.
pub enum TilemapLayer<T> {
    /// Only some cells hold data: the entries (a later entry for a cell
    /// wins), the map size, and the handles attached to cells.
    Sparse(Vec<(Cell, T)>, UVec2, Vec<(Cell, Entity)>),
    /// Every cell holds data: rows (`rows[y][x]`) and the handles attached
    /// to cells.
    Dense(Vec<Vec<T>>, Vec<(Cell, Entity)>),
}

/// Errors of map construction.
#[derive(Clone, Copy, Debug, PartialEq, Eq, Structural)]
pub enum BuilderError {
    /// An added layer's size differs from the map's.
    LayerSizeMismatch,
    /// A layer id must be exactly one bit of a `u32`, which caps a map at
    /// 32 layers.
    InvalidLayerId,
}

/// Whether `id` is a single bit of a `u32`.
pub open spec fn single_bit(id: u32) -> bool {
    id != 0 && id & ((id - 1) as u32) == 0
}

impl<T: Copy> TilemapLayer<T> {
    /// The size of the map this layer covers.
    pub open spec fn dims(&self) -> UVec2 {
        match self {
            TilemapLayer::Sparse(_, size, _) => *size,
            TilemapLayer::Dense(rows, _) => UVec2 { x: rows_width(rows@) as u32, y: rows@.len() as u32 },
        }
    }

    /// The handles attached to cells.
    pub open spec fn entity_entries(&self) -> Seq<(Cell, Entity)> {
        match self {
            TilemapLayer::Sparse(_, _, e) => e@,
            TilemapLayer::Dense(_, e) => e@,
        }
    }

    /// Whether the layer is dense.
    pub open spec fn is_dense(&self) -> bool {
        self is Dense
    }

    /// Well-formedness: sizes fit signed coordinates, dense rows are
    /// rectangular, and every listed cell lies on the map.
    pub open spec fn wf(&self) -> bool {
        &&& cells_on_map(self.entity_entries(), self.dims())
        &&& match self {
            TilemapLayer::Sparse(data, size, _) => size.x <= i32::MAX && size.y <= i32::MAX
                && cells_on_map(data@, *size),
            TilemapLayer::Dense(rows, _) => rows@.len() <= i32::MAX && rows_width(rows@) <= i32::MAX
                && rows_uniform(rows@, rows_width(rows@)),
        }
    }

    /// The data this layer gives to the cell `(x, y)` of the map.
    pub open spec fn value_at(&self, x: int, y: int) -> Option<T> {
        match self {
            TilemapLayer::Sparse(data, _, _) => last_cell_entry(data@, x, y),
            TilemapLayer::Dense(rows, _) => Some(rows@[y]@[x]),
        }
    }

    /// The handle this layer attaches to the cell `(x, y)`, if any.
    pub open spec fn entity_value(&self, x: int, y: int) -> Option<Entity> {
        last_cell_entry(self.entity_entries(), x, y)
    }

    /// The size of the map this layer covers.
    pub fn dimensions(&self) -> (r: UVec2)
        requires
            self.wf(),
        ensures
            r == self.dims(),
    {
        match self {
            TilemapLayer::Sparse(_, size, _) => *size,
            TilemapLayer::Dense(rows, _) => {
                let h = rows.len() as u32;
                let w: u32 = if rows.len() > 0 {
                    rows[0].len() as u32
                } else {
                    0
                };
                UVec2::new(w, h)
            },
        }
    }

    /// A sparse layer over a `width` by `height` map holding nothing.
    pub fn new_sparse_empty(width: u32, height: u32) -> (r: Self)
        requires
            width <= i32::MAX,
            height <= i32::MAX,
        ensures
            r.wf(),
            !r.is_dense(),
            r.dims() == (UVec2 { x: width, y: height }),
            forall|x: int, y: int| #[trigger] r.value_at(x, y).is_none(),
            r.entity_entries().len() == 0,
    {
        TilemapLayer::Sparse(Vec::new(), UVec2::new(width, height), Vec::new())
    }

    /// A sparse layer over a `width` by `height` map holding the given
    /// entries, every one on the map; a later entry for a cell wins.
    pub fn new_sparse_from_hashmap(width: u32, height: u32, entries: Vec<(Cell, T)>) -> (r: Self)
        requires
            width <= i32::MAX,
            height <= i32::MAX,
            cells_on_map(entries@, UVec2 { x: width, y: height }),
        ensures
            r.wf(),
            !r.is_dense(),
            r.dims() == (UVec2 { x: width, y: height }),
            forall|x: int, y: int| #[trigger] r.value_at(x, y) == last_cell_entry(entries@, x, y),
            r.entity_entries().len() == 0,
    {
        TilemapLayer::Sparse(entries, UVec2::new(width, height), Vec::new())
    }

    /// A dense layer of `width` by `height` cells, all holding `tile_data`.
    pub fn new_dense_uniform(width: u32, height: u32, tile_data: T) -> (r: Self)
        requires
            width <= i32::MAX,
            height <= i32::MAX,
        ensures
            r.wf(),
            r.is_dense(),
            height > 0 ==> r.dims() == (UVec2 { x: width, y: height }),
            height == 0 ==> r.dims() == (UVec2 { x: 0, y: 0 }),
            forall|x: int, y: int|
                #![trigger r.value_at(x, y)]
                in_rect(x, y, width as int, height as int) ==> r.value_at(x, y) == Some(tile_data),
            r.entity_entries().len() == 0,
    {
        let mut rows: Vec<Vec<T>> = Vec::new();
        let mut j: u32 = 0;
        while j < height
            invariant
                j <= height,
                rows@.len() == j,
                rows_uniform(rows@, width as int),
                forall|a: int, b: int|
                    0 <= a < j && 0 <= b < width ==> #[trigger] rows@[a]@[b] == tile_data,
            decreases height - j,
        {
            let mut row: Vec<T> = Vec::new();
            let mut i: u32 = 0;
            while i < width
                invariant
                    i <= width,
                    row@.len() == i,
                    forall|b: int| 0 <= b < i ==> #[trigger] row@[b] == tile_data,
                decreases width - i,
            {
                row.push(tile_data);
                i = i + 1;
            }
            rows.push(row);
            j = j + 1;
        }
        TilemapLayer::Dense(rows, Vec::new())
    }

    /// A dense layer of `width` by `height` cells, all holding one value,
    /// `T`'s default.
    pub fn new_dense_default(width: u32, height: u32) -> (r: Self)
        where
            T: Default,
        requires
            width <= i32::MAX,
            height <= i32::MAX,
        ensures
            r.wf(),
            r.is_dense(),
            height > 0 ==> r.dims() == (UVec2 { x: width, y: height }),
            height == 0 ==> r.dims() == (UVec2 { x: 0, y: 0 }),
            forall|x: int, y: int|
                #![trigger r.value_at(x, y)]
                in_rect(x, y, width as int, height as int) ==> r.value_at(x, y) == r.value_at(0, 0),
            r.entity_entries().len() == 0,
    {
        let value = T::default();
        Self::new_dense_uniform(width, height, value)
    }

    /// A dense layer holding `rows` (`rows[y][x]`). Fails with
    /// `MalformedInputGrid` when the rows do not all have the same length,
    /// rather than truncating or padding them.
    pub fn new_dense_from_vecs(rows: Vec<Vec<T>>) -> (r: Result<Self, LayerError>)
        requires
            rows@.len() <= i32::MAX,
            forall|i: int| 0 <= i < rows@.len() ==> #[trigger] rows@[i]@.len() <= i32::MAX,
        ensures
            r is Ok <==> rows_uniform(rows@, rows_width(rows@)),
            r is Err ==> r->Err_0 == LayerError::MalformedInputGrid,
            r is Ok ==> {
                let l = r->Ok_0;
                &&& l.wf()
                &&& l.is_dense()
                &&& l.dims() == (UVec2 { x: rows_width(rows@) as u32, y: rows@.len() as u32 })
                &&& forall|x: int, y: int|
                    #![trigger l.value_at(x, y)]
                    in_rect(x, y, rows_width(rows@), rows@.len() as int) ==> l.value_at(x, y) == Some(
                        rows@[y]@[x],
                    )
                &&& l.entity_entries().len() == 0
            },
    {
        let width: usize = if rows.len() > 0 {
            rows[0].len()
        } else {
            0
        };
        let mut j: usize = 0;
        while j < rows.len()
            invariant
                width == rows_width(rows@),
                j <= rows@.len(),
                forall|a: int| 0 <= a < j ==> #[trigger] rows@[a]@.len() == width,
            decreases rows@.len() - j,
        {
            if rows[j].len() != width {
                return Err(LayerError::MalformedInputGrid);
            }
            j = j + 1;
        }
        Ok(TilemapLayer::Dense(rows, Vec::new()))
    }

    /// Attaches `entity` (a handle the host has just made) to `cell`, a cell
    /// of the map; it replaces any handle listed for that cell before.
    pub fn spawn_entity_at_tile_pos(&mut self, cell: Cell, entity: Entity)
        requires
            old(self).wf(),
            on_map(cell, old(self).dims()),
        ensures
            final(self).wf(),
            final(self).dims() == old(self).dims(),
            final(self).is_dense() == old(self).is_dense(),
            forall|x: int, y: int| #[trigger] final(self).value_at(x, y) == old(self).value_at(x, y),
            final(self).entity_entries() == old(self).entity_entries().push((cell, entity)),
    {
        match self {
            TilemapLayer::Sparse(_, _, entities) => {
                entities.push((cell, entity));
            },
            TilemapLayer::Dense(_, entities) => {
                entities.push((cell, entity));
            },
        }
    }
}

/// What chunk `c0` of a grid becomes once layer `id` of `tl` is added to it:
/// the other layers kept, the new layer sized as the chunk, holding the
/// chunk's rectangle of dense rows, or nothing for a sparse layer, and no
/// handles.
pub open spec fn layer_added<T: Copy>(
    c: Chunk<T>,
    c0: Chunk<T>,
    id: u32,
    tl: &TilemapLayer<T>,
    m: UVec2,
) -> bool {
    &&& c.wf()
    &&& c.chunk_pos == c0.chunk_pos
    &&& c.chunk_settings == c0.chunk_settings
    &&& c.data@.dom() == c0.data@.dom().insert(id)
    &&& forall|k: u32| k != id && #[trigger] c0.has_layer(k) ==> c.layer(k) == c0.layer(k)
    &&& c.layer(id).dims() == c0.dims()
    &&& c.layer(id).is_dense() == tl.is_dense()
    &&& forall|i: int, j: int| #[trigger] c.entity(id, i, j).is_none()
    &&& forall|i: int, j: int|
        #![trigger c.tile(id, i, j)]
        c.layer(id).contains(i, j) ==> c.tile(id, i, j) == match tl {
            TilemapLayer::Dense(rows, _) => Some(
                rows@[c0.chunk_pos.y * m.y + j]@[c0.chunk_pos.x * m.x + i],
            ),
            TilemapLayer::Sparse(_, _, _) => None::<T>,
        }
    &&& forall|i: int, j: int| !c.layer(id).contains(i, j) ==> #[trigger] c.layer(id).tile(i, j).is_none()
}

/// Adds layer `map_layer`, dense rows or an empty sparse layer taken from
/// `tl` (a layer of the map's size), to every chunk of the grid. The other
/// layers of every chunk stay as they were.
fn add_blank_layer_to_grid<T: Copy>(
    map_layer: u32,
    chunks: &mut Vec<Vec<Chunk<T>>>,
    map: Ghost<UVec2>,
    s: ChunkSettings,
    tl: &TilemapLayer<T>,
)
    requires
        grid_layout(old(chunks)@, map@, s),
        tl.wf(),
        tl.dims() == map@,
    ensures
        final(chunks)@.len() == old(chunks)@.len(),
        forall|b: int| 0 <= b < final(chunks)@.len() ==> #[trigger] final(chunks)@[b]@.len() == old(chunks)@[b]@.len(),
        forall|b: int, a: int|
            0 <= b < final(chunks)@.len() && 0 <= a < final(chunks)@[b]@.len() ==> layer_added(
                #[trigger] final(chunks)@[b]@[a],
                old(chunks)@[b]@[a],
                map_layer,
                tl,
                s.max_chunk_size,
            ),
{
    let m = s.max_chunk_size;
    let ghost g0 = chunks@;
    let empty: Vec<(crate::coords::ChunkCell, T)> = Vec::new();
    let blank = ChunkLayerType::Sparse(empty);
    let mut cy: usize = 0;
    while cy < chunks.len()
        invariant
            m == s.max_chunk_size,
            grid_layout(g0, map@, s),
            tl.wf(),
            tl.dims() == map@,
            blank == ChunkLayerType::Sparse(empty),
            empty@.len() == 0,
            chunks@.len() == g0.len(),
            cy <= chunks@.len(),
            forall|b: int| 0 <= b < chunks@.len() ==> #[trigger] chunks@[b]@.len() == g0[b]@.len(),
            forall|b: int, a: int|
                cy <= b < chunks@.len() && 0 <= a < chunks@[b]@.len() ==> #[trigger] chunks@[b]@[a]
                    == g0[b]@[a],
            forall|b: int, a: int|
                0 <= b < cy && 0 <= a < chunks@[b]@.len() ==> layer_added(
                    #[trigger] chunks@[b]@[a],
                    g0[b]@[a],
                    map_layer,
                    tl,
                    m,
                ),
        decreases chunks@.len() - cy,
    {
        let mut cx: usize = 0;
        let row_len = chunks[cy].len();
        while cx < row_len
            invariant
                m == s.max_chunk_size,
                grid_layout(g0, map@, s),
                tl.wf(),
                tl.dims() == map@,
                blank == ChunkLayerType::Sparse(empty),
                empty@.len() == 0,
                chunks@.len() == g0.len(),
                cy < chunks@.len(),
                row_len == g0[cy as int]@.len(),
                cx <= row_len,
                forall|b: int| 0 <= b < chunks@.len() ==> #[trigger] chunks@[b]@.len() == g0[b]@.len(),
                forall|b: int, a: int|
                    cy < b < chunks@.len() && 0 <= a < chunks@[b]@.len() ==> #[trigger] chunks@[b]@[a]
                        == g0[b]@[a],
                forall|a: int| cx <= a < row_len ==> #[trigger] chunks@[cy as int]@[a] == g0[cy as int]@[a],
                forall|b: int, a: int|
                    0 <= b < cy && 0 <= a < chunks@[b]@.len() ==> layer_added(
                        #[trigger] chunks@[b]@[a],
                        g0[b]@[a],
                        map_layer,
                        tl,
                        m,
                    ),
                forall|a: int|
                    0 <= a < cx ==> layer_added(
                        #[trigger] chunks@[cy as int]@[a],
                        g0[cy as int]@[a],
                        map_layer,
                        tl,
                        m,
                    ),
            decreases row_len - cx,
        {
            let ghost c0 = g0[cy as int]@[cx as int];
            proof {
                assert(chunks@[cy as int]@[cx as int] == c0);
                crate::map_data::lemma_count_le(map@.x as int, m.x as int);
                crate::map_data::lemma_count_le(map@.y as int, m.y as int);
                assert(cx <= i32::MAX && cy <= i32::MAX);
                assert(c0.has_layer(DEFAULT_LAYER));
                assert(c0.chunk_pos == (crate::coords::ChunkPos { x: cx as i32, y: cy as i32 }));
                assert(c0.dims().x == clip_len(map@.x as int, m.x as int, cx as int));
                assert(c0.dims().y == clip_len(map@.y as int, m.y as int, cy as int));
                lemma_clip_positive(cx as int, map@.x as int, m.x as int);
                lemma_clip_positive(cy as int, map@.y as int, m.y as int);
            }
            let row: &mut Vec<Chunk<T>> = &mut chunks[cy];
            let chunk: &mut Chunk<T> = &mut row[cx];
            match tl {
                TilemapLayer::Dense(rows, _) => {
                    let sub = break_data_vecs_down_into_chunk_data(rows, chunk.chunk_pos, m);
                    let data = ChunkLayerType::Dense(sub);
                    let res = chunk.add_layer(map_layer, &data);
                    assert(res is Ok);
                    proof {
                        let c = *chunk;
                        assert(sub@.len() > 0);
                        assert(sub@[0]@.len() == c0.dims().x);
                        assert(c.layer(map_layer).dims() == c0.dims());
                    }
                },
                TilemapLayer::Sparse(_, _, _) => {
                    let res = chunk.add_layer(map_layer, &blank);
                    assert(res is Ok);
                },
            }
            proof {
                let c = chunks@[cy as int]@[cx as int];
                assert forall|k: u32| k != map_layer && #[trigger] c0.has_layer(k) implies c.layer(k) == c0.layer(k) by {
                    assert(c0.data@.dom().contains(k));
                }
                assert(layer_added(c, c0, map_layer, tl, m));
            }
            cx = cx + 1;
        }
        cy = cy + 1;
    }
}

/// Every chunk of the grid has layer `id`.
pub open spec fn all_have_layer<T: Copy>(g: Seq<Vec<Chunk<T>>>, id: u32) -> bool {
    forall|cy: int, cx: int|
        0 <= cy < g.len() && 0 <= cx < g[cy]@.len() ==> (#[trigger] g[cy]@[cx]).has_layer(id)
}

/// Adds layer `map_layer` holding `tl` (a layer of the map's size, with its
/// handles) to every chunk of the grid; it replaces a layer of that id.
/// Every cell of the map then reads, on that layer, as `tl` gives it; the
/// other layers read as before.
pub fn add_layer_to_chunks<T: Copy>(
    map_layer: u32,
    chunks: &mut Vec<Vec<Chunk<T>>>,
    map: Ghost<UVec2>,
    s: ChunkSettings,
    tl: &TilemapLayer<T>,
)
    requires
        grid_layout(old(chunks)@, map@, s),
        tl.wf(),
        tl.dims() == map@,
    ensures
        grid_layout(final(chunks)@, map@, s),
        all_have_layer(final(chunks)@, map_layer),
        forall|k: u32| all_have_layer(old(chunks)@, k) ==> #[trigger] all_have_layer(final(chunks)@, k),
        forall|id: u32, x: i32, y: i32|
            on_map(Cell { x, y }, map@) ==> #[trigger] read_layer(final(chunks)@, id, Cell { x, y }, s.max_chunk_size)
                == if id == map_layer {
                    tl.value_at(x as int, y as int)
                } else {
                    read_layer(old(chunks)@, id, Cell { x, y }, s.max_chunk_size)
                },
        forall|id: u32, x: i32, y: i32|
            on_map(Cell { x, y }, map@) ==> #[trigger] read_entity(final(chunks)@, id, Cell { x, y }, s.max_chunk_size)
                == if id == map_layer {
                    tl.entity_value(x as int, y as int)
                } else {
                    read_entity(old(chunks)@, id, Cell { x, y }, s.max_chunk_size)
                },
{
    let m = s.max_chunk_size;
    let ghost g0 = chunks@;
    add_blank_layer_to_grid(map_layer, chunks, map, s, tl);
    let ghost g1 = chunks@;
    proof {
        assert forall|b: int, a: int| 0 <= b < g1.len() && 0 <= a < g1[b]@.len() implies {
            let c = #[trigger] g1[b]@[a];
            let c0 = g0[b]@[a];
            &&& c.wf()
            &&& c.chunk_pos == c0.chunk_pos
            &&& c.chunk_settings == c0.chunk_settings
            &&& c.dims() == c0.dims()
            &&& c.has_layer(map_layer)
            &&& forall|id: u32| #[trigger] c.has_layer(id) ==> c.layer(id).dims() == c.dims()
            &&& forall|k: u32| c0.has_layer(k) ==> #[trigger] c.has_layer(k)
        } by {
            let c = g1[b]@[a];
            let c0 = g0[b]@[a];
            assert(layer_added(c, c0, map_layer, tl, m));
            assert(c0.has_layer(DEFAULT_LAYER));
            assert(c.data@.dom().contains(map_layer));
            assert forall|id: u32| #[trigger] c.has_layer(id) implies c.layer(id).dims() == c.dims() by {
                assert(c.data@.dom().contains(id));
                if id != map_layer {
                    assert(c0.has_layer(id));
                }
            }
            assert forall|k: u32| c0.has_layer(k) implies #[trigger] c.has_layer(k) by {
                assert(c.data@.dom().contains(k));
            }
        }
        assert(grid_layout(g1, map@, s));
        assert forall|id: u32, x: i32, y: i32| on_map(Cell { x, y }, map@) implies #[trigger] read_layer(
            g1,
            id,
            Cell { x, y },
            m,
        ) == if id == map_layer {
            match tl {
                TilemapLayer::Dense(_, _) => tl.value_at(x as int, y as int),
                TilemapLayer::Sparse(_, _, _) => None,
            }
        } else {
            read_layer(g0, id, Cell { x, y }, m)
        } by {
            lemma_cell_split(g0, map@, s, Cell { x, y });
            let cx = crate::coords::chunk_pos_of(Cell { x, y }, m).0;
            let cy = crate::coords::chunk_pos_of(Cell { x, y }, m).1;
            let c = g1[cy]@[cx];
            let c0 = g0[cy]@[cx];
            assert(layer_added(c, c0, map_layer, tl, m));
            assert(c0.has_layer(DEFAULT_LAYER));
            if id != map_layer {
                if c0.has_layer(id) {
                    assert(c.layer(id) == c0.layer(id));
                } else {
                    assert(!c.data@.dom().contains(id));
                }
            }
        }
        assert forall|id: u32, x: i32, y: i32| on_map(Cell { x, y }, map@) implies #[trigger] read_entity(
            g1,
            id,
            Cell { x, y },
            m,
        ) == if id == map_layer {
            None
        } else {
            read_entity(g0, id, Cell { x, y }, m)
        } by {
            lemma_cell_split(g0, map@, s, Cell { x, y });
            let cx = crate::coords::chunk_pos_of(Cell { x, y }, m).0;
            let cy = crate::coords::chunk_pos_of(Cell { x, y }, m).1;
            let c = g1[cy]@[cx];
            let c0 = g0[cy]@[cx];
            assert(layer_added(c, c0, map_layer, tl, m));
            assert(c0.has_layer(DEFAULT_LAYER));
            if id != map_layer {
                if c0.has_layer(id) {
                    assert(c.layer(id) == c0.layer(id));
                } else {
                    assert(!c.data@.dom().contains(id));
                }
            }
        }
    }
    match tl {
        TilemapLayer::Sparse(data, _, _) => {
            let mut k: usize = 0;
            while k < data.len()
                invariant
                    m == s.max_chunk_size,
                    k <= data@.len(),
                    tl.wf(),
                    tl.dims() == map@,
                    forall|x: int, y: int| #[trigger] tl.value_at(x, y) == last_cell_entry(data@, x, y),
                    cells_on_map(data@, map@),
                    grid_layout(chunks@, map@, s),
                    same_layers(chunks@, g1),
                    all_have_layer(g1, map_layer),
                    grid_layout(g1, map@, s),
                    forall|id: u32, x: i32, y: i32|
                        on_map(Cell { x, y }, map@) ==> #[trigger] read_entity(g1, id, Cell { x, y }, m)
                            == if id == map_layer {
                                None
                            } else {
                                read_entity(g0, id, Cell { x, y }, m)
                            },
                    forall|id: u32, x: i32, y: i32|
                        on_map(Cell { x, y }, map@) && id != map_layer ==> #[trigger] read_layer(
                            g1,
                            id,
                            Cell { x, y },
                            m,
                        ) == read_layer(g0, id, Cell { x, y }, m),
                    forall|cy: int, cx: int, k: u32|
                        0 <= cy < g1.len() && 0 <= cx < g1[cy]@.len() && g0[cy]@[cx].has_layer(k)
                            ==> #[trigger] g1[cy]@[cx].has_layer(k),
                    g1.len() == g0.len(),
                    forall|b: int| 0 <= b < g1.len() ==> #[trigger] g1[b]@.len() == g0[b]@.len(),
                    forall|id: u32, x: i32, y: i32|
                        on_map(Cell { x, y }, map@) ==> #[trigger] read_layer(chunks@, id, Cell { x, y }, m)
                            == if id == map_layer {
                                last_cell_entry(data@.subrange(0, k as int), x as int, y as int)
                            } else {
                                read_layer(g1, id, Cell { x, y }, m)
                            },
                    forall|id: u32, x: i32, y: i32|
                        on_map(Cell { x, y }, map@) ==> #[trigger] read_entity(chunks@, id, Cell { x, y }, m)
                            == read_entity(g1, id, Cell { x, y }, m),
                decreases data@.len() - k,
            {
                let (cell, value) = data[k];
                proof {
                    assert(k < data@.len());
                    lemma_cell_split(chunks@, map@, s, cell);
                    let cx = crate::coords::chunk_pos_of(cell, m).0;
                    let cy = crate::coords::chunk_pos_of(cell, m).1;
                    assert(g1[cy]@[cx].has_layer(map_layer));
                    assert(chunks@[cy]@[cx].data@.dom() == g1[cy]@[cx].data@.dom());
                }
                let ghost before = chunks@;
                set_tile_in_grid(chunks, map, s, map_layer, cell, value);
                proof {
                    crate::map_data::lemma_same_layers_trans(chunks@, before, g1);
                    let next = data@.subrange(0, k + 1);
                    assert(next.drop_last() =~= data@.subrange(0, k as int));
                    assert(next.last() == (cell, value));
                }
                k = k + 1;
            }
            proof {
                assert(data@.subrange(0, data@.len() as int) =~= data@);
            }
        },
        TilemapLayer::Dense(_, _) => {},
    }
    let ghost g2 = chunks@;
    proof {
        assert forall|cy: int, cx: int| 0 <= cy < g2.len() && 0 <= cx < g2[cy]@.len() implies (#[trigger] g2[cy]@[cx]).has_layer(
            map_layer,
        ) by {
            assert(g1[cy]@[cx].has_layer(map_layer));
            assert(g2[cy]@[cx].data@.dom() == g1[cy]@[cx].data@.dom());
        }
    }
    let entities: &Vec<(Cell, Entity)> = match tl {
        TilemapLayer::Sparse(_, _, e) => e,
        TilemapLayer::Dense(_, e) => e,
    };
    assert(entities@ == tl.entity_entries());
    proof {
        assert forall|id: u32, x: i32, y: i32| on_map(Cell { x, y }, map@) implies #[trigger] read_entity(
            g2,
            id,
            Cell { x, y },
            m,
        ) == if id == map_layer {
            None
        } else {
            read_entity(g0, id, Cell { x, y }, m)
        } by {
            assert(read_entity(g2, id, Cell { x, y }, m) == read_entity(g1, id, Cell { x, y }, m));
        }
    }
    add_entities_to_layer(map_layer, chunks, map, s, entities);
    proof {
        assert forall|id: u32, x: i32, y: i32| on_map(Cell { x, y }, map@) implies #[trigger] read_entity(
            chunks@,
            id,
            Cell { x, y },
            m,
        ) == if id == map_layer {
            tl.entity_value(x as int, y as int)
        } else {
            read_entity(g0, id, Cell { x, y }, m)
        } by {
            assert(read_entity(g2, id, Cell { x, y }, m) == if id == map_layer {
                None
            } else {
                read_entity(g0, id, Cell { x, y }, m)
            });
        }
        assert forall|k: u32| all_have_layer(g0, k) implies #[trigger] all_have_layer(chunks@, k) by {
            assert forall|cy: int, cx: int| 0 <= cy < chunks@.len() && 0 <= cx < chunks@[cy]@.len() implies (#[trigger] chunks@[cy]@[cx]).has_layer(k) by {
                assert(g0[cy]@[cx].has_layer(k));
                assert(g1[cy]@[cx].has_layer(k));
                assert(g2[cy]@[cx].data@.dom() == g1[cy]@[cx].data@.dom());
                assert(chunks@[cy]@[cx].data@.dom() == g2[cy]@[cx].data@.dom());
            }
        }
        assert forall|cy: int, cx: int| 0 <= cy < chunks@.len() && 0 <= cx < chunks@[cy]@.len() implies (#[trigger] chunks@[cy]@[cx]).has_layer(map_layer) by {
            assert(g2[cy]@[cx].has_layer(map_layer));
            assert(chunks@[cy]@[cx].data@.dom() == g2[cy]@[cx].data@.dom());
        }
    }
}

/// Cuts the main layer of a map into its chunk grid: dense rows or sparse
/// entries go to each chunk's default layer, the layer's handles are
/// attached there, and no chunk has another layer.
pub fn create_new_chunks_from_layer<T: Copy>(tilemap_layer: &TilemapLayer<T>, s: ChunkSettings) -> (r: Vec<
    Vec<Chunk<T>>,
>)
    requires
        tilemap_layer.wf(),
        valid_chunk_size(s.max_chunk_size),
    ensures
        grid_layout(r@, tilemap_layer.dims(), s),
        all_have_layer(r@, DEFAULT_LAYER),
        forall|id: u32, x: i32, y: i32|
            on_map(Cell { x, y }, tilemap_layer.dims()) ==> #[trigger] read_layer(r@, id, Cell { x, y }, s.max_chunk_size)
                == if id == DEFAULT_LAYER {
                    tilemap_layer.value_at(x as int, y as int)
                } else {
                    None
                },
        forall|id: u32, x: i32, y: i32|
            on_map(Cell { x, y }, tilemap_layer.dims()) ==> #[trigger] read_entity(r@, id, Cell { x, y }, s.max_chunk_size)
                == if id == DEFAULT_LAYER {
                    tilemap_layer.entity_value(x as int, y as int)
                } else {
                    None
                },
{
    let m = s.max_chunk_size;
    let ghost map = tilemap_layer.dims();
    let mut chunks = match tilemap_layer {
        TilemapLayer::Sparse(data, size, _) => break_hashmap_into_chunks(data, *size, s),
        TilemapLayer::Dense(rows, _) => break_data_vecs_into_chunks(rows, s),
    };
    let ghost g0 = chunks@;
    proof {
        assert forall|cy: int, cx: int| 0 <= cy < g0.len() && 0 <= cx < g0[cy]@.len() implies (#[trigger] g0[cy]@[cx]).has_layer(
            DEFAULT_LAYER,
        ) by {
            assert(g0[cy]@[cx].data@.dom() == set![DEFAULT_LAYER]);
        }
        assert forall|id: u32, x: i32, y: i32| on_map(Cell { x, y }, map) implies #[trigger] read_layer(
            g0,
            id,
            Cell { x, y },
            m,
        ) == if id == DEFAULT_LAYER {
            tilemap_layer.value_at(x as int, y as int)
        } else {
            None
        } by {
            lemma_cell_split(g0, map, s, Cell { x, y });
            let cx = crate::coords::chunk_pos_of(Cell { x, y }, m).0;
            let cy = crate::coords::chunk_pos_of(Cell { x, y }, m).1;
            assert(g0[cy]@[cx].data@.dom() == set![DEFAULT_LAYER]);
            if id == DEFAULT_LAYER {
                assert(read_cell(g0, Cell { x, y }, m) == read_layer(g0, id, Cell { x, y }, m));
            }
        }
    }
    let entities: &Vec<(Cell, Entity)> = match tilemap_layer {
        TilemapLayer::Sparse(_, _, e) => e,
        TilemapLayer::Dense(_, e) => e,
    };
    add_entities_to_layer(DEFAULT_LAYER, &mut chunks, Ghost(map), s, entities);
    proof {
        assert forall|cy: int, cx: int| 0 <= cy < chunks@.len() && 0 <= cx < chunks@[cy]@.len() implies (#[trigger] chunks@[cy]@[cx]).has_layer(
            DEFAULT_LAYER,
        ) by {
            assert(g0[cy]@[cx].has_layer(DEFAULT_LAYER));
            assert(chunks@[cy]@[cx].data@.dom() == g0[cy]@[cx].data@.dom());
        }
    }
    chunks
}

/// Moves the chunks of a grid into a flat store and returns it with the
/// grid of their handles: the handle at row `cy`, column `cx` is the store
/// index of chunk `(cx, cy)`.
pub fn into_chunk_store<T: Copy>(chunks: Vec<Vec<Chunk<T>>>) -> (r: (Vec<Chunk<T>>, Vec<Vec<Entity>>))
    ensures
        r.1@.len() == chunks@.len(),
        forall|b: int| 0 <= b < chunks@.len() ==> #[trigger] r.1@[b]@.len() == chunks@[b]@.len(),
        forall|b: int, a: int|
            0 <= b < chunks@.len() && 0 <= a < chunks@[b]@.len() ==> {
                &&& (#[trigger] r.1@[b]@[a]).0 < r.0@.len()
                &&& r.0@[r.1@[b]@[a].0 as int] == chunks@[b]@[a]
            },
{
    let ghost g0 = chunks@;
    let mut rest = chunks;
    let mut store: Vec<Chunk<T>> = Vec::new();
    let mut handles: Vec<Vec<Entity>> = Vec::new();
    while rest.len() > 0
        invariant
            handles@.len() + rest@.len() == g0.len(),
            rest@ == g0.subrange(handles@.len() as int, g0.len() as int),
            forall|b: int| 0 <= b < handles@.len() ==> #[trigger] handles@[b]@.len() == g0[b]@.len(),
            forall|b: int, a: int|
                0 <= b < handles@.len() && 0 <= a < handles@[b]@.len() ==> {
                    &&& (#[trigger] handles@[b]@[a]).0 < store@.len()
                    &&& store@[handles@[b]@[a].0 as int] == g0[b]@[a]
                },
        decreases rest@.len(),
    {
        let ghost b0 = handles@.len() as int;
        let mut row = rest.remove(0);
        let ghost row0 = row@;
        assert(row0 == g0[b0]@);
        let mut row_handles: Vec<Entity> = Vec::new();
        while row.len() > 0
            invariant
                row_handles@.len() + row@.len() == row0.len(),
                row@ == row0.subrange(row_handles@.len() as int, row0.len() as int),
                forall|a: int|
                    0 <= a < row_handles@.len() ==> {
                        &&& (#[trigger] row_handles@[a]).0 < store@.len()
                        &&& store@[row_handles@[a].0 as int] == row0[a]
                    },
                forall|b: int, a: int|
                    0 <= b < handles@.len() && 0 <= a < handles@[b]@.len() ==> {
                        &&& (#[trigger] handles@[b]@[a]).0 < store@.len()
                        &&& store@[handles@[b]@[a].0 as int] == g0[b]@[a]
                    },
            decreases row@.len(),
        {
            let c = row.remove(0);
            let h = Entity(store.len() as u64);
            store.push(c);
            row_handles.push(h);
        }
        handles.push(row_handles);
        proof {
            assert(rest@ =~= g0.subrange(handles@.len() as int, g0.len() as int));
        }
    }
    (store, handles)
}

/// The tile data that layer `id` holds at `(x, y)` once the main layer and
/// then the added layers, in order, are applied: the last added layer with
/// that id wins, and the main layer has id `DEFAULT_LAYER`.
pub open spec fn layers_tile<T: Copy>(
    main: TilemapLayer<T>,
    added: Seq<(u32, TilemapLayer<T>)>,
    id: u32,
    x: int,
    y: int,
) -> Option<T>
    decreases added.len(),
{
    if added.len() == 0 {
        if id == DEFAULT_LAYER {
            main.value_at(x, y)
        } else {
            None
        }
    } else if added.last().0 == id {
        added.last().1.value_at(x, y)
    } else {
        layers_tile(main, added.drop_last(), id, x, y)
    }
}

/// The handle that layer `id` holds at `(x, y)`, chosen as `layers_tile`
/// chooses the tile data.
pub open spec fn layers_entity<T: Copy>(
    main: TilemapLayer<T>,
    added: Seq<(u32, TilemapLayer<T>)>,
    id: u32,
    x: int,
    y: int,
) -> Option<Entity>
    decreases added.len(),
{
    if added.len() == 0 {
        if id == DEFAULT_LAYER {
            main.entity_value(x, y)
        } else {
            None
        }
    } else if added.last().0 == id {
        added.last().1.entity_value(x, y)
    } else {
        layers_entity(main, added.drop_last(), id, x, y)
    }
}

/// Collects the layers of a map before it is cut into chunks.
pub struct TilemapBuilder<T> {
    pub main_layer: Option<TilemapLayer<T>>,
    pub layer_info: Vec<(u32, TilemapLayer<T>)>,
    pub chunk_settings: ChunkSettings,
    pub map_size: UVec2,
}

impl<T: Copy> TilemapBuilder<T> {
    /// Well-formedness: usable settings, and every layer well formed and of
    /// the map's size.
    pub open spec fn wf(&self) -> bool {
        &&& valid_chunk_size(self.chunk_settings.max_chunk_size)
        &&& match self.main_layer {
            Some(l) => l.wf() && l.dims() == self.map_size,
            None => true,
        }
        &&& forall|i: int|
            0 <= i < self.layer_info@.len() ==> (#[trigger] self.layer_info@[i]).1.wf()
                && self.layer_info@[i].1.dims() == self.map_size
    }

    /// A builder whose main layer is `layer_data`; its size becomes the
    /// map's size, which every added layer must match.
    pub fn new(layer_data: TilemapLayer<T>, chunk_settings: ChunkSettings) -> (r: Self)
        requires
            layer_data.wf(),
            valid_chunk_size(chunk_settings.max_chunk_size),
        ensures
            r.wf(),
            r.main_layer == Some(layer_data),
            r.layer_info@.len() == 0,
            r.chunk_settings == chunk_settings,
            r.map_size == layer_data.dims(),
    {
        let dimensions = layer_data.dimensions();
        TilemapBuilder { main_layer: Some(layer_data), layer_info: Vec::new(), chunk_settings, map_size: dimensions }
    }

    /// Registers `layer_data` as layer `map_layer`. Fails with
    /// `InvalidLayerId` unless the id is a single bit, and with
    /// `LayerSizeMismatch` when the layer's size differs from the map's; the
    /// builder is then unchanged.
    pub fn add_layer(&mut self, layer_data: TilemapLayer<T>, map_layer: u32) -> (r: Result<(), BuilderError>)
        requires
            old(self).wf(),
            layer_data.wf(),
        ensures
            final(self).wf(),
            final(self).main_layer == old(self).main_layer,
            final(self).chunk_settings == old(self).chunk_settings,
            final(self).map_size == old(self).map_size,
            r == (if !single_bit(map_layer) {
                Err(BuilderError::InvalidLayerId)
            } else if layer_data.dims() != old(self).map_size {
                Err(BuilderError::LayerSizeMismatch)
            } else {
                Ok(())
            }),
            r is Ok ==> final(self).layer_info@ == old(self).layer_info@.push((map_layer, layer_data)),
            r is Err ==> final(self).layer_info@ == old(self).layer_info@,
    {
        if !(map_layer != 0 && map_layer & (map_layer - 1) == 0) {
            return Err(BuilderError::InvalidLayerId);
        }
        let dims = layer_data.dimensions();
        if dims.x != self.map_size.x || dims.y != self.map_size.y {
            return Err(BuilderError::LayerSizeMismatch);
        }
        self.layer_info.push((map_layer, layer_data));
        Ok(())
    }

    /// Cuts every layer into the chunk grid of the map, stores the chunks
    /// and returns a manager over the map, on the default layer. Every cell
    /// of the map reads, on each layer id, as `layers_tile` and
    /// `layers_entity` give it. `None` when there is no main layer.
    pub fn spawn_tilemap(self) -> (r: Option<TilemapManager<T>>)
        requires
            self.wf(),
        ensures
            r is None <==> self.main_layer is None,
            r is Some ==> {
                let mgr = r->Some_0;
                &&& mgr.wf()
                &&& mgr.map_size@ == self.map_size
                &&& mgr.layer == DEFAULT_LAYER
                &&& mgr.tilemap.chunk_pos_conversion_settings == self.chunk_settings
                &&& forall|id: u32, x: i32, y: i32|
                    on_map(Cell { x, y }, self.map_size) ==> #[trigger] mgr.layer_tile(id, Cell { x, y })
                        == layers_tile(self.main_layer->Some_0, self.layer_info@, id, x as int, y as int)
                &&& forall|id: u32, x: i32, y: i32|
                    on_map(Cell { x, y }, self.map_size) ==> #[trigger] mgr.layer_entity(id, Cell { x, y })
                        == layers_entity(self.main_layer->Some_0, self.layer_info@, id, x as int, y as int)
            },
    {
        let s = self.chunk_settings;
        let m = s.max_chunk_size;
        let ghost map = self.map_size;
        let main = match self.main_layer {
            None => return None,
            Some(l) => l,
        };
        let mut chunks = create_new_chunks_from_layer(&main, s);
        let mut k: usize = 0;
        while k < self.layer_info.len()
            invariant
                m == s.max_chunk_size,
                s == self.chunk_settings,
                self.wf(),
                map == self.map_size,
                main.dims() == map,
                self.main_layer == Some(main),
                k <= self.layer_info@.len(),
                grid_layout(chunks@, map, s),
                all_have_layer(chunks@, DEFAULT_LAYER),
                forall|id: u32, x: i32, y: i32|
                    on_map(Cell { x, y }, map) ==> #[trigger] read_layer(chunks@, id, Cell { x, y }, m)
                        == layers_tile(main, self.layer_info@.subrange(0, k as int), id, x as int, y as int),
                forall|id: u32, x: i32, y: i32|
                    on_map(Cell { x, y }, map) ==> #[trigger] read_entity(chunks@, id, Cell { x, y }, m)
                        == layers_entity(main, self.layer_info@.subrange(0, k as int), id, x as int, y as int),
            decreases self.layer_info@.len() - k,
        {
            let entry: &(u32, TilemapLayer<T>) = &self.layer_info[k];
            proof {
                assert(self.layer_info@[k as int] == *entry);
            }
            add_layer_to_chunks(entry.0, &mut chunks, Ghost(map), s, &entry.1);
            proof {
                let next = self.layer_info@.subrange(0, k + 1);
                assert(next.drop_last() =~= self.layer_info@.subrange(0, k as int));
                assert(next.last() == *entry);
            }
            k = k + 1;
        }
        proof {
            assert(self.layer_info@.subrange(0, self.layer_info@.len() as int) =~= self.layer_info@);
        }
        let ghost g = chunks@;
        let (store, handles) = into_chunk_store(chunks);
        let tilemap = Tilemap::new(Chunks::new(handles, m), s);
        proof {
            assert forall|cy: int, cx: int|
                0 <= cy < handles@.len() && 0 <= cx < handles@[cy]@.len() implies {
                    let h = (#[trigger] handles@[cy]@[cx]).0 as int;
                    &&& h < store@.len()
                    &&& store@[h] == g[cy]@[cx]
                } by {}
            assert(registry_ok(&tilemap, store@, map));
        }
        let mgr = TilemapManager::new(tilemap, store, Ghost(map));
        proof {
            assert forall|id: u32, x: i32, y: i32| on_map(Cell { x, y }, map) implies #[trigger] mgr.layer_tile(
                id,
                Cell { x, y },
            ) == layers_tile(main, self.layer_info@, id, x as int, y as int) by {
                lemma_cell_split(g, map, s, Cell { x, y });
                assert(read_layer(g, id, Cell { x, y }, m) == layers_tile(main, self.layer_info@, id, x as int, y as int));
            }
            assert forall|id: u32, x: i32, y: i32| on_map(Cell { x, y }, map) implies #[trigger] mgr.layer_entity(
                id,
                Cell { x, y },
            ) == layers_entity(main, self.layer_info@, id, x as int, y as int) by {
                lemma_cell_split(g, map, s, Cell { x, y });
                assert(read_entity(g, id, Cell { x, y }, m) == layers_entity(main, self.layer_info@, id, x as int, y as int));
            }
        }
        Some(mgr)
    }
}

/// The maximum chunk size of a builder made by `default`.
pub const DEFAULT_MAX_CHUNK_SIZE: u32 = 50;

impl<T: Copy> Default for TilemapBuilder<T> {
    /// A builder with no main layer (it spawns nothing), square chunks of
    /// at most 50 by 50 tiles, and an empty map size.
    fn default() -> (r: Self)
        ensures
            r.wf(),
            r.main_layer is None,
            r.layer_info@.len() == 0,
            r.chunk_settings == (ChunkSettings {
                max_chunk_size: UVec2 { x: DEFAULT_MAX_CHUNK_SIZE, y: DEFAULT_MAX_CHUNK_SIZE },
                topology: Topology::Square,
            }),
            r.map_size == (UVec2 { x: 0, y: 0 }),
    {
        TilemapBuilder {
            main_layer: None,
            layer_info: Vec::new(),
            chunk_settings: ChunkSettings {
                max_chunk_size: UVec2::new(DEFAULT_MAX_CHUNK_SIZE, DEFAULT_MAX_CHUNK_SIZE),
                topology: Topology::Square,
            },
            map_size: UVec2::new(0, 0),
        }
    }
}

} // verus!
