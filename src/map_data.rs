//! Cutting a whole map layer into a grid of chunks.
use crate::chunk::{local_of, Chunk, ChunkError, ChunkSettings, DEFAULT_LAYER};
use crate::coords::{
    cell_to_chunk_pos, chunk_cell_of, chunk_pos_of, floor_div, valid_chunk_size, Cell, ChunkPos,
    Entity, UVec2,
};
use crate::layer::{in_rect, rows_uniform, ChunkLayerType};
use vstd::prelude::*;

verus! {

/// `ceil(a / m)` for `a >= 0` and `m > 0`.
pub open spec fn ceil_div(a: int, m: int) -> int {
    (a + m - 1) / m
}

/// The number of chunks along an axis of `total` tiles.
pub open spec fn chunk_count(total: int, m: int) -> int {
    ceil_div(total, m)
}

/// The length, along an axis of `total` tiles, of chunk `c`: `m`, or the
/// remainder for the last chunk; never padded.
pub open spec fn clip_len(total: int, m: int, c: int) -> int {
    if total - c * m >= m {
        m
    } else if total - c * m > 0 {
        total - c * m
    } else {
        0
    }
}

/// Width and height of dense rows (`rows[y][x]`).
pub open spec fn rows_width<T>(rows: Seq<Vec<T>>) -> int {
    if rows.len() > 0 {
        rows[0]@.len() as int
    } else {
        0
    }
}

/// Whether every chunk of `g` holds only the default layer, stored densely
/// when `dense` and sparsely otherwise.
pub open spec fn default_layer_only<T: Copy>(g: Seq<Vec<Chunk<T>>>, dense: bool) -> bool {
    forall|cy: int, cx: int|
        0 <= cy < g.len() && 0 <= cx < g[cy]@.len() ==> {
            &&& (#[trigger] g[cy]@[cx]).data@.dom() == set![DEFAULT_LAYER]
            &&& g[cy]@[cx].layer(DEFAULT_LAYER).is_dense() == dense
        }
}

/// The chunk of `g` that holds `cell` (meaningful inside the map).
pub open spec fn chunk_of<T>(g: Seq<Vec<Chunk<T>>>, cell: Cell, m: UVec2) -> Chunk<T> {
    g[chunk_pos_of(cell, m).1]@[chunk_pos_of(cell, m).0]
}

/// The default-layer tile that the chunk grid `g` holds for `cell`: read
/// from the chunk the conversion math picks, at the in-chunk position it
/// picks.
pub open spec fn read_cell<T: Copy>(g: Seq<Vec<Chunk<T>>>, cell: Cell, m: UVec2) -> Option<T> {
    chunk_of(g, cell, m).tile(DEFAULT_LAYER, chunk_cell_of(cell, m).0, chunk_cell_of(cell, m).1)
}

/// The value the sparse entries give to the cell `(x, y)`: that of the last
/// entry for it, if there is one.
pub open spec fn last_cell_entry<T>(entries: Seq<(Cell, T)>, x: int, y: int) -> Option<T>
    decreases entries.len(),
{
    if entries.len() == 0 {
        None
    } else {
        let e = entries.last();
        if e.0.x as int == x && e.0.y as int == y {
            Some(e.1)
        } else {
            last_cell_entry(entries.drop_last(), x, y)
        }
    }
}

/// Whether every cell of the entries lies on a map of size `map`.
pub open spec fn cells_on_map<T>(entries: Seq<(Cell, T)>, map: UVec2) -> bool {
    forall|i: int|
        0 <= i < entries.len() ==> in_rect(
            #[trigger] entries[i].0.x as int,
            entries[i].0.y as int,
            map.x as int,
            map.y as int,
        )
}

/// Along one axis: a tile inside the map lies in a chunk of the grid, at an
/// offset inside that chunk's clipped length.
pub proof fn lemma_axis_split(a: int, total: int, m: int)
    requires
        0 <= a < total,
        m > 0,
    ensures
        0 <= floor_div(a, m) < chunk_count(total, m),
        0 <= a - floor_div(a, m) * m < clip_len(total, m, floor_div(a, m)),
        a == floor_div(a, m) * m + (a - floor_div(a, m) * m),
{
    let c = a / m;
    let l = a % m;
    vstd::arithmetic::div_mod::lemma_fundamental_div_mod(a, m);
    assert(0 <= c) by {
        vstd::arithmetic::div_mod::lemma_div_pos_is_pos(a, m);
    }
    assert(c < ceil_div(total, m)) by {
        assert(c * m + m <= total + m - 1) by (nonlinear_arith)
            requires
                a == c * m + l,
                0 <= l < m,
                a < total,
        ;
        assert((c + 1) * m <= total + m - 1) by (nonlinear_arith)
            requires
                c * m + m <= total + m - 1,
        ;
        vstd::arithmetic::div_mod::lemma_div_is_ordered((c + 1) * m, total + m - 1, m);
        vstd::arithmetic::div_mod::lemma_div_multiples_vanish(c + 1, m);
    }
}

/// Along one axis: an offset inside chunk `c`'s clipped length is a tile
/// inside the map that converts back to `c` and the offset.
pub proof fn lemma_axis_join(c: int, i: int, total: int, m: int)
    requires
        0 <= c,
        0 <= i < clip_len(total, m, c),
        m > 0,
    ensures
        0 <= c * m + i < total,
        floor_div(c * m + i, m) == c,
        (c * m + i) - floor_div(c * m + i, m) * m == i,
{
    assert(0 <= c * m) by (nonlinear_arith)
        requires
            0 <= c,
            m > 0,
    ;
    vstd::arithmetic::div_mod::lemma_fundamental_div_mod_converse(c * m + i, m, c, i);
}

/// There are never more chunks on an axis than tiles.
pub proof fn lemma_count_le(total: int, m: int)
    requires
        0 <= total,
        m > 0,
    ensures
        0 <= chunk_count(total, m) <= total,
{
    vstd::arithmetic::div_mod::lemma_fundamental_div_mod(total + m - 1, m);
    let q = (total + m - 1) / m;
    let r = (total + m - 1) % m;
    assert(0 <= q <= total) by (nonlinear_arith)
        requires
            total + m - 1 == q * m + r,
            0 <= r < m,
            m > 0,
            0 <= total,
    ;
}

/// An axis of no tiles has no chunks; one of some tiles has some.
pub proof fn lemma_count_zero(total: int, m: int)
    requires
        0 <= total,
        m > 0,
    ensures
        chunk_count(total, m) == 0 <==> total == 0,
{
    if total > 0 {
        vstd::arithmetic::div_mod::lemma_div_is_ordered(m, total + m - 1, m);
        vstd::arithmetic::div_mod::lemma_div_by_self(m);
    } else {
        vstd::arithmetic::div_mod::lemma_basic_div(m - 1, m);
    }
}

/// Along an axis of some tiles: the first chunk's length times the chunk
/// count less one, plus the last chunk's length, is the axis length.
pub proof fn lemma_corner_sum(total: int, m: int)
    requires
        0 < total,
        m > 0,
    ensures
        clip_len(total, m, 0) * (chunk_count(total, m) - 1) + clip_len(total, m, chunk_count(total, m) - 1)
            == total,
        clip_len(total, m, 0) * (chunk_count(total, m) - 1) <= total,
{
    lemma_count_zero(total, m);
    let n = chunk_count(total, m);
    vstd::arithmetic::div_mod::lemma_fundamental_div_mod(total + m - 1, m);
    let r = (total + m - 1) % m;
    assert(total + m - 1 == n * m + r);
    if n == 1 {
        assert(total <= m) by (nonlinear_arith)
            requires
                total + m - 1 == n * m + r,
                n == 1,
                r < m,
        ;
        assert(0 * m == 0);
        assert(clip_len(total, m, 0) == total);
    } else {
        assert((n - 1) * m < total) by (nonlinear_arith)
            requires
                total + m - 1 == n * m + r,
                0 <= r < m,
        ;
        assert(total <= n * m) by (nonlinear_arith)
            requires
                total + m - 1 == n * m + r,
                0 <= r < m,
        ;
        assert(total >= m) by (nonlinear_arith)
            requires
                (n - 1) * m < total,
                n >= 2,
                m > 0,
        ;
        assert(clip_len(total, m, n - 1) == total - (n - 1) * m) by (nonlinear_arith)
            requires
                (n - 1) * m < total,
                total <= n * m,
        ;
        assert(m * (n - 1) == (n - 1) * m) by (nonlinear_arith);
    }
}

/// Along one axis: chunks below the count have a positive clipped length.
pub proof fn lemma_clip_positive(c: int, total: int, m: int)
    requires
        0 <= c < chunk_count(total, m),
        0 <= total,
        m > 0,
    ensures
        clip_len(total, m, c) >= 1,
        clip_len(total, m, c) <= m,
{
    vstd::arithmetic::div_mod::lemma_fundamental_div_mod(total + m - 1, m);
    let q = (total + m - 1) / m;
    let r = (total + m - 1) % m;
    assert(c * m < total) by (nonlinear_arith)
        requires
            c < q,
            0 <= c,
            total + m - 1 == q * m + r,
            0 <= r < m,
            m > 0,
    ;
}

/// Dense round trip: reading any cell of the map from the chunk that the
/// conversion math picks, at the in-chunk position it picks, gives back the
/// tile of the input rows.
pub proof fn lemma_dense_round_trip<T: Copy>(
    g: Seq<Vec<Chunk<T>>>,
    rows: Seq<Vec<T>>,
    s: ChunkSettings,
)
    requires
        valid_chunk_size(s.max_chunk_size),
        rows.len() <= i32::MAX,
        rows_width(rows) <= i32::MAX,
        rows_uniform(rows, rows_width(rows)),
        grid_layout(g, UVec2 { x: rows_width(rows) as u32, y: rows.len() as u32 }, s),
        dense_contents(g, rows, s),
    ensures
        forall|x: i32, y: i32|
            0 <= x < rows_width(rows) && 0 <= y < rows.len() ==> #[trigger] read_cell(
                g,
                Cell { x, y },
                s.max_chunk_size,
            ) == Some(rows[y as int]@[x as int]),
{
    let m = s.max_chunk_size;
    assert forall|x: i32, y: i32|
        0 <= x < rows_width(rows) && 0 <= y < rows.len() implies #[trigger] read_cell(
            g,
            Cell { x, y },
            m,
        ) == Some(rows[y as int]@[x as int]) by {
        lemma_axis_split(x as int, rows_width(rows), m.x as int);
        lemma_axis_split(y as int, rows.len() as int, m.y as int);
        let cx = floor_div(x as int, m.x as int);
        let cy = floor_div(y as int, m.y as int);
        let i = x as int - cx * m.x;
        let j = y as int - cy * m.y;
        assert(g[cy]@[cx].tile(DEFAULT_LAYER, i, j) == Some(rows[cy * m.y + j]@[cx * m.x + i]));
    }
}

/// Whether chunk `(cx, cy)` of `g` holds, in its default layer, the tiles of
/// `rows` over its rectangle.
pub open spec fn dense_contents<T: Copy>(
    g: Seq<Vec<Chunk<T>>>,
    rows: Seq<Vec<T>>,
    s: ChunkSettings,
) -> bool {
    let m = s.max_chunk_size;
    forall|cy: int, cx: int, i: int, j: int|
        0 <= cy < g.len() && 0 <= cx < g[cy]@.len() && g[cy]@[cx].layer(DEFAULT_LAYER).contains(
            i,
            j,
        ) ==> #[trigger] g[cy]@[cx].tile(DEFAULT_LAYER, i, j) == Some(
            rows[cy * m.y + j]@[cx * m.x + i],
        )
}

/// The tile of layer `id` that the chunk grid `g` holds for `cell`.
pub open spec fn read_layer<T: Copy>(g: Seq<Vec<Chunk<T>>>, id: u32, cell: Cell, m: UVec2) -> Option<T> {
    chunk_of(g, cell, m).tile(id, chunk_cell_of(cell, m).0, chunk_cell_of(cell, m).1)
}

/// The handle of layer `id` that the chunk grid `g` holds for `cell`.
pub open spec fn read_entity<T: Copy>(g: Seq<Vec<Chunk<T>>>, id: u32, cell: Cell, m: UVec2) -> Option<Entity> {
    chunk_of(g, cell, m).entity(id, chunk_cell_of(cell, m).0, chunk_cell_of(cell, m).1)
}

/// Whether `cell` lies on a map of size `map`.
pub open spec fn on_map(cell: Cell, map: UVec2) -> bool {
    in_rect(cell.x as int, cell.y as int, map.x as int, map.y as int)
}

/// Whether `g` is laid out as the chunk grid of a map of size `map` under
/// settings `s`, with every layer of a chunk sized as the chunk.
pub open spec fn grid_layout<T: Copy>(g: Seq<Vec<Chunk<T>>>, map: UVec2, s: ChunkSettings) -> bool {
    let m = s.max_chunk_size;
    &&& valid_chunk_size(m)
    &&& map.x <= i32::MAX
    &&& map.y <= i32::MAX
    &&& g.len() == chunk_count(map.y as int, m.y as int)
    &&& forall|cy: int| 0 <= cy < g.len() ==> #[trigger] g[cy]@.len() == chunk_count(map.x as int, m.x as int)
    &&& forall|cy: int, cx: int|
        0 <= cy < g.len() && 0 <= cx < g[cy]@.len() ==> {
            let c = #[trigger] g[cy]@[cx];
            &&& c.wf()
            &&& c.chunk_pos == (ChunkPos { x: cx as i32, y: cy as i32 })
            &&& c.chunk_settings == s
            &&& c.dims().x == clip_len(map.x as int, m.x as int, cx)
            &&& c.dims().y == clip_len(map.y as int, m.y as int, cy)
            &&& forall|id: u32| #[trigger] c.has_layer(id) ==> c.layer(id).dims() == c.dims()
        }
}

/// Whether two grids of the same layout have the same layers, with the same
/// storage kinds, in every chunk.
pub open spec fn same_layers<T: Copy>(g1: Seq<Vec<Chunk<T>>>, g2: Seq<Vec<Chunk<T>>>) -> bool {
    &&& g1.len() == g2.len()
    &&& forall|cy: int| 0 <= cy < g1.len() ==> #[trigger] g1[cy]@.len() == g2[cy]@.len()
    &&& forall|cy: int, cx: int|
        0 <= cy < g1.len() && 0 <= cx < g1[cy]@.len() ==> {
            &&& (#[trigger] g1[cy]@[cx]).data@.dom() == g2[cy]@[cx].data@.dom()
            &&& forall|id: u32|
                #[trigger] g1[cy]@[cx].has_layer(id) ==> g1[cy]@[cx].layer(id).is_dense()
                    == g2[cy]@[cx].layer(id).is_dense()
        }
}

/// Having the same layers is transitive.
pub proof fn lemma_same_layers_trans<T: Copy>(
    g1: Seq<Vec<Chunk<T>>>,
    g2: Seq<Vec<Chunk<T>>>,
    g3: Seq<Vec<Chunk<T>>>,
)
    requires
        same_layers(g1, g2),
        same_layers(g2, g3),
    ensures
        same_layers(g1, g3),
{
    assert forall|cy: int, cx: int| 0 <= cy < g1.len() && 0 <= cx < g1[cy]@.len() implies {
        &&& (#[trigger] g1[cy]@[cx]).data@.dom() == g3[cy]@[cx].data@.dom()
        &&& forall|id: u32|
            #[trigger] g1[cy]@[cx].has_layer(id) ==> g1[cy]@[cx].layer(id).is_dense()
                == g3[cy]@[cx].layer(id).is_dense()
    } by {
        assert(g2[cy]@.len() == g1[cy]@.len());
        assert forall|id: u32| #[trigger] g1[cy]@[cx].has_layer(id) implies g1[cy]@[cx].layer(id).is_dense()
            == g3[cy]@[cx].layer(id).is_dense() by {
            assert(g1[cy]@[cx].data@.dom().contains(id));
            assert(g2[cy]@[cx].has_layer(id));
        }
    }
}

/// A cell of the map and the chunk and in-chunk position that the
/// conversion math picks for it.
pub proof fn lemma_cell_split<T: Copy>(g: Seq<Vec<Chunk<T>>>, map: UVec2, s: ChunkSettings, cell: Cell)
    requires
        grid_layout(g, map, s),
        on_map(cell, map),
    ensures
        ({
            let m = s.max_chunk_size;
            let cx = chunk_pos_of(cell, m).0;
            let cy = chunk_pos_of(cell, m).1;
            &&& 0 <= cy < g.len()
            &&& 0 <= cx < g[cy]@.len()
            &&& g[cy]@[cx].layer(DEFAULT_LAYER).contains(chunk_cell_of(cell, m).0, chunk_cell_of(cell, m).1)
            &&& cx * m.x + chunk_cell_of(cell, m).0 == cell.x
            &&& cy * m.y + chunk_cell_of(cell, m).1 == cell.y
        }),
{
    let m = s.max_chunk_size;
    lemma_axis_split(cell.x as int, map.x as int, m.x as int);
    lemma_axis_split(cell.y as int, map.y as int, m.y as int);
}

/// A chunk changed in place, keeping its position, settings, layers and
/// their sizes and storage kinds, keeps the grid laid out.
proof fn lemma_chunk_replaced<T: Copy>(
    old_g: Seq<Vec<Chunk<T>>>,
    new_g: Seq<Vec<Chunk<T>>>,
    map: UVec2,
    s: ChunkSettings,
    cy: int,
    cx: int,
)
    requires
        grid_layout(old_g, map, s),
        0 <= cy < old_g.len(),
        0 <= cx < old_g[cy]@.len(),
        new_g.len() == old_g.len(),
        new_g[cy]@.len() == old_g[cy]@.len(),
        forall|b: int| 0 <= b < new_g.len() && b != cy ==> new_g[b] == old_g[b],
        forall|a: int| 0 <= a < new_g[cy]@.len() && a != cx ==> new_g[cy]@[a] == old_g[cy]@[a],
        ({
            let c = new_g[cy]@[cx];
            let c0 = old_g[cy]@[cx];
            &&& c.wf()
            &&& c.chunk_pos == c0.chunk_pos
            &&& c.chunk_settings == c0.chunk_settings
            &&& c.data@.dom() == c0.data@.dom()
            &&& forall|id: u32|
                #[trigger] c0.has_layer(id) ==> c.layer(id).dims() == c0.layer(id).dims()
                    && c.layer(id).is_dense() == c0.layer(id).is_dense()
        }),
    ensures
        grid_layout(new_g, map, s),
        same_layers(new_g, old_g),
{
    let c = new_g[cy]@[cx];
    let c0 = old_g[cy]@[cx];
    assert(c0.has_layer(DEFAULT_LAYER));
    assert(c.dims() == c0.dims());
    assert forall|b: int, a: int|
        0 <= b < new_g.len() && 0 <= a < new_g[b]@.len() implies {
            let c = #[trigger] new_g[b]@[a];
            let c0 = old_g[b]@[a];
            &&& c.wf()
            &&& c.chunk_pos == c0.chunk_pos
            &&& c.chunk_settings == c0.chunk_settings
            &&& c.data@.dom() == c0.data@.dom()
            &&& c.dims() == c0.dims()
            &&& forall|id: u32| #[trigger] c.has_layer(id) ==> c.layer(id).dims() == c.dims()
            &&& forall|id: u32|
                #[trigger] c.has_layer(id) ==> c.layer(id).is_dense() == c0.layer(id).is_dense()
        } by {
        let c = new_g[b]@[a];
        let c0 = old_g[b]@[a];
        if b != cy || a != cx {
            assert(c == c0);
        }
        assert forall|id: u32| #[trigger] c.has_layer(id) implies c.layer(id).dims() == c.dims()
            && c.layer(id).is_dense() == c0.layer(id).is_dense() by {
            assert(c.data@.dom().contains(id));
            assert(c0.has_layer(id));
        }
    }
}

/// Sets the tile data of layer `map_layer` for `cell`, a cell of the map,
/// in the chunk that holds it. Every other tile of every layer, and every
/// handle, stays as it was.
pub fn set_tile_in_grid<T: Copy>(
    g: &mut Vec<Vec<Chunk<T>>>,
    map: Ghost<UVec2>,
    s: ChunkSettings,
    map_layer: u32,
    cell: Cell,
    value: T,
)
    requires
        grid_layout(old(g)@, map@, s),
        on_map(cell, map@),
        chunk_of(old(g)@, cell, s.max_chunk_size).has_layer(map_layer),
    ensures
        grid_layout(final(g)@, map@, s),
        same_layers(final(g)@, old(g)@),
        forall|id: u32, x: i32, y: i32|
            on_map(Cell { x, y }, map@) ==> #[trigger] read_layer(final(g)@, id, Cell { x, y }, s.max_chunk_size)
                == if id == map_layer && x == cell.x && y == cell.y {
                    Some(value)
                } else {
                    read_layer(old(g)@, id, Cell { x, y }, s.max_chunk_size)
                },
        forall|id: u32, x: i32, y: i32|
            on_map(Cell { x, y }, map@) ==> #[trigger] read_entity(final(g)@, id, Cell { x, y }, s.max_chunk_size)
                == read_entity(old(g)@, id, Cell { x, y }, s.max_chunk_size),
{
    let m = s.max_chunk_size;
    proof {
        lemma_cell_split(old(g)@, map@, s, cell);
    }
    let pos = cell_to_chunk_pos(cell, m);
    let cy = pos.y as usize;
    let cx = pos.x as usize;
    let row: &mut Vec<Chunk<T>> = &mut g[cy];
    let chunk: &mut Chunk<T> = &mut row[cx];
    let _ = chunk.set_tile_data_from_cell(map_layer, cell, value);
    proof {
        let old_g = old(g)@;
        let new_g = g@;
        lemma_chunk_replaced(old_g, new_g, map@, s, cy as int, cx as int);
        assert forall|id: u32, x: i32, y: i32|
            on_map(Cell { x, y }, map@) implies #[trigger] read_layer(new_g, id, Cell { x, y }, m)
                == if id == map_layer && x == cell.x && y == cell.y {
                    Some(value)
                } else {
                    read_layer(old_g, id, Cell { x, y }, m)
                } by {
            lemma_cell_split(old_g, map@, s, Cell { x, y });
        }
        assert forall|id: u32, x: i32, y: i32|
            on_map(Cell { x, y }, map@) implies #[trigger] read_entity(new_g, id, Cell { x, y }, m)
                == read_entity(old_g, id, Cell { x, y }, m) by {
            lemma_cell_split(old_g, map@, s, Cell { x, y });
        }
    }
}

/// Attaches `entity` to `cell`, a cell of the map, in layer `map_layer` of
/// the chunk that holds it. Every other handle of every layer, and every
/// tile, stays as it was.
pub fn set_entity_in_grid<T: Copy>(
    g: &mut Vec<Vec<Chunk<T>>>,
    map: Ghost<UVec2>,
    s: ChunkSettings,
    map_layer: u32,
    cell: Cell,
    entity: Entity,
)
    requires
        grid_layout(old(g)@, map@, s),
        on_map(cell, map@),
        chunk_of(old(g)@, cell, s.max_chunk_size).has_layer(map_layer),
    ensures
        grid_layout(final(g)@, map@, s),
        same_layers(final(g)@, old(g)@),
        forall|id: u32, x: i32, y: i32|
            on_map(Cell { x, y }, map@) ==> #[trigger] read_entity(final(g)@, id, Cell { x, y }, s.max_chunk_size)
                == if id == map_layer && x == cell.x && y == cell.y {
                    Some(entity)
                } else {
                    read_entity(old(g)@, id, Cell { x, y }, s.max_chunk_size)
                },
        forall|id: u32, x: i32, y: i32|
            on_map(Cell { x, y }, map@) ==> #[trigger] read_layer(final(g)@, id, Cell { x, y }, s.max_chunk_size)
                == read_layer(old(g)@, id, Cell { x, y }, s.max_chunk_size),
{
    let m = s.max_chunk_size;
    proof {
        lemma_cell_split(old(g)@, map@, s, cell);
    }
    let pos = cell_to_chunk_pos(cell, m);
    let cy = pos.y as usize;
    let cx = pos.x as usize;
    let row: &mut Vec<Chunk<T>> = &mut g[cy];
    let chunk: &mut Chunk<T> = &mut row[cx];
    let _ = chunk.set_tile_entity_from_cell(map_layer, cell, entity);
    proof {
        let old_g = old(g)@;
        let new_g = g@;
        lemma_chunk_replaced(old_g, new_g, map@, s, cy as int, cx as int);
        assert forall|id: u32, x: i32, y: i32|
            on_map(Cell { x, y }, map@) implies #[trigger] read_entity(new_g, id, Cell { x, y }, m)
                == if id == map_layer && x == cell.x && y == cell.y {
                    Some(entity)
                } else {
                    read_entity(old_g, id, Cell { x, y }, m)
                } by {
            lemma_cell_split(old_g, map@, s, Cell { x, y });
        }
        assert forall|id: u32, x: i32, y: i32|
            on_map(Cell { x, y }, map@) implies #[trigger] read_layer(new_g, id, Cell { x, y }, m)
                == read_layer(old_g, id, Cell { x, y }, m) by {
            lemma_cell_split(old_g, map@, s, Cell { x, y });
        }
    }
}

/// The rows of `data` that fall in chunk `chunk_pos`: the rectangle from
/// `chunk_pos * max_chunk_size`, clipped to the map. A chunk past the map
/// gets no rows.
pub fn break_data_vecs_down_into_chunk_data<T: Copy>(
    data: &Vec<Vec<T>>,
    chunk_pos: ChunkPos,
    max_chunk_size: UVec2,
) -> (r: Vec<Vec<T>>)
    requires
        valid_chunk_size(max_chunk_size),
        chunk_pos.x >= 0,
        chunk_pos.y >= 0,
        rows_uniform(data@, rows_width(data@)),
    ensures
        r@.len() == clip_len(data@.len() as int, max_chunk_size.y as int, chunk_pos.y as int),
        forall|j: int|
            0 <= j < r@.len() ==> #[trigger] r@[j]@.len() == clip_len(
                rows_width(data@),
                max_chunk_size.x as int,
                chunk_pos.x as int,
            ),
        forall|j: int, i: int|
            0 <= j < r@.len() && 0 <= i < r@[j]@.len() ==> #[trigger] r@[j]@[i] == data@[chunk_pos.y
                * max_chunk_size.y + j]@[chunk_pos.x * max_chunk_size.x + i],
{
    let height = data.len();
    let width: usize = if height > 0 {
        data[0].len()
    } else {
        0
    };
    let ghost mx = max_chunk_size.x as int;
    let ghost my = max_chunk_size.y as int;
    assert(chunk_pos.x * max_chunk_size.x <= 0x7fff_ffff * 0x7fff_ffff) by (nonlinear_arith)
        requires
            0 <= chunk_pos.x <= 0x7fff_ffff,
            0 <= max_chunk_size.x <= 0x7fff_ffff,
    ;
    assert(chunk_pos.y * max_chunk_size.y <= 0x7fff_ffff * 0x7fff_ffff) by (nonlinear_arith)
        requires
            0 <= chunk_pos.y <= 0x7fff_ffff,
            0 <= max_chunk_size.y <= 0x7fff_ffff,
    ;
    let x0: u64 = (chunk_pos.x as u64) * (max_chunk_size.x as u64);
    let y0: u64 = (chunk_pos.y as u64) * (max_chunk_size.y as u64);
    let mut out: Vec<Vec<T>> = Vec::new();
    if y0 >= height as u64 {
        assert(clip_len(height as int, my, chunk_pos.y as int) == 0);
        return out;
    }
    let y_end: u64 = if height as u64 - y0 >= max_chunk_size.y as u64 {
        y0 + max_chunk_size.y as u64
    } else {
        height as u64
    };
    let x_start: u64 = if x0 >= width as u64 {
        width as u64
    } else {
        x0
    };
    let x_end: u64 = if x0 >= width as u64 {
        width as u64
    } else if width as u64 - x0 >= max_chunk_size.x as u64 {
        x0 + max_chunk_size.x as u64
    } else {
        width as u64
    };
    let y0 = y0 as usize;
    let x0 = x_start as usize;
    let y_end = y_end as usize;
    let x_end = x_end as usize;
    let mut y: usize = y0;
    while y < y_end
        invariant
            height == data@.len(),
            width == rows_width(data@),
            rows_uniform(data@, rows_width(data@)),
            y0 <= y <= y_end <= height,
            x0 <= x_end <= width,
            y_end - y0 == clip_len(height as int, my, chunk_pos.y as int),
            x_end - x0 == clip_len(width as int, mx, chunk_pos.x as int),
            y0 == chunk_pos.y * my,
            x0 < x_end ==> x0 == chunk_pos.x * mx,
            out@.len() == y - y0,
            forall|j: int| 0 <= j < out@.len() ==> #[trigger] out@[j]@.len() == x_end - x0,
            forall|j: int, i: int|
                0 <= j < out@.len() && 0 <= i < out@[j]@.len() ==> #[trigger] out@[j]@[i]
                    == data@[y0 + j]@[x0 + i],
        decreases y_end - y,
    {
        let src: &Vec<T> = &data[y];
        let mut row: Vec<T> = Vec::new();
        let mut x: usize = x0;
        while x < x_end
            invariant
                y < data@.len(),
                src@ == data@[y as int]@,
                src@.len() == width,
                x0 <= x <= x_end <= width,
                row@.len() == x - x0,
                forall|i: int| 0 <= i < row@.len() ==> #[trigger] row@[i] == src@[x0 + i],
            decreases x_end - x,
        {
            row.push(src[x]);
            x = x + 1;
        }
        out.push(row);
        y = y + 1;
    }
    out
}

/// Cuts dense rows (`rows[y][x]`, all of one length) into the chunk grid
/// of the map: `ceil(size / max_chunk_size)` chunks per axis, edge chunks
/// clipped to the map, each chunk's default layer dense and holding its
/// rectangle of the rows.
pub fn break_data_vecs_into_chunks<T: Copy>(
    data: &Vec<Vec<T>>,
    chunk_settings: ChunkSettings,
) -> (r: Vec<Vec<Chunk<T>>>)
    requires
        valid_chunk_size(chunk_settings.max_chunk_size),
        data@.len() <= i32::MAX,
        rows_width(data@) <= i32::MAX,
        rows_uniform(data@, rows_width(data@)),
    ensures
        grid_layout(r@, UVec2 { x: rows_width(data@) as u32, y: data@.len() as u32 }, chunk_settings),
        default_layer_only(r@, true),
        forall|id: u32, x: i32, y: i32|
            on_map(Cell { x, y }, UVec2 { x: rows_width(data@) as u32, y: data@.len() as u32 })
                ==> #[trigger] read_entity(r@, id, Cell { x, y }, chunk_settings.max_chunk_size).is_none(),
        dense_contents(r@, data@, chunk_settings),
        forall|x: i32, y: i32|
            0 <= x < rows_width(data@) && 0 <= y < data@.len() ==> #[trigger] read_cell(
                r@,
                Cell { x, y },
                chunk_settings.max_chunk_size,
            ) == Some(data@[y as int]@[x as int]),
{
    let m = chunk_settings.max_chunk_size;
    let height = data.len() as u32;
    let width: u32 = if data.len() > 0 {
        data[0].len() as u32
    } else {
        0
    };
    let ghost map = UVec2 { x: width, y: height };
    let chunks_x: u32 = ((width as u64 + m.x as u64 - 1) / (m.x as u64)) as u32;
    let chunks_y: u32 = ((height as u64 + m.y as u64 - 1) / (m.y as u64)) as u32;
    proof {
        lemma_count_le(width as int, m.x as int);
        lemma_count_le(height as int, m.y as int);
    }
    let mut chunks: Vec<Vec<Chunk<T>>> = Vec::new();
    let mut cy: u32 = 0;
    while cy < chunks_y
        invariant
            valid_chunk_size(m),
            m == chunk_settings.max_chunk_size,
            height == data@.len(),
            width == rows_width(data@),
            rows_uniform(data@, rows_width(data@)),
            chunks_x == chunk_count(width as int, m.x as int),
            chunks_y == chunk_count(height as int, m.y as int),
            chunks_y <= height <= i32::MAX,
            chunks_x <= width <= i32::MAX,
            cy <= chunks_y,
            chunks@.len() == cy,
            forall|a: int| 0 <= a < cy ==> #[trigger] chunks@[a]@.len() == chunks_x,
            forall|a: int, b: int|
                0 <= a < cy && 0 <= b < chunks_x ==> {
                    let c = #[trigger] chunks@[a]@[b];
                    &&& c.wf()
                    &&& c.chunk_pos == (ChunkPos { x: b as i32, y: a as i32 })
                    &&& c.chunk_settings == chunk_settings
                    &&& c.dims().x == clip_len(width as int, m.x as int, b)
                    &&& c.dims().y == clip_len(height as int, m.y as int, a)
                    &&& c.layer(DEFAULT_LAYER).is_dense()
                    &&& c.data@.dom() == set![DEFAULT_LAYER]
                    &&& forall|i: int, j: int| #[trigger] c.entity(DEFAULT_LAYER, i, j).is_none()
                    &&& forall|i: int, j: int|
                        c.layer(DEFAULT_LAYER).contains(i, j) ==> #[trigger] c.tile(DEFAULT_LAYER, i, j)
                            == Some(data@[a * m.y + j]@[b * m.x + i])
                },
        decreases chunks_y - cy,
    {
        let mut row: Vec<Chunk<T>> = Vec::new();
        let mut cx: u32 = 0;
        while cx < chunks_x
            invariant
                valid_chunk_size(m),
                m == chunk_settings.max_chunk_size,
                height == data@.len(),
                width == rows_width(data@),
                rows_uniform(data@, rows_width(data@)),
                chunks_x == chunk_count(width as int, m.x as int),
                chunks_y == chunk_count(height as int, m.y as int),
                chunks_y <= height <= i32::MAX,
                chunks_x <= width <= i32::MAX,
                cy < chunks_y,
                cx <= chunks_x,
                row@.len() == cx,
                forall|b: int|
                    0 <= b < cx ==> {
                        let c = #[trigger] row@[b];
                        &&& c.wf()
                        &&& c.chunk_pos == (ChunkPos { x: b as i32, y: cy as i32 })
                        &&& c.chunk_settings == chunk_settings
                        &&& c.dims().x == clip_len(width as int, m.x as int, b)
                        &&& c.dims().y == clip_len(height as int, m.y as int, cy as int)
                        &&& c.layer(DEFAULT_LAYER).is_dense()
                        &&& c.data@.dom() == set![DEFAULT_LAYER]
                        &&& forall|i: int, j: int| #[trigger] c.entity(DEFAULT_LAYER, i, j).is_none()
                        &&& forall|i: int, j: int|
                            c.layer(DEFAULT_LAYER).contains(i, j) ==> #[trigger] c.tile(
                                DEFAULT_LAYER,
                                i,
                                j,
                            ) == Some(data@[cy * m.y + j]@[b * m.x + i])
                    },
            decreases chunks_x - cx,
        {
            let pos = ChunkPos::new(cx as i32, cy as i32);
            let sub = break_data_vecs_down_into_chunk_data(data, pos, m);
            proof {
                lemma_clip_positive(cx as int, width as int, m.x as int);
                lemma_clip_positive(cy as int, height as int, m.y as int);
            }
            let sub_h = sub.len() as u32;
            let sub_w = sub[0].len() as u32;
            let layer_data = ChunkLayerType::Dense(sub);
            match Chunk::new(pos, UVec2::new(sub_w, sub_h), &layer_data, chunk_settings) {
                Ok(c) => {
                    row.push(c);
                },
                Err(_) => {
                    assert(false);
                    return chunks;
                },
            }
            cx = cx + 1;
        }
        chunks.push(row);
        cy = cy + 1;
    }
    proof {
        let g = chunks@;
        assert forall|b: int, a: int| 0 <= b < g.len() && 0 <= a < g[b]@.len() implies {
            let c = #[trigger] g[b]@[a];
            forall|id: u32| #[trigger] c.has_layer(id) ==> c.layer(id).dims() == c.dims()
        } by {
            let c = g[b]@[a];
            assert forall|id: u32| #[trigger] c.has_layer(id) implies c.layer(id).dims() == c.dims() by {
                assert(c.data@.dom().contains(id));
            }
        }
        assert(grid_layout(g, map, chunk_settings));
        assert(dense_contents(chunks@, data@, chunk_settings));
        assert forall|id: u32, x: i32, y: i32| on_map(Cell { x, y }, map) implies #[trigger] read_entity(
            g,
            id,
            Cell { x, y },
            m,
        ).is_none() by {
            lemma_cell_split(g, map, chunk_settings, Cell { x, y });
            let c = chunk_of(g, Cell { x, y }, m);
            if id != DEFAULT_LAYER {
                assert(!c.data@.dom().contains(id));
            } else {
                assert(c.entity(DEFAULT_LAYER, chunk_cell_of(Cell { x, y }, m).0, chunk_cell_of(Cell { x, y }, m).1).is_none());
            }
        }
        lemma_dense_round_trip(chunks@, data@, chunk_settings);
    }
    chunks
}

/// Whether every chunk of `g` reads as empty: no tile and no handle on any
/// layer, for every cell of the map.
pub open spec fn grid_empty<T: Copy>(g: Seq<Vec<Chunk<T>>>, map: UVec2, m: UVec2) -> bool {
    &&& forall|id: u32, x: i32, y: i32|
        on_map(Cell { x, y }, map) ==> #[trigger] read_layer(g, id, Cell { x, y }, m).is_none()
    &&& forall|id: u32, x: i32, y: i32|
        on_map(Cell { x, y }, map) ==> #[trigger] read_entity(g, id, Cell { x, y }, m).is_none()
}

/// The chunk grid of a map of size `map_size` with an empty sparse default
/// layer in every chunk: `ceil(size / max_chunk_size)` chunks per axis,
/// edge chunks clipped to the map. Chunks exist whether or not they will
/// hold data.
pub fn new_empty_sparse_grid<T: Copy>(map_size: UVec2, chunk_settings: ChunkSettings) -> (r: Vec<
    Vec<Chunk<T>>,
>)
    requires
        valid_chunk_size(chunk_settings.max_chunk_size),
        map_size.x <= i32::MAX,
        map_size.y <= i32::MAX,
    ensures
        grid_layout(r@, map_size, chunk_settings),
        default_layer_only(r@, false),
        grid_empty(r@, map_size, chunk_settings.max_chunk_size),
{
    let m = chunk_settings.max_chunk_size;
    let width = map_size.x;
    let height = map_size.y;
    let chunks_x: u32 = ((width as u64 + m.x as u64 - 1) / (m.x as u64)) as u32;
    let chunks_y: u32 = ((height as u64 + m.y as u64 - 1) / (m.y as u64)) as u32;
    proof {
        lemma_count_le(width as int, m.x as int);
        lemma_count_le(height as int, m.y as int);
    }
    let empty: Vec<(crate::coords::ChunkCell, T)> = Vec::new();
    let layer_data = ChunkLayerType::Sparse(empty);
    let mut chunks: Vec<Vec<Chunk<T>>> = Vec::new();
    let mut cy: u32 = 0;
    while cy < chunks_y
        invariant
            valid_chunk_size(m),
            m == chunk_settings.max_chunk_size,
            layer_data == ChunkLayerType::Sparse(empty),
            empty@.len() == 0,
            chunks_x == chunk_count(width as int, m.x as int),
            chunks_y == chunk_count(height as int, m.y as int),
            chunks_y <= height <= i32::MAX,
            chunks_x <= width <= i32::MAX,
            cy <= chunks_y,
            chunks@.len() == cy,
            forall|a: int| 0 <= a < cy ==> #[trigger] chunks@[a]@.len() == chunks_x,
            forall|a: int, b: int|
                0 <= a < cy && 0 <= b < chunks_x ==> {
                    let c = #[trigger] chunks@[a]@[b];
                    &&& c.wf()
                    &&& c.chunk_pos == (ChunkPos { x: b as i32, y: a as i32 })
                    &&& c.chunk_settings == chunk_settings
                    &&& c.dims().x == clip_len(width as int, m.x as int, b)
                    &&& c.dims().y == clip_len(height as int, m.y as int, a)
                    &&& !c.layer(DEFAULT_LAYER).is_dense()
                    &&& c.data@.dom() == set![DEFAULT_LAYER]
                    &&& forall|i: int, j: int| #[trigger] c.tile(DEFAULT_LAYER, i, j).is_none()
                    &&& forall|i: int, j: int| #[trigger] c.entity(DEFAULT_LAYER, i, j).is_none()
                },
        decreases chunks_y - cy,
    {
        let mut row: Vec<Chunk<T>> = Vec::new();
        let mut cx: u32 = 0;
        while cx < chunks_x
            invariant
                valid_chunk_size(m),
                m == chunk_settings.max_chunk_size,
                layer_data == ChunkLayerType::Sparse(empty),
                empty@.len() == 0,
                chunks_x == chunk_count(width as int, m.x as int),
                chunks_y == chunk_count(height as int, m.y as int),
                chunks_y <= height <= i32::MAX,
                chunks_x <= width <= i32::MAX,
                cy < chunks_y,
                cx <= chunks_x,
                row@.len() == cx,
                forall|b: int|
                    0 <= b < cx ==> {
                        let c = #[trigger] row@[b];
                        &&& c.wf()
                        &&& c.chunk_pos == (ChunkPos { x: b as i32, y: cy as i32 })
                        &&& c.chunk_settings == chunk_settings
                        &&& c.dims().x == clip_len(width as int, m.x as int, b)
                        &&& c.dims().y == clip_len(height as int, m.y as int, cy as int)
                        &&& !c.layer(DEFAULT_LAYER).is_dense()
                        &&& c.data@.dom() == set![DEFAULT_LAYER]
                        &&& forall|i: int, j: int| #[trigger] c.tile(DEFAULT_LAYER, i, j).is_none()
                        &&& forall|i: int, j: int| #[trigger] c.entity(DEFAULT_LAYER, i, j).is_none()
                    },
            decreases chunks_x - cx,
        {
            proof {
                lemma_clip_positive(cx as int, width as int, m.x as int);
                lemma_clip_positive(cy as int, height as int, m.y as int);
            }
            let w: u32 = if width - cx * m.x >= m.x {
                m.x
            } else {
                width - cx * m.x
            };
            let h: u32 = if height - cy * m.y >= m.y {
                m.y
            } else {
                height - cy * m.y
            };
            let pos = ChunkPos::new(cx as i32, cy as i32);
            match Chunk::new(pos, UVec2::new(w, h), &layer_data, chunk_settings) {
                Ok(c) => {
                    row.push(c);
                },
                Err(_) => {
                    assert(false);
                    return chunks;
                },
            }
            cx = cx + 1;
        }
        chunks.push(row);
        cy = cy + 1;
    }
    proof {
        let g = chunks@;
        assert forall|b: int, a: int| 0 <= b < g.len() && 0 <= a < g[b]@.len() implies {
            let c = #[trigger] g[b]@[a];
            forall|id: u32| #[trigger] c.has_layer(id) ==> c.layer(id).dims() == c.dims()
        } by {
            let c = g[b]@[a];
            assert forall|id: u32| #[trigger] c.has_layer(id) implies c.layer(id).dims() == c.dims() by {
                assert(c.data@.dom().contains(id));
            }
        }
        assert(grid_layout(g, map_size, chunk_settings));
        assert forall|id: u32, x: i32, y: i32|
            on_map(Cell { x, y }, map_size) implies #[trigger] read_layer(g, id, Cell { x, y }, m).is_none() by {
            lemma_cell_split(g, map_size, chunk_settings, Cell { x, y });
            let c = chunk_of(g, Cell { x, y }, m);
            if id != DEFAULT_LAYER {
                assert(!c.data@.dom().contains(id));
            } else {
                assert(c.tile(DEFAULT_LAYER, chunk_cell_of(Cell { x, y }, m).0, chunk_cell_of(Cell { x, y }, m).1).is_none());
            }
        }
        assert forall|id: u32, x: i32, y: i32|
            on_map(Cell { x, y }, map_size) implies #[trigger] read_entity(g, id, Cell { x, y }, m).is_none() by {
            lemma_cell_split(g, map_size, chunk_settings, Cell { x, y });
            let c = chunk_of(g, Cell { x, y }, m);
            if id != DEFAULT_LAYER {
                assert(!c.data@.dom().contains(id));
            } else {
                assert(c.entity(DEFAULT_LAYER, chunk_cell_of(Cell { x, y }, m).0, chunk_cell_of(Cell { x, y }, m).1).is_none());
            }
        }
    }
    chunks
}

/// Cuts sparse entries (cells of a map of size `map_size`, each with its
/// tile data; a later entry for a cell wins) into the chunk grid of the
/// map. Every chunk's default layer is sparse; a cell of the map reads as
/// the value of its last entry, or as absent when it has none.
pub fn break_hashmap_into_chunks<T: Copy>(
    data: &Vec<(Cell, T)>,
    map_size: UVec2,
    chunk_settings: ChunkSettings,
) -> (r: Vec<Vec<Chunk<T>>>)
    requires
        valid_chunk_size(chunk_settings.max_chunk_size),
        map_size.x <= i32::MAX,
        map_size.y <= i32::MAX,
        cells_on_map(data@, map_size),
    ensures
        grid_layout(r@, map_size, chunk_settings),
        default_layer_only(r@, false),
        forall|x: i32, y: i32|
            on_map(Cell { x, y }, map_size) ==> #[trigger] read_cell(
                r@,
                Cell { x, y },
                chunk_settings.max_chunk_size,
            ) == last_cell_entry(data@, x as int, y as int),
        forall|id: u32, x: i32, y: i32|
            on_map(Cell { x, y }, map_size) ==> #[trigger] read_entity(
                r@,
                id,
                Cell { x, y },
                chunk_settings.max_chunk_size,
            ).is_none(),
{
    let m = chunk_settings.max_chunk_size;
    let mut chunks: Vec<Vec<Chunk<T>>> = new_empty_sparse_grid(map_size, chunk_settings);
    let ghost g0 = chunks@;
    let mut k: usize = 0;
    while k < data.len()
        invariant
            m == chunk_settings.max_chunk_size,
            k <= data@.len(),
            cells_on_map(data@, map_size),
            grid_layout(chunks@, map_size, chunk_settings),
            default_layer_only(g0, false),
            same_layers(chunks@, g0),
            forall|x: i32, y: i32|
                on_map(Cell { x, y }, map_size) ==> #[trigger] read_layer(
                    chunks@,
                    DEFAULT_LAYER,
                    Cell { x, y },
                    m,
                ) == last_cell_entry(data@.subrange(0, k as int), x as int, y as int),
            forall|id: u32, x: i32, y: i32|
                on_map(Cell { x, y }, map_size) ==> #[trigger] read_entity(
                    chunks@,
                    id,
                    Cell { x, y },
                    m,
                ).is_none(),
        decreases data@.len() - k,
    {
        let (cell, value) = data[k];
        proof {
            assert(k < data@.len());
            lemma_cell_split(chunks@, map_size, chunk_settings, cell);
        }
        let ghost before = chunks@;
        set_tile_in_grid(&mut chunks, Ghost(map_size), chunk_settings, DEFAULT_LAYER, cell, value);
        proof {
            lemma_same_layers_trans(chunks@, before, g0);
            let next = data@.subrange(0, k + 1);
            assert(next.drop_last() =~= data@.subrange(0, k as int));
            assert(next.last() == (cell, value));
        }
        k = k + 1;
    }
    proof {
        assert(data@.subrange(0, data@.len() as int) =~= data@);
        let g = chunks@;
        assert forall|x: i32, y: i32| on_map(Cell { x, y }, map_size) implies #[trigger] read_cell(
            g,
            Cell { x, y },
            m,
        ) == last_cell_entry(data@, x as int, y as int) by {
            assert(read_layer(g, DEFAULT_LAYER, Cell { x, y }, m) == last_cell_entry(data@.subrange(0, data@.len() as int), x as int, y as int));
        }
        assert forall|cy: int, cx: int| 0 <= cy < g.len() && 0 <= cx < g[cy]@.len() implies {
            &&& (#[trigger] g[cy]@[cx]).data@.dom() == set![DEFAULT_LAYER]
            &&& g[cy]@[cx].layer(DEFAULT_LAYER).is_dense() == false
        } by {
            assert(g0[cy]@[cx].has_layer(DEFAULT_LAYER));
        }
    }
    chunks
}

/// Attaches each handle of `entities` (cells of the map, each with its
/// handle; a later entry for a cell wins) to its cell in layer `map_layer`,
/// which every chunk has. Tiles and the handles of other layers stay as
/// they were.
pub fn add_entities_to_layer<T: Copy>(
    map_layer: u32,
    chunks: &mut Vec<Vec<Chunk<T>>>,
    map_size: Ghost<UVec2>,
    chunk_settings: ChunkSettings,
    entities: &Vec<(Cell, Entity)>,
)
    requires
        grid_layout(old(chunks)@, map_size@, chunk_settings),
        cells_on_map(entities@, map_size@),
        forall|cy: int, cx: int|
            0 <= cy < old(chunks)@.len() && 0 <= cx < old(chunks)@[cy]@.len() ==> (#[trigger] old(
                chunks,
            )@[cy]@[cx]).has_layer(map_layer),
    ensures
        grid_layout(final(chunks)@, map_size@, chunk_settings),
        same_layers(final(chunks)@, old(chunks)@),
        forall|id: u32, x: i32, y: i32|
            on_map(Cell { x, y }, map_size@) ==> #[trigger] read_layer(
                final(chunks)@,
                id,
                Cell { x, y },
                chunk_settings.max_chunk_size,
            ) == read_layer(old(chunks)@, id, Cell { x, y }, chunk_settings.max_chunk_size),
        forall|id: u32, x: i32, y: i32|
            on_map(Cell { x, y }, map_size@) ==> #[trigger] read_entity(
                final(chunks)@,
                id,
                Cell { x, y },
                chunk_settings.max_chunk_size,
            ) == if id == map_layer {
                match last_cell_entry(entities@, x as int, y as int) {
                    Some(e) => Some(e),
                    None => read_entity(old(chunks)@, id, Cell { x, y }, chunk_settings.max_chunk_size),
                }
            } else {
                read_entity(old(chunks)@, id, Cell { x, y }, chunk_settings.max_chunk_size)
            },
{
    let m = chunk_settings.max_chunk_size;
    let ghost g0 = chunks@;
    let mut k: usize = 0;
    while k < entities.len()
        invariant
            m == chunk_settings.max_chunk_size,
            k <= entities@.len(),
            cells_on_map(entities@, map_size@),
            grid_layout(g0, map_size@, chunk_settings),
            grid_layout(chunks@, map_size@, chunk_settings),
            same_layers(chunks@, g0),
            forall|cy: int, cx: int|
                0 <= cy < g0.len() && 0 <= cx < g0[cy]@.len() ==> (#[trigger] g0[cy]@[cx]).has_layer(
                    map_layer,
                ),
            forall|id: u32, x: i32, y: i32|
                on_map(Cell { x, y }, map_size@) ==> #[trigger] read_layer(chunks@, id, Cell { x, y }, m)
                    == read_layer(g0, id, Cell { x, y }, m),
            forall|id: u32, x: i32, y: i32|
                on_map(Cell { x, y }, map_size@) ==> #[trigger] read_entity(chunks@, id, Cell { x, y }, m)
                    == if id == map_layer {
                    match last_cell_entry(entities@.subrange(0, k as int), x as int, y as int) {
                        Some(e) => Some(e),
                        None => read_entity(g0, id, Cell { x, y }, m),
                    }
                } else {
                    read_entity(g0, id, Cell { x, y }, m)
                },
        decreases entities@.len() - k,
    {
        let (cell, entity) = entities[k];
        proof {
            lemma_cell_split(chunks@, map_size@, chunk_settings, cell);
            let cx = chunk_pos_of(cell, m).0;
            let cy = chunk_pos_of(cell, m).1;
            assert(g0[cy]@[cx].has_layer(map_layer));
            assert(chunks@[cy]@[cx].data@.dom() == g0[cy]@[cx].data@.dom());
        }
        let ghost before = chunks@;
        set_entity_in_grid(chunks, map_size, chunk_settings, map_layer, cell, entity);
        proof {
            lemma_same_layers_trans(chunks@, before, g0);
            let next = entities@.subrange(0, k + 1);
            assert(next.drop_last() =~= entities@.subrange(0, k as int));
            assert(next.last() == (cell, entity));
        }
        k = k + 1;
    }
    proof {
        assert(entities@.subrange(0, entities@.len() as int) =~= entities@);
    }
}

} // verus!
