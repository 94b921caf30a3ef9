//! Read/write access to the tiles of one map through its chunk registry.
use crate::chunk::{local_of, Chunk, ChunkError, ChunkSettings, DEFAULT_LAYER};
use crate::coords::{chunk_cell_of, chunk_pos_of, valid_chunk_size, Cell, ChunkPos, Entity, UVec2};
use crate::map_data::{chunk_count, clip_len, lemma_axis_split, on_map};
use crate::tilemap::{grid_get, Tilemap};
use vstd::prelude::*;

verus! {

/// Errors of map access.
#[derive(Clone, Copy, Debug, PartialEq, Eq, Structural)]
pub enum TilemapManagerError {
    /// No chunk of the map holds the cell.
    InvalidChunkPos,
    /// The registry names a chunk handle that the store does not hold.
    ChunkEntityDoesNotExist,
    /// No handle is attached to the tile.
    TileEntityDoesNotExist,
    /// The tile holds no data.
    TileDataDoesNotExist,
    /// The chunk has no layer with the active id.
    LayerNotFound,
}

/// Whether the registry of `t` and the chunk store describe a map of size
/// `map`: `ceil(map / max_chunk_size)` chunks per axis, the handle at
/// `(cx, cy)` naming a stored, well-formed chunk at that position, sized by
/// `clip_len`, every layer sized as its chunk.
pub open spec fn registry_ok<T: Copy>(t: &Tilemap, store: Seq<Chunk<T>>, map: UVec2) -> bool {
    let s = t.chunk_pos_conversion_settings;
    let m = s.max_chunk_size;
    let g = t.chunks.chunk_entities@;
    &&& valid_chunk_size(m)
    &&& t.chunks.max_chunk_size == m
    &&& map.x <= i32::MAX
    &&& map.y <= i32::MAX
    &&& g.len() == chunk_count(map.y as int, m.y as int)
    &&& forall|cy: int| 0 <= cy < g.len() ==> #[trigger] g[cy]@.len() == chunk_count(map.x as int, m.x as int)
    &&& forall|cy: int, cx: int|
        0 <= cy < g.len() && 0 <= cx < g[cy]@.len() ==> {
            let h = (#[trigger] g[cy]@[cx]).0 as int;
            &&& h < store.len()
            &&& store[h].wf()
            &&& store[h].chunk_pos == (ChunkPos { x: cx as i32, y: cy as i32 })
            &&& store[h].chunk_settings == s
            &&& store[h].dims().x == clip_len(map.x as int, m.x as int, cx)
            &&& store[h].dims().y == clip_len(map.y as int, m.y as int, cy)
            &&& forall|id: u32| #[trigger] store[h].has_layer(id) ==> store[h].layer(id).dims() == store[h].dims()
        }
}

/// A cell of the map resolves to a stored chunk at the position the
/// conversion math picks, and lies inside it.
pub proof fn lemma_resolve_on_map<T: Copy>(mgr: &TilemapManager<T>, cell: Cell)
    requires
        mgr.wf(),
        on_map(cell, mgr.map_size@),
    ensures
        ({
            let m = mgr.max_size();
            let p = chunk_pos_of(cell, m);
            let l = chunk_cell_of(cell, m);
            let g = mgr.tilemap.chunks.chunk_entities@;
            &&& 0 <= p.1 < g.len()
            &&& 0 <= p.0 < g[p.1]@.len()
            &&& mgr.resolve(cell) == Ok::<int, TilemapManagerError>(g[p.1]@[p.0].0 as int)
            &&& mgr.chunk_store@[g[p.1]@[p.0].0 as int].chunk_pos == (ChunkPos { x: p.0 as i32, y: p.1 as i32 })
            &&& mgr.chunk_store@[g[p.1]@[p.0].0 as int].layer(DEFAULT_LAYER).contains(l.0, l.1)
            &&& p.0 * m.x + l.0 == cell.x
            &&& p.1 * m.y + l.1 == cell.y
        }),
{
    let m = mgr.max_size();
    lemma_axis_split(cell.x as int, mgr.map_size@.x as int, m.x as int);
    lemma_axis_split(cell.y as int, mgr.map_size@.y as int, m.y as int);
    let p = chunk_pos_of(cell, m);
    let g = mgr.tilemap.chunks.chunk_entities@;
    let h = g[p.1]@[p.0].0 as int;
    assert(mgr.chunk_store@[h].has_layer(DEFAULT_LAYER));
}

/// Two different cells of the map resolve to different chunks or to
/// different positions of one chunk.
pub proof fn lemma_cells_apart<T: Copy>(mgr: &TilemapManager<T>, a: Cell, b: Cell)
    requires
        mgr.wf(),
        on_map(a, mgr.map_size@),
        on_map(b, mgr.map_size@),
        a != b,
    ensures
        mgr.resolve(a) != mgr.resolve(b) || chunk_cell_of(a, mgr.max_size()) != chunk_cell_of(
            b,
            mgr.max_size(),
        ),
{
    lemma_resolve_on_map(mgr, a);
    lemma_resolve_on_map(mgr, b);
}

/// Replacing the stored chunk at `i` by one that keeps its position,
/// settings, layers and their sizes keeps the registry sound.
proof fn lemma_store_replaced<T: Copy>(
    t: &Tilemap,
    old_store: Seq<Chunk<T>>,
    new_store: Seq<Chunk<T>>,
    map: UVec2,
    i: int,
)
    requires
        registry_ok(t, old_store, map),
        0 <= i < old_store.len(),
        new_store.len() == old_store.len(),
        forall|j: int| 0 <= j < new_store.len() && j != i ==> new_store[j] == old_store[j],
        ({
            let c = new_store[i];
            let c0 = old_store[i];
            &&& c.wf()
            &&& c.chunk_pos == c0.chunk_pos
            &&& c.chunk_settings == c0.chunk_settings
            &&& c.data@.dom() == c0.data@.dom()
            &&& forall|id: u32| #[trigger] c0.has_layer(id) ==> c.layer(id).dims() == c0.layer(id).dims()
        }),
    ensures
        registry_ok(t, new_store, map),
{
    let g = t.chunks.chunk_entities@;
    let c = new_store[i];
    let c0 = old_store[i];
    assert(c0.has_layer(DEFAULT_LAYER));
    assert(c.dims() == c0.dims());
    assert forall|cy: int, cx: int| 0 <= cy < g.len() && 0 <= cx < g[cy]@.len() implies {
        let h = (#[trigger] g[cy]@[cx]).0 as int;
        forall|id: u32| #[trigger] new_store[h].has_layer(id) ==> new_store[h].layer(id).dims() == new_store[h].dims()
    } by {
        let h = g[cy]@[cx].0 as int;
        assert forall|id: u32| #[trigger] new_store[h].has_layer(id) implies new_store[h].layer(id).dims() == new_store[h].dims() by {
            if h == i {
                assert(c.data@.dom().contains(id));
                assert(c0.has_layer(id));
            }
        }
    }
}

/// Access to the tiles of one map. It holds the map, the store of its
/// chunks (a chunk handle is an index into the store) and the active layer,
/// which every access uses until it is changed.
pub struct TilemapManager<T> {
    pub tilemap: Tilemap,
    pub chunk_store: Vec<Chunk<T>>,
    pub layer: u32,
    pub map_size: Ghost<UVec2>,
}

impl<T: Copy> TilemapManager<T> {
    pub open spec fn wf(&self) -> bool {
        registry_ok(&self.tilemap, self.chunk_store@, self.map_size@)
    }

    pub open spec fn max_size(&self) -> UVec2 {
        self.tilemap.chunk_pos_conversion_settings.max_chunk_size
    }

    /// The store index of the chunk holding `cell`, or why there is none.
    pub open spec fn resolve(&self, cell: Cell) -> Result<int, TilemapManagerError> {
        match self.tilemap.chunk_for_cell(cell) {
            None => Err(TilemapManagerError::InvalidChunkPos),
            Some(h) => if (h.0 as int) < self.chunk_store@.len() {
                Ok(h.0 as int)
            } else {
                Err(TilemapManagerError::ChunkEntityDoesNotExist)
            },
        }
    }

    /// The tile data of layer `id` at `cell`, if a chunk holds the cell and
    /// has data there.
    pub open spec fn layer_tile(&self, id: u32, cell: Cell) -> Option<T> {
        match self.resolve(cell) {
            Ok(i) => {
                let c = self.chunk_store@[i];
                let l = local_of(cell, c.chunk_settings);
                c.tile(id, l.0, l.1)
            },
            Err(_) => None,
        }
    }

    /// The handle of layer `id` at `cell`, if any.
    pub open spec fn layer_entity(&self, id: u32, cell: Cell) -> Option<Entity> {
        match self.resolve(cell) {
            Ok(i) => {
                let c = self.chunk_store@[i];
                let l = local_of(cell, c.chunk_settings);
                c.entity(id, l.0, l.1)
            },
            Err(_) => None,
        }
    }

    /// The tile data of the active layer at `cell`, or why there is none.
    pub open spec fn tile_at(&self, cell: Cell) -> Result<T, TilemapManagerError> {
        match self.resolve(cell) {
            Err(e) => Err(e),
            Ok(i) => {
                let c = self.chunk_store@[i];
                let l = local_of(cell, c.chunk_settings);
                if !c.has_layer(self.layer) {
                    Err(TilemapManagerError::LayerNotFound)
                } else {
                    match c.tile(self.layer, l.0, l.1) {
                        Some(v) => Ok(v),
                        None => Err(TilemapManagerError::TileDataDoesNotExist),
                    }
                }
            },
        }
    }

    /// The handle of the active layer at `cell`, or why there is none.
    pub open spec fn entity_at(&self, cell: Cell) -> Result<Entity, TilemapManagerError> {
        match self.resolve(cell) {
            Err(e) => Err(e),
            Ok(i) => {
                let c = self.chunk_store@[i];
                let l = local_of(cell, c.chunk_settings);
                if !c.has_layer(self.layer) {
                    Err(TilemapManagerError::LayerNotFound)
                } else {
                    match c.entity(self.layer, l.0, l.1) {
                        Some(e) => Ok(e),
                        None => Err(TilemapManagerError::TileEntityDoesNotExist),
                    }
                }
            },
        }
    }

    /// Whether a write at `cell` on the active layer succeeds, or why not.
    pub open spec fn writable(&self, cell: Cell) -> Result<int, TilemapManagerError> {
        match self.resolve(cell) {
            Err(e) => Err(e),
            Ok(i) => {
                let c = self.chunk_store@[i];
                let l = local_of(cell, c.chunk_settings);
                if !c.has_layer(self.layer) {
                    Err(TilemapManagerError::LayerNotFound)
                } else if !c.layer(self.layer).contains(l.0, l.1) {
                    Err(TilemapManagerError::InvalidChunkPos)
                } else {
                    Ok(i)
                }
            },
        }
    }

    /// A manager over a map and the store of its chunks, acting on the
    /// default layer.
    pub fn new(tilemap: Tilemap, chunk_store: Vec<Chunk<T>>, map_size: Ghost<UVec2>) -> (r: Self)
        requires
            registry_ok(&tilemap, chunk_store@, map_size@),
        ensures
            r.wf(),
            r.tilemap == tilemap,
            r.chunk_store@ == chunk_store@,
            r.layer == DEFAULT_LAYER,
            r.map_size == map_size,
    {
        TilemapManager { tilemap, chunk_store, layer: DEFAULT_LAYER, map_size }
    }

    /// The map this manager acts on.
    pub fn tilemap(&self) -> (r: &Tilemap)
        ensures
            r == &self.tilemap,
    {
        &self.tilemap
    }

    /// The active layer.
    pub fn layer(&self) -> (r: u32)
        ensures
            r == self.layer,
    {
        self.layer
    }

    /// Makes `map_layer` the layer of all following accesses.
    pub fn on_layer(&mut self, map_layer: u32)
        ensures
            final(self).layer == map_layer,
            final(self).tilemap == old(self).tilemap,
            final(self).chunk_store@ == old(self).chunk_store@,
            final(self).map_size == old(self).map_size,
    {
        self.layer = map_layer;
    }

    fn resolve_exec(&self, cell: Cell) -> (r: Result<usize, TilemapManagerError>)
        requires
            self.wf(),
        ensures
            match r {
                Ok(i) => self.resolve(cell) == Ok::<int, TilemapManagerError>(i as int),
                Err(e) => self.resolve(cell) == Err::<int, TilemapManagerError>(e),
            },
    {
        match self.tilemap.get_chunk_for_cell(cell) {
            None => Err(TilemapManagerError::InvalidChunkPos),
            Some(h) => if h.0 < self.chunk_store.len() as u64 {
                Ok(h.0 as usize)
            } else {
                Err(TilemapManagerError::ChunkEntityDoesNotExist)
            },
        }
    }

    /// The size of the map, computed from the corner chunks: the first
    /// chunk's size times the chunk count less one, plus the size of the last
    /// chunk on each axis. Fails with `InvalidChunkPos` for an empty map.
    pub fn dimensions(&self) -> (r: Result<UVec2, TilemapManagerError>)
        requires
            self.wf(),
        ensures
            r == (if self.map_size@.x == 0 || self.map_size@.y == 0 {
                Err(TilemapManagerError::InvalidChunkPos)
            } else {
                Ok(self.map_size@)
            }),
    {
        let ghost map = self.map_size@;
        let ghost m = self.max_size();
        proof {
            crate::map_data::lemma_count_le(map.x as int, m.x as int);
            crate::map_data::lemma_count_le(map.y as int, m.y as int);
            crate::map_data::lemma_count_zero(map.x as int, m.x as int);
            crate::map_data::lemma_count_zero(map.y as int, m.y as int);
        }
        let counts = self.tilemap.chunks.chunk_counts();
        if counts.x == 0 || counts.y == 0 {
            return Err(TilemapManagerError::InvalidChunkPos);
        }
        let first = match self.tilemap.get_chunk(ChunkPos::new(0, 0)) {
            Some(h) => h,
            None => return Err(TilemapManagerError::InvalidChunkPos),
        };
        let last_x = match self.tilemap.get_chunk(ChunkPos::new((counts.x - 1) as i32, 0)) {
            Some(h) => h,
            None => return Err(TilemapManagerError::InvalidChunkPos),
        };
        let last_y = match self.tilemap.get_chunk(ChunkPos::new(0, (counts.y - 1) as i32)) {
            Some(h) => h,
            None => return Err(TilemapManagerError::InvalidChunkPos),
        };
        proof {
            let g = self.tilemap.chunks.chunk_entities@;
            assert(g[0]@.len() == counts.x);
            assert(first == g[0]@[0]);
            assert(last_x == g[0]@[counts.x - 1]);
            assert(last_y == g[counts.y - 1]@[0]);
            let lx = (counts.x - 1) as int;
            let ly = (counts.y - 1) as int;
            assert(0 <= lx < g[0]@.len());
            assert(0 <= ly < g.len());
            assert(g[ly]@.len() == g[0]@.len());
            assert((g[0]@[lx].0 as int) < self.chunk_store@.len());
            assert((g[ly]@[0].0 as int) < self.chunk_store@.len());
            assert((last_x.0 as int) < self.chunk_store@.len());
            assert((last_y.0 as int) < self.chunk_store@.len());
        }
        let len = self.chunk_store.len() as u64;
        if first.0 >= len || last_x.0 >= len || last_y.0 >= len {
            return Err(TilemapManagerError::ChunkEntityDoesNotExist);
        }
        let i0 = first.0 as usize;
        let ix = last_x.0 as usize;
        let iy = last_y.0 as usize;
        let first_dims = self.chunk_store[i0].get_chunk_dimensions();
        let last_x_dims = self.chunk_store[ix].get_chunk_dimensions();
        let last_y_dims = self.chunk_store[iy].get_chunk_dimensions();
        proof {
            crate::map_data::lemma_corner_sum(map.x as int, m.x as int);
            crate::map_data::lemma_corner_sum(map.y as int, m.y as int);
        }
        let w = (first_dims.x as u64) * ((counts.x - 1) as u64) + last_x_dims.x as u64;
        let h = (first_dims.y as u64) * ((counts.y - 1) as u64) + last_y_dims.y as u64;
        Ok(UVec2::new(w as u32, h as u32))
    }

    /// The tile data of the active layer at `cell`.
    pub fn get_tile_data(&self, cell: Cell) -> (r: Result<T, TilemapManagerError>)
        requires
            self.wf(),
        ensures
            r == self.tile_at(cell),
    {
        let i = self.resolve_exec(cell)?;
        let chunk: &Chunk<T> = &self.chunk_store[i];
        match chunk.get_tile_data_from_cell(self.layer, cell) {
            Ok(Some(v)) => Ok(v),
            Ok(None) => Err(TilemapManagerError::TileDataDoesNotExist),
            Err(_) => Err(TilemapManagerError::LayerNotFound),
        }
    }

    /// The handle of the active layer at `cell`.
    pub fn get_tile_entity(&self, cell: Cell) -> (r: Result<Entity, TilemapManagerError>)
        requires
            self.wf(),
        ensures
            r == self.entity_at(cell),
    {
        let i = self.resolve_exec(cell)?;
        let chunk: &Chunk<T> = &self.chunk_store[i];
        match chunk.get_tile_entity_from_cell(self.layer, cell) {
            Ok(Some(e)) => Ok(e),
            Ok(None) => Err(TilemapManagerError::TileEntityDoesNotExist),
            Err(_) => Err(TilemapManagerError::LayerNotFound),
        }
    }
    /// Sets the tile data of the active layer at `cell`. Fails, changing
    /// nothing, when no chunk holds the cell (`InvalidChunkPos`, also for a
    /// cell past the map inside an edge chunk's reach) or the chunk lacks the
    /// layer (`LayerNotFound`). No other cell of the map and no handle
    /// changes.
    pub fn sets_tile_data(&mut self, tile_data: T, cell: Cell) -> (r: Result<(), TilemapManagerError>)
        requires
            old(self).wf(),
        ensures
            final(self).wf(),
            final(self).tilemap == old(self).tilemap,
            final(self).layer == old(self).layer,
            final(self).map_size == old(self).map_size,
            final(self).chunk_store@.len() == old(self).chunk_store@.len(),
            r == (match old(self).writable(cell) {
                Ok(_) => Ok::<(), TilemapManagerError>(()),
                Err(e) => Err(e),
            }),
            r is Ok ==> final(self).tile_at(cell) == Ok::<T, TilemapManagerError>(tile_data),
            forall|id: u32, c: Cell|
                on_map(c, old(self).map_size@) && (id != old(self).layer || c != cell) ==> #[trigger] final(self).layer_tile(id, c) == old(self).layer_tile(id, c),
            forall|c: Cell|
                on_map(c, old(self).map_size@) && c != cell ==> #[trigger] final(self).tile_at(c)
                    == old(self).tile_at(c),
            forall|c: Cell|
                on_map(c, old(self).map_size@) ==> #[trigger] final(self).entity_at(c) == old(self).entity_at(c),
    {
        let i = self.resolve_exec(cell)?;
        let layer = self.layer;
        let chunk: &mut Chunk<T> = &mut self.chunk_store[i];
        let res = chunk.set_tile_data_from_cell(layer, cell, tile_data);
        proof {
            lemma_store_replaced(&self.tilemap, old(self).chunk_store@, self.chunk_store@, self.map_size@, i as int);
            assert forall|c: Cell| on_map(c, old(self).map_size@) && c != cell implies #[trigger] self.tile_at(c)
                == old(self).tile_at(c) by {
                lemma_resolve_on_map(old(self), c);
                if on_map(cell, old(self).map_size@) {
                    lemma_cells_apart(old(self), c, cell);
                }
            }
            assert forall|id: u32, c: Cell|
                on_map(c, old(self).map_size@) && (id != old(self).layer || c != cell) implies #[trigger] self.layer_tile(
                id,
                c,
            ) == old(self).layer_tile(id, c) by {
                lemma_resolve_on_map(old(self), c);
                if on_map(cell, old(self).map_size@) && c != cell {
                    lemma_cells_apart(old(self), c, cell);
                }
            }
            assert forall|c: Cell| on_map(c, old(self).map_size@) implies #[trigger] self.entity_at(c)
                == old(self).entity_at(c) by {
                lemma_resolve_on_map(old(self), c);
            }
        }
        match res {
            Ok(()) => Ok(()),
            Err(ChunkError::LayerNotFound) => Err(TilemapManagerError::LayerNotFound),
            Err(_) => Err(TilemapManagerError::InvalidChunkPos),
        }
    }

    /// Attaches `entity` to the tile of the active layer at `cell`. Fails,
    /// changing nothing, as `sets_tile_data` does. No tile and no other
    /// handle of the map changes.
    pub fn set_tile_entity(&mut self, cell: Cell, entity: Entity) -> (r: Result<(), TilemapManagerError>)
        requires
            old(self).wf(),
        ensures
            final(self).wf(),
            final(self).tilemap == old(self).tilemap,
            final(self).layer == old(self).layer,
            final(self).map_size == old(self).map_size,
            final(self).chunk_store@.len() == old(self).chunk_store@.len(),
            r == (match old(self).writable(cell) {
                Ok(_) => Ok::<(), TilemapManagerError>(()),
                Err(e) => Err(e),
            }),
            r is Ok ==> final(self).entity_at(cell) == Ok::<Entity, TilemapManagerError>(entity),
            forall|c: Cell|
                on_map(c, old(self).map_size@) && c != cell ==> #[trigger] final(self).entity_at(c)
                    == old(self).entity_at(c),
            forall|c: Cell|
                on_map(c, old(self).map_size@) ==> #[trigger] final(self).tile_at(c) == old(self).tile_at(c),
    {
        let i = self.resolve_exec(cell)?;
        let layer = self.layer;
        let chunk: &mut Chunk<T> = &mut self.chunk_store[i];
        let res = chunk.set_tile_entity_from_cell(layer, cell, entity);
        proof {
            lemma_store_replaced(&self.tilemap, old(self).chunk_store@, self.chunk_store@, self.map_size@, i as int);
            assert forall|c: Cell| on_map(c, old(self).map_size@) && c != cell implies #[trigger] self.entity_at(c)
                == old(self).entity_at(c) by {
                lemma_resolve_on_map(old(self), c);
                if on_map(cell, old(self).map_size@) {
                    lemma_cells_apart(old(self), c, cell);
                }
            }
            assert forall|c: Cell| on_map(c, old(self).map_size@) implies #[trigger] self.tile_at(c)
                == old(self).tile_at(c) by {
                lemma_resolve_on_map(old(self), c);
            }
        }
        match res {
            Ok(()) => Ok(()),
            Err(ChunkError::LayerNotFound) => Err(TilemapManagerError::LayerNotFound),
            Err(_) => Err(TilemapManagerError::InvalidChunkPos),
        }
    }
    /// The handle of the active layer at `cell`; where there is none yet,
    /// attaches `new_entity` (a handle the host has just made) and returns
    /// it. Other failures are those of `get_tile_entity`.
    pub fn get_or_spawn_tile_entity(&mut self, cell: Cell, new_entity: Entity) -> (r: Result<
        Entity,
        TilemapManagerError,
    >)
        requires
            old(self).wf(),
        ensures
            final(self).wf(),
            final(self).tilemap == old(self).tilemap,
            final(self).layer == old(self).layer,
            final(self).map_size == old(self).map_size,
            r == (match old(self).entity_at(cell) {
                Ok(e) => Ok(e),
                Err(TilemapManagerError::TileEntityDoesNotExist) => match old(self).writable(cell) {
                    Ok(_) => Ok(new_entity),
                    Err(e) => Err(e),
                },
                Err(e) => Err::<Entity, TilemapManagerError>(e),
            }),
            r is Ok ==> final(self).entity_at(cell) == r,
            forall|c: Cell|
                on_map(c, old(self).map_size@) && c != cell ==> #[trigger] final(self).entity_at(c)
                    == old(self).entity_at(c),
            forall|c: Cell|
                on_map(c, old(self).map_size@) ==> #[trigger] final(self).tile_at(c) == old(self).tile_at(c),
    {
        match self.get_tile_entity(cell) {
            Ok(e) => Ok(e),
            Err(TilemapManagerError::TileEntityDoesNotExist) => {
                self.set_tile_entity(cell, new_entity)?;
                Ok(new_entity)
            },
            Err(e) => Err(e),
        }
    }

    /// Detaches the handle of the active layer at `cell` and returns it, for
    /// the host to release; `None` when no handle was attached. Fails with
    /// `InvalidChunkPos` or `LayerNotFound` as `get_tile_entity` does. No tile
    /// and no other handle of the map changes.
    pub fn despawn_tile_entity(&mut self, cell: Cell) -> (r: Result<Option<Entity>, TilemapManagerError>)
        requires
            old(self).wf(),
        ensures
            final(self).wf(),
            final(self).tilemap == old(self).tilemap,
            final(self).layer == old(self).layer,
            final(self).map_size == old(self).map_size,
            r == (match old(self).entity_at(cell) {
                Ok(e) => Ok(Some(e)),
                Err(TilemapManagerError::TileEntityDoesNotExist) => Ok(None),
                Err(e) => Err::<Option<Entity>, TilemapManagerError>(e),
            }),
            r is Ok ==> final(self).entity_at(cell) == Err::<Entity, TilemapManagerError>(
                TilemapManagerError::TileEntityDoesNotExist,
            ),
            forall|c: Cell|
                on_map(c, old(self).map_size@) && c != cell ==> #[trigger] final(self).entity_at(c)
                    == old(self).entity_at(c),
            forall|c: Cell|
                on_map(c, old(self).map_size@) ==> #[trigger] final(self).tile_at(c) == old(self).tile_at(c),
    {
        let i = self.resolve_exec(cell)?;
        let layer = self.layer;
        let m = self.tilemap.chunk_pos_conversion_settings.max_chunk_size;
        let p = crate::coords::cell_to_chunk_cell(cell, m);
        let chunk: &mut Chunk<T> = &mut self.chunk_store[i];
        let res = chunk.remove_tile_entity(layer, p);
        proof {
            lemma_store_replaced(&self.tilemap, old(self).chunk_store@, self.chunk_store@, self.map_size@, i as int);
            assert forall|c: Cell| on_map(c, old(self).map_size@) && c != cell implies #[trigger] self.entity_at(c)
                == old(self).entity_at(c) by {
                lemma_resolve_on_map(old(self), c);
                if on_map(cell, old(self).map_size@) {
                    lemma_cells_apart(old(self), c, cell);
                }
            }
            assert forall|c: Cell| on_map(c, old(self).map_size@) implies #[trigger] self.tile_at(c)
                == old(self).tile_at(c) by {
                lemma_resolve_on_map(old(self), c);
            }
        }
        match res {
            Ok(e) => Ok(e),
            Err(_) => Err(TilemapManagerError::LayerNotFound),
        }
    }

    /// The chunk at `chunk_pos`; fails with `InvalidChunkPos` when the grid
    /// has no such position.
    pub fn get_chunk(&self, chunk_pos: ChunkPos) -> (r: Result<&Chunk<T>, TilemapManagerError>)
        requires
            self.wf(),
        ensures
            match grid_get(self.tilemap.chunks.chunk_entities@, chunk_pos.x as int, chunk_pos.y as int) {
                None => r == Err::<&Chunk<T>, TilemapManagerError>(TilemapManagerError::InvalidChunkPos),
                Some(h) => r is Ok && *r->Ok_0 == self.chunk_store@[h.0 as int],
            },
    {
        match self.tilemap.get_chunk(chunk_pos) {
            None => Err(TilemapManagerError::InvalidChunkPos),
            Some(h) => {
                if h.0 >= self.chunk_store.len() as u64 {
                    return Err(TilemapManagerError::ChunkEntityDoesNotExist);
                }
                Ok(&self.chunk_store[h.0 as usize])
            },
        }
    }
}

} // verus!
