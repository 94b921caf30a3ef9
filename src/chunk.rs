//! A chunk: a rectangular part of the map holding one or more layers.
use crate::coords::{
    cell_to_chunk_cell, chunk_cell_of, valid_chunk_size, Cell, ChunkCell, ChunkPos, Entity, UVec2,
};
use crate::hex::HexOrientation;
use crate::layer::{
    layer_matches, layer_type_fits, layer_type_ragged, ChunkLayer, ChunkLayerType, LayerError,
};
use std::collections::HashMap;
use vstd::prelude::*;

verus! {

broadcast use vstd::std_specs::hash::group_hash_axioms;

/// The id of the default layer, which every chunk has.
pub const DEFAULT_LAYER: u32 = 1;

/// The grid family of a map. Both share the same chunk math; a hexagonal
/// map is addressed in offset coordinates.
#[derive(Clone, Copy, Debug, PartialEq, Eq, Hash, Structural)]
pub enum Topology {
    Square,
    Hex(HexOrientation),
}

/// What a chunk needs to turn a map cell into an in-chunk position.
#[derive(Clone, Copy, Debug, PartialEq, Eq, Hash, Structural)]
pub struct ChunkSettings {
    pub max_chunk_size: UVec2,
    pub topology: Topology,
}

/// Errors of chunk access.
#[derive(Clone, Copy, Debug, PartialEq, Eq, Structural)]
pub enum ChunkError {
    /// The chunk has no layer with the given id.
    LayerNotFound,
    /// The position lies outside the layer.
    OutOfBounds,
    /// Dense rows given for a layer are ragged.
    MalformedInputGrid,
}

/// One chunk of a map.
pub struct Chunk<T> {
    /// The position of the chunk in the chunk grid.
    pub chunk_pos: ChunkPos,
    /// The layers, keyed by layer id.
    pub data: HashMap<u32, ChunkLayer<T>>,
    /// How map cells convert into in-chunk positions.
    pub chunk_settings: ChunkSettings,
}

/// The in-chunk position of a cell under the settings of a chunk.
pub open spec fn local_of(cell: Cell, s: ChunkSettings) -> (int, int) {
    chunk_cell_of(cell, s.max_chunk_size)
}

impl<T: Copy> Chunk<T> {
    /// Whether the chunk has the layer `id`.
    pub open spec fn has_layer(&self, id: u32) -> bool {
        self.data@.contains_key(id)
    }

    /// The layer `id` (meaningful when the chunk has it).
    pub open spec fn layer(&self, id: u32) -> ChunkLayer<T> {
        self.data@[id]
    }

    /// The tile data at `(x, y)` of layer `id`; `None` when the chunk lacks
    /// the layer or the layer lacks data there.
    pub open spec fn tile(&self, id: u32, x: int, y: int) -> Option<T> {
        if self.has_layer(id) {
            self.layer(id).tile(x, y)
        } else {
            None
        }
    }

    /// The handle at `(x, y)` of layer `id`, if any.
    pub open spec fn entity(&self, id: u32, x: int, y: int) -> Option<Entity> {
        if self.has_layer(id) {
            self.layer(id).entity(x, y)
        } else {
            None
        }
    }

    /// The size of the chunk, that of its default layer.
    pub open spec fn dims(&self) -> UVec2 {
        self.layer(DEFAULT_LAYER).dims()
    }

    /// Well-formedness: the default layer exists, every layer is well
    /// formed, and the settings are usable.
    pub open spec fn wf(&self) -> bool {
        &&& self.has_layer(DEFAULT_LAYER)
        &&& forall|id: u32| #[trigger] self.data@.contains_key(id) ==> self.data@[id].wf()
        &&& valid_chunk_size(self.chunk_settings.max_chunk_size)
    }

    /// A chunk at `chunk_pos` whose default layer holds `tile_data`. Sparse
    /// data gets the size `chunk_size`; dense rows keep their own size.
    /// Fails only when dense rows are ragged.
    pub fn new(
        chunk_pos: ChunkPos,
        chunk_size: UVec2,
        tile_data: &ChunkLayerType<T>,
        chunk_settings: ChunkSettings,
    ) -> (r: Result<Chunk<T>, ChunkError>)
        requires
            chunk_size.x <= i32::MAX,
            chunk_size.y <= i32::MAX,
            valid_chunk_size(chunk_settings.max_chunk_size),
            layer_type_fits(tile_data, chunk_size),
        ensures
            r is Err <==> layer_type_ragged(tile_data),
            r is Err ==> r->Err_0 == ChunkError::MalformedInputGrid,
            r is Ok ==> {
                let c = r->Ok_0;
                &&& c.wf()
                &&& c.chunk_pos == chunk_pos
                &&& c.chunk_settings == chunk_settings
                &&& c.data@.dom() == set![DEFAULT_LAYER]
                &&& layer_matches(c.layer(DEFAULT_LAYER), tile_data, chunk_size)
            },
    {
        match ChunkLayer::new(tile_data, chunk_size) {
            Ok(layer) => {
                let mut data: HashMap<u32, ChunkLayer<T>> = HashMap::new();
                data.insert(DEFAULT_LAYER, layer);
                assert(data@.dom() =~= set![DEFAULT_LAYER]);
                Ok(Chunk { chunk_pos, data, chunk_settings })
            },
            Err(_) => Err(ChunkError::MalformedInputGrid),
        }
    }

    /// The size of the chunk, read from its default layer.
    pub fn get_chunk_dimensions(&self) -> (r: UVec2)
        requires
            self.wf(),
        ensures
            r == self.dims(),
    {
        match self.data.get(&DEFAULT_LAYER) {
            Some(layer) => layer.get_chunk_dimensions(),
            None => UVec2::new(0, 0),
        }
    }

    /// Adds the layer `map_layer`, or replaces it. Sparse data gets the
    /// chunk's size; dense rows keep their own size. Fails when dense rows
    /// are ragged, leaving the chunk as it was.
    pub fn add_layer(&mut self, map_layer: u32, tile_data: &ChunkLayerType<T>) -> (r: Result<
        (),
        ChunkError,
    >)
        requires
            old(self).wf(),
            layer_type_fits(tile_data, old(self).dims()),
        ensures
            final(self).wf(),
            final(self).chunk_pos == old(self).chunk_pos,
            final(self).chunk_settings == old(self).chunk_settings,
            r is Err <==> layer_type_ragged(tile_data),
            r is Err ==> r->Err_0 == ChunkError::MalformedInputGrid && final(self).data@ == old(self).data@,
            r is Ok ==> {
                &&& final(self).data@.dom() == old(self).data@.dom().insert(map_layer)
                &&& layer_matches(final(self).layer(map_layer), tile_data, old(self).dims())
                &&& forall|id: u32|
                    id != map_layer && #[trigger] old(self).has_layer(id) ==> final(self).layer(id)
                        == old(self).layer(id)
            },
    {
        let dims = self.get_chunk_dimensions();
        match ChunkLayer::new(tile_data, dims) {
            Ok(layer) => {
                self.data.insert(map_layer, layer);
                assert(self.data@.dom() =~= old(self).data@.dom().insert(map_layer));
                Ok(())
            },
            Err(_) => Err(ChunkError::MalformedInputGrid),
        }
    }

    /// The tile data at `chunk_cell` of layer `map_layer`. Fails with
    /// `LayerNotFound` when the chunk lacks that layer.
    pub fn get_tile_data(&self, map_layer: u32, chunk_cell: ChunkCell) -> (r: Result<
        Option<T>,
        ChunkError,
    >)
        requires
            self.wf(),
        ensures
            r is Err <==> !self.has_layer(map_layer),
            r is Err ==> r->Err_0 == ChunkError::LayerNotFound,
            r is Ok ==> r->Ok_0 == self.tile(map_layer, chunk_cell.x as int, chunk_cell.y as int),
    {
        match self.data.get(&map_layer) {
            Some(layer) => Ok(layer.get_tile_data(chunk_cell)),
            None => Err(ChunkError::LayerNotFound),
        }
    }

    /// The tile data of layer `map_layer` at the position of `cell` in this
    /// chunk.
    pub fn get_tile_data_from_cell(&self, map_layer: u32, cell: Cell) -> (r: Result<
        Option<T>,
        ChunkError,
    >)
        requires
            self.wf(),
        ensures
            r is Err <==> !self.has_layer(map_layer),
            r is Err ==> r->Err_0 == ChunkError::LayerNotFound,
            r is Ok ==> r->Ok_0 == self.tile(
                map_layer,
                local_of(cell, self.chunk_settings).0,
                local_of(cell, self.chunk_settings).1,
            ),
    {
        let p = cell_to_chunk_cell(cell, self.chunk_settings.max_chunk_size);
        self.get_tile_data(map_layer, p)
    }

    /// Sets the tile data at `chunk_cell` of layer `map_layer`. Fails with
    /// `LayerNotFound` when the chunk lacks the layer and with `OutOfBounds`
    /// when the position lies outside it; the chunk is then unchanged. No
    /// other layer, and no other position of this layer, changes.
    pub fn set_tile_data(&mut self, map_layer: u32, chunk_cell: ChunkCell, tile_data: T) -> (r:
        Result<(), ChunkError>)
        requires
            old(self).wf(),
        ensures
            final(self).wf(),
            final(self).chunk_pos == old(self).chunk_pos,
            final(self).chunk_settings == old(self).chunk_settings,
            final(self).data@.dom() == old(self).data@.dom(),
            r == (if !old(self).has_layer(map_layer) {
                Err(ChunkError::LayerNotFound)
            } else if !old(self).layer(map_layer).contains(chunk_cell.x as int, chunk_cell.y as int) {
                Err(ChunkError::OutOfBounds)
            } else {
                Ok(())
            }),
            r is Err ==> final(self).data@ == old(self).data@,
            r is Ok ==> {
                &&& final(self).tile(map_layer, chunk_cell.x as int, chunk_cell.y as int) == Some(
                    tile_data,
                )
                &&& final(self).layer(map_layer).dims() == old(self).layer(map_layer).dims()
                &&& final(self).layer(map_layer).is_dense() == old(self).layer(
                    map_layer,
                ).is_dense()
            },
            forall|id: u32, x: int, y: int|
                #![trigger final(self).tile(id, x, y)]
                (id, x, y) != (map_layer, chunk_cell.x as int, chunk_cell.y as int) ==> final(self).tile(id, x, y) == old(self).tile(id, x, y),
            forall|id: u32, x: int, y: int|
                #![trigger final(self).entity(id, x, y)]
                final(self).entity(id, x, y) == old(self).entity(id, x, y),
            forall|id: u32|
                id != map_layer && #[trigger] old(self).has_layer(id) ==> final(self).layer(id)
                    == old(self).layer(id),
            forall|id: u32| #[trigger] old(self).has_layer(id) ==> final(self).layer(id).dims() == old(self).layer(id).dims(),
            forall|id: u32|
                #[trigger] old(self).has_layer(id) ==> final(self).layer(id).is_dense() == old(self).layer(id).is_dense(),
    {
        let removed = self.data.remove(&map_layer);
        match removed {
            Some(mut layer) => {
                if !layer.contains_exec(chunk_cell) {
                    self.data.insert(map_layer, layer);
                    assert(self.data@ =~= old(self).data@);
                    return Err(ChunkError::OutOfBounds);
                }
                layer.set_tile_data(chunk_cell, tile_data);
                self.data.insert(map_layer, layer);
                assert(self.data@.dom() =~= old(self).data@.dom());
                Ok(())
            },
            None => {
                assert(self.data@ =~= old(self).data@);
                Err(ChunkError::LayerNotFound)
            },
        }
    }

    /// Sets the tile data of layer `map_layer` at the position of `cell` in
    /// this chunk.
    pub fn set_tile_data_from_cell(&mut self, map_layer: u32, cell: Cell, tile_data: T) -> (r:
        Result<(), ChunkError>)
        requires
            old(self).wf(),
        ensures
            final(self).wf(),
            final(self).chunk_pos == old(self).chunk_pos,
            final(self).chunk_settings == old(self).chunk_settings,
            final(self).data@.dom() == old(self).data@.dom(),
            ({
                let lx = local_of(cell, old(self).chunk_settings).0;
                let ly = local_of(cell, old(self).chunk_settings).1;
                &&& r == (if !old(self).has_layer(map_layer) {
                    Err(ChunkError::LayerNotFound)
                } else if !old(self).layer(map_layer).contains(lx, ly) {
                    Err(ChunkError::OutOfBounds)
                } else {
                    Ok(())
                })
                &&& r is Ok ==> final(self).tile(map_layer, lx, ly) == Some(tile_data)
                &&& forall|id: u32, x: int, y: int|
                    #![trigger final(self).tile(id, x, y)]
                    (id, x, y) != (map_layer, lx, ly) ==> final(self).tile(id, x, y) == old(self).tile(id, x, y)
            }),
            forall|id: u32, x: int, y: int|
                #![trigger final(self).entity(id, x, y)]
                final(self).entity(id, x, y) == old(self).entity(id, x, y),
            forall|id: u32| #[trigger] old(self).has_layer(id) ==> final(self).layer(id).dims() == old(self).layer(id).dims(),
            forall|id: u32|
                #[trigger] old(self).has_layer(id) ==> final(self).layer(id).is_dense() == old(self).layer(id).is_dense(),
    {
        let p = cell_to_chunk_cell(cell, self.chunk_settings.max_chunk_size);
        self.set_tile_data(map_layer, p, tile_data)
    }

    /// The handle at `chunk_cell` of layer `map_layer`, if any. Fails with
    /// `LayerNotFound` when the chunk lacks that layer.
    pub fn get_tile_entity(&self, map_layer: u32, chunk_cell: ChunkCell) -> (r: Result<
        Option<Entity>,
        ChunkError,
    >)
        ensures
            r is Err <==> !self.has_layer(map_layer),
            r is Err ==> r->Err_0 == ChunkError::LayerNotFound,
            r is Ok ==> r->Ok_0 == self.entity(map_layer, chunk_cell.x as int, chunk_cell.y as int),
    {
        match self.data.get(&map_layer) {
            Some(layer) => Ok(layer.get_tile_entity(chunk_cell)),
            None => Err(ChunkError::LayerNotFound),
        }
    }

    /// The handle of layer `map_layer` at the position of `cell` in this
    /// chunk, if any.
    pub fn get_tile_entity_from_cell(&self, map_layer: u32, cell: Cell) -> (r: Result<
        Option<Entity>,
        ChunkError,
    >)
        requires
            self.wf(),
        ensures
            r is Err <==> !self.has_layer(map_layer),
            r is Err ==> r->Err_0 == ChunkError::LayerNotFound,
            r is Ok ==> r->Ok_0 == self.entity(
                map_layer,
                local_of(cell, self.chunk_settings).0,
                local_of(cell, self.chunk_settings).1,
            ),
    {
        let p = cell_to_chunk_cell(cell, self.chunk_settings.max_chunk_size);
        self.get_tile_entity(map_layer, p)
    }

    /// Attaches `entity` at `chunk_cell` of layer `map_layer`. Fails with
    /// `LayerNotFound` or `OutOfBounds`, leaving the chunk unchanged. Tiles
    /// and all other handles stay as they were.
    pub fn set_tile_entity(&mut self, map_layer: u32, chunk_cell: ChunkCell, entity: Entity) -> (r:
        Result<(), ChunkError>)
        requires
            old(self).wf(),
        ensures
            final(self).wf(),
            final(self).chunk_pos == old(self).chunk_pos,
            final(self).chunk_settings == old(self).chunk_settings,
            final(self).data@.dom() == old(self).data@.dom(),
            r == (if !old(self).has_layer(map_layer) {
                Err(ChunkError::LayerNotFound)
            } else if !old(self).layer(map_layer).contains(chunk_cell.x as int, chunk_cell.y as int) {
                Err(ChunkError::OutOfBounds)
            } else {
                Ok(())
            }),
            r is Ok ==> final(self).entity(map_layer, chunk_cell.x as int, chunk_cell.y as int)
                == Some(entity),
            forall|id: u32, x: int, y: int|
                #![trigger final(self).entity(id, x, y)]
                (id, x, y) != (map_layer, chunk_cell.x as int, chunk_cell.y as int) ==> final(self).entity(id, x, y) == old(self).entity(id, x, y),
            forall|id: u32, x: int, y: int|
                #![trigger final(self).tile(id, x, y)]
                final(self).tile(id, x, y) == old(self).tile(id, x, y),
            forall|id: u32| #[trigger] old(self).has_layer(id) ==> final(self).layer(id).dims() == old(self).layer(id).dims(),
            forall|id: u32|
                #[trigger] old(self).has_layer(id) ==> final(self).layer(id).is_dense() == old(self).layer(id).is_dense(),
    {
        let removed = self.data.remove(&map_layer);
        match removed {
            Some(mut layer) => {
                if !layer.contains_exec(chunk_cell) {
                    self.data.insert(map_layer, layer);
                    assert(self.data@ =~= old(self).data@);
                    return Err(ChunkError::OutOfBounds);
                }
                layer.set_tile_entity(chunk_cell, entity);
                self.data.insert(map_layer, layer);
                assert(self.data@.dom() =~= old(self).data@.dom());
                Ok(())
            },
            None => {
                assert(self.data@ =~= old(self).data@);
                Err(ChunkError::LayerNotFound)
            },
        }
    }

    /// Attaches `entity` to layer `map_layer` at the position of `cell` in
    /// this chunk.
    pub fn set_tile_entity_from_cell(&mut self, map_layer: u32, cell: Cell, entity: Entity) -> (r:
        Result<(), ChunkError>)
        requires
            old(self).wf(),
        ensures
            final(self).wf(),
            final(self).chunk_pos == old(self).chunk_pos,
            final(self).chunk_settings == old(self).chunk_settings,
            final(self).data@.dom() == old(self).data@.dom(),
            ({
                let lx = local_of(cell, old(self).chunk_settings).0;
                let ly = local_of(cell, old(self).chunk_settings).1;
                &&& r == (if !old(self).has_layer(map_layer) {
                    Err(ChunkError::LayerNotFound)
                } else if !old(self).layer(map_layer).contains(lx, ly) {
                    Err(ChunkError::OutOfBounds)
                } else {
                    Ok(())
                })
                &&& r is Ok ==> final(self).entity(map_layer, lx, ly) == Some(entity)
                &&& forall|id: u32, x: int, y: int|
                    #![trigger final(self).entity(id, x, y)]
                    (id, x, y) != (map_layer, lx, ly) ==> final(self).entity(id, x, y) == old(self).entity(id, x, y)
            }),
            forall|id: u32, x: int, y: int|
                #![trigger final(self).tile(id, x, y)]
                final(self).tile(id, x, y) == old(self).tile(id, x, y),
            forall|id: u32| #[trigger] old(self).has_layer(id) ==> final(self).layer(id).dims() == old(self).layer(id).dims(),
            forall|id: u32|
                #[trigger] old(self).has_layer(id) ==> final(self).layer(id).is_dense() == old(self).layer(id).is_dense(),
    {
        let p = cell_to_chunk_cell(cell, self.chunk_settings.max_chunk_size);
        self.set_tile_entity(map_layer, p, entity)
    }

    /// Detaches and returns the handle at `chunk_cell` of layer `map_layer`.
    /// Fails with `LayerNotFound` when the chunk lacks the layer. Tiles and
    /// all other handles stay as they were.
    pub fn remove_tile_entity(&mut self, map_layer: u32, chunk_cell: ChunkCell) -> (r: Result<
        Option<Entity>,
        ChunkError,
    >)
        requires
            old(self).wf(),
        ensures
            final(self).wf(),
            final(self).chunk_pos == old(self).chunk_pos,
            final(self).chunk_settings == old(self).chunk_settings,
            final(self).data@.dom() == old(self).data@.dom(),
            r is Err <==> !old(self).has_layer(map_layer),
            r is Err ==> r->Err_0 == ChunkError::LayerNotFound,
            r is Ok ==> r->Ok_0 == old(self).entity(map_layer, chunk_cell.x as int, chunk_cell.y as int),
            final(self).entity(map_layer, chunk_cell.x as int, chunk_cell.y as int).is_none(),
            forall|id: u32, x: int, y: int|
                #![trigger final(self).entity(id, x, y)]
                (id, x, y) != (map_layer, chunk_cell.x as int, chunk_cell.y as int) ==> final(self).entity(id, x, y) == old(self).entity(id, x, y),
            forall|id: u32, x: int, y: int|
                #![trigger final(self).tile(id, x, y)]
                final(self).tile(id, x, y) == old(self).tile(id, x, y),
            forall|id: u32| #[trigger] old(self).has_layer(id) ==> final(self).layer(id).dims() == old(self).layer(id).dims(),
            forall|id: u32|
                #[trigger] old(self).has_layer(id) ==> final(self).layer(id).is_dense() == old(self).layer(id).is_dense(),
    {
        let removed = self.data.remove(&map_layer);
        match removed {
            Some(mut layer) => {
                let e = layer.remove_tile_entity(chunk_cell);
                self.data.insert(map_layer, layer);
                assert(self.data@.dom() =~= old(self).data@.dom());
                Ok(e)
            },
            None => {
                assert(self.data@ =~= old(self).data@);
                Err(ChunkError::LayerNotFound)
            },
        }
    }
}

} // verus!
