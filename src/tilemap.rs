//! The chunk registry of a map and the map-level handle that owns it.
use crate::chunk::ChunkSettings;
use crate::coords::{cell_to_chunk_pos, chunk_pos_of, valid_chunk_size, Cell, ChunkPos, Entity, UVec2};
use crate::layer::{rows_uniform, LayerError};
use vstd::prelude::*;

verus! {

/// The handle at column `x`, row `y` of a handle grid, if that position exists.
pub open spec fn grid_get(g: Seq<Vec<Entity>>, x: int, y: int) -> Option<Entity> {
    if 0 <= y < g.len() && 0 <= x < g[y]@.len() {
        Some(g[y]@[x])
    } else {
        None
    }
}

/// The chunk registry: a grid of chunk handles (row `y`, column `x`) and the
/// maximum size of a chunk.
pub struct Chunks {
    pub chunk_entities: Vec<Vec<Entity>>,
    pub max_chunk_size: UVec2,
}

impl Chunks {
    /// Whether the handle grid is rectangular.
    pub open spec fn wf(&self) -> bool {
        self.chunk_entities@.len() > 0 ==> rows_uniform(
            self.chunk_entities@,
            self.chunk_entities@[0]@.len() as int,
        )
    }

    /// Checks that the rows of handles all have one length and returns them
    /// as a handle grid; fails with `MalformedInputGrid` otherwise.
    pub fn new_chunk_entity_grid(chunk_entities: Vec<Vec<Entity>>) -> (r: Result<
        Vec<Vec<Entity>>,
        LayerError,
    >)
        ensures
            r is Ok <==> (chunk_entities@.len() > 0 ==> rows_uniform(
                chunk_entities@,
                chunk_entities@[0]@.len() as int,
            )),
            r is Ok ==> r->Ok_0@ == chunk_entities@,
            r is Err ==> r->Err_0 == LayerError::MalformedInputGrid,
    {
        if chunk_entities.len() == 0 {
            return Ok(chunk_entities);
        }
        let width = chunk_entities[0].len();
        let mut j: usize = 0;
        while j < chunk_entities.len()
            invariant
                chunk_entities@.len() > 0,
                width == chunk_entities@[0]@.len(),
                j <= chunk_entities@.len(),
                forall|a: int| 0 <= a < j ==> #[trigger] chunk_entities@[a]@.len() == width,
            decreases chunk_entities@.len() - j,
        {
            if chunk_entities[j].len() != width {
                return Err(LayerError::MalformedInputGrid);
            }
            j = j + 1;
        }
        Ok(chunk_entities)
    }

    /// A registry of the given handle grid and maximum chunk size.
    pub fn new(chunk_entity_grid: Vec<Vec<Entity>>, max_chunk_size: UVec2) -> (r: Chunks)
        ensures
            r.chunk_entities@ == chunk_entity_grid@,
            r.max_chunk_size == max_chunk_size,
    {
        Chunks { chunk_entities: chunk_entity_grid, max_chunk_size }
    }

    /// The maximum size of a chunk.
    pub fn max_chunk_size(&self) -> (r: UVec2)
        ensures
            r == self.max_chunk_size,
    {
        self.max_chunk_size
    }

    /// The handle of the chunk at `chunk_pos`, if the grid has that position.
    pub fn get_chunk(&self, chunk_pos: ChunkPos) -> (r: Option<Entity>)
        ensures
            r == grid_get(self.chunk_entities@, chunk_pos.x as int, chunk_pos.y as int),
    {
        if chunk_pos.y < 0 || chunk_pos.x < 0 {
            return None;
        }
        let y = chunk_pos.y as usize;
        let x = chunk_pos.x as usize;
        if y >= self.chunk_entities.len() {
            return None;
        }
        let row: &Vec<Entity> = &self.chunk_entities[y];
        if x >= row.len() {
            return None;
        }
        Some(row[x])
    }

    /// The number of chunks along x (columns) and y (rows).
    pub fn chunk_counts(&self) -> (r: UVec2)
        requires
            self.chunk_entities@.len() <= u32::MAX,
            self.chunk_entities@.len() > 0 ==> self.chunk_entities@[0]@.len() <= u32::MAX,
        ensures
            r.y == self.chunk_entities@.len(),
            r.x == (if self.chunk_entities@.len() > 0 {
                self.chunk_entities@[0]@.len()
            } else {
                0
            }),
    {
        let rows = self.chunk_entities.len();
        let cols: usize = if rows > 0 {
            self.chunk_entities[0].len()
        } else {
            0
        };
        UVec2::new(cols as u32, rows as u32)
    }
}

/// A map: its chunk registry and the settings that turn a cell into the
/// position of the chunk holding it.
pub struct Tilemap {
    pub chunks: Chunks,
    pub chunk_pos_conversion_settings: ChunkSettings,
}

impl Tilemap {
    /// A map over the given registry and conversion settings.
    pub fn new(chunks: Chunks, conversion_settings: ChunkSettings) -> (r: Tilemap)
        ensures
            r.chunks == chunks,
            r.chunk_pos_conversion_settings == conversion_settings,
    {
        Tilemap { chunks, chunk_pos_conversion_settings: conversion_settings }
    }

    /// The handle of the chunk holding `cell`, if the grid has that chunk.
    pub open spec fn chunk_for_cell(&self, cell: Cell) -> Option<Entity> {
        let p = chunk_pos_of(cell, self.chunk_pos_conversion_settings.max_chunk_size);
        grid_get(self.chunks.chunk_entities@, p.0, p.1)
    }

    /// The handle of the chunk that holds `cell`, if the grid has it. Cells
    /// left of or above the origin have none.
    pub fn get_chunk_for_cell(&self, cell: Cell) -> (r: Option<Entity>)
        requires
            valid_chunk_size(self.chunk_pos_conversion_settings.max_chunk_size),
        ensures
            r == self.chunk_for_cell(cell),
    {
        let pos = cell_to_chunk_pos(cell, self.chunk_pos_conversion_settings.max_chunk_size);
        self.chunks.get_chunk(pos)
    }

    /// The handle of the chunk at `chunk_pos`, if the grid has it.
    pub fn get_chunk(&self, chunk_pos: ChunkPos) -> (r: Option<Entity>)
        ensures
            r == grid_get(self.chunks.chunk_entities@, chunk_pos.x as int, chunk_pos.y as int),
    {
        self.chunks.get_chunk(chunk_pos)
    }

    /// The maximum size of a chunk.
    pub fn get_chunks_max_size(&self) -> (r: UVec2)
        ensures
            r == self.chunks.max_chunk_size,
    {
        self.chunks.max_chunk_size()
    }

    /// Mutable access to the chunk registry; the conversion settings stay.
    pub fn chunks_mut(&mut self) -> (r: &mut Chunks)
        ensures
            *r == old(self).chunks,
            final(self).chunks == *final(r),
            final(self).chunk_pos_conversion_settings == old(self).chunk_pos_conversion_settings,
    {
        &mut self.chunks
    }

    /// The chunk registry.
    pub fn chunks(&self) -> (r: &Chunks)
        ensures
            r == &self.chunks,
    {
        &self.chunks
    }
}

} // verus!
