//! Storage of one layer of one chunk: dense rows or a sparse map, plus the
//! host handles attached to some of its tiles.
use crate::coords::{ChunkCell, Entity, UVec2};
use std::collections::HashMap;
use vstd::prelude::*;

verus! {

broadcast use vstd::std_specs::hash::group_hash_axioms;

/// Multiplier that packs an in-chunk position into one map key.
pub const KEY_SHIFT: u64 = 0x1_0000_0000;

/// The map key of the in-chunk position `(x, y)`.
pub open spec fn key_of(x: int, y: int) -> u64 {
    (x * KEY_SHIFT + y) as u64
}

/// Whether `(x, y)` lies inside a `w` by `h` rectangle anchored at the origin.
pub open spec fn in_rect(x: int, y: int, w: int, h: int) -> bool {
    0 <= x < w && 0 <= y < h
}

proof fn lemma_key_injective(x1: int, y1: int, x2: int, y2: int)
    requires
        0 <= x1 < 0x8000_0000,
        0 <= x2 < 0x8000_0000,
        0 <= y1 < 0x8000_0000,
        0 <= y2 < 0x8000_0000,
        key_of(x1, y1) == key_of(x2, y2),
    ensures
        x1 == x2,
        y1 == y2,
{
}

/// Packs a non-negative in-chunk position into its map key.
fn tile_key(p: ChunkCell) -> (r: u64)
    requires
        p.x >= 0,
        p.y >= 0,
    ensures
        r == key_of(p.x as int, p.y as int),
{
    (p.x as u64) * KEY_SHIFT + (p.y as u64)
}

/// Tile data as the caller supplies it when a layer of one chunk is made.
pub enum ChunkLayerType<T> {
    /// Every position of the chunk, as rows (`rows[y][x]`).
    Dense(Vec<Vec<T>>),
    /// Only the listed positions; a later entry for a position wins.
    Sparse(Vec<(ChunkCell, T)>),
}

/// Whether the caller data fits a chunk of size `d`: row counts and row
/// lengths fit signed coordinates, and sparse entries lie inside the chunk.
pub open spec fn layer_type_fits<T>(lt: &ChunkLayerType<T>, d: UVec2) -> bool {
    match lt {
        ChunkLayerType::Dense(rows) => rows@.len() <= i32::MAX && forall|i: int|
            0 <= i < rows@.len() ==> #[trigger] rows@[i]@.len() <= i32::MAX,
        ChunkLayerType::Sparse(entries) => forall|i: int|
            0 <= i < entries@.len() ==> in_rect(
                #[trigger] entries@[i].0.x as int,
                entries@[i].0.y as int,
                d.x as int,
                d.y as int,
            ),
    }
}

/// Whether dense caller rows are ragged.
pub open spec fn layer_type_ragged<T>(lt: &ChunkLayerType<T>) -> bool {
    match lt {
        ChunkLayerType::Dense(rows) => rows@.len() > 0 && !rows_uniform(
            rows@,
            rows@[0]@.len() as int,
        ),
        ChunkLayerType::Sparse(_) => false,
    }
}

/// Whether `l` holds exactly the caller data: dense rows with their own
/// size, or sparse entries over size `d`; no handles.
pub open spec fn layer_matches<T: Copy>(l: ChunkLayer<T>, lt: &ChunkLayerType<T>, d: UVec2) -> bool {
    &&& forall|x: int, y: int| #![trigger l.entity(x, y)] l.entity(x, y).is_none()
    &&& match lt {
        ChunkLayerType::Dense(rows) => {
            &&& l.is_dense()
            &&& l.dims().y == rows@.len()
            &&& l.dims().x == (if rows@.len() > 0 { rows@[0]@.len() } else { 0 })
            &&& forall|x: int, y: int|
                #![trigger l.tile(x, y)]
                l.contains(x, y) ==> l.tile(x, y) == Some(rows@[y]@[x])
        },
        ChunkLayerType::Sparse(entries) => {
            &&& !l.is_dense()
            &&& l.dims() == d
            &&& forall|x: int, y: int|
                #![trigger l.tile(x, y)]
                l.tile(x, y) == (if in_rect(x, y, d.x as int, d.y as int) {
                    last_entry_for(entries@, x, y)
                } else {
                    None
                })
        },
    }
}

/// The tile storage of a layer.
pub enum ChunkLayerData<T> {
    /// Only the positions that were set, keyed by `key_of(x, y)`, and the
    /// size of the chunk.
    Sparse(HashMap<u64, T>, UVec2),
    /// Every position, as rows (`rows[y][x]`), and the size of the chunk.
    Dense(Vec<Vec<T>>, UVec2),
}

/// The value the entries give to the in-chunk position `(x, y)`: that of the
/// last entry for it, if there is one.
pub open spec fn last_entry_for<T>(entries: Seq<(ChunkCell, T)>, x: int, y: int) -> Option<T>
    decreases entries.len(),
{
    if entries.len() == 0 {
        None
    } else {
        let e = entries.last();
        if e.0.x as int == x && e.0.y as int == y {
            Some(e.1)
        } else {
            last_entry_for(entries.drop_last(), x, y)
        }
    }
}

/// Errors of layer construction.
#[derive(Clone, Copy, Debug, PartialEq, Eq, Structural)]
pub enum LayerError {
    /// The rows of a dense grid do not all have the same length.
    MalformedInputGrid,
}

/// Whether all rows have length `w`.
pub open spec fn rows_uniform<T>(rows: Seq<Vec<T>>, w: int) -> bool {
    forall|i: int| 0 <= i < rows.len() ==> #[trigger] rows[i]@.len() == w
}

/// One layer of one chunk: its tiles and the handles attached to tiles.
pub struct ChunkLayer<T> {
    pub layer_type_data: ChunkLayerData<T>,
    pub tile_entities: HashMap<u64, Entity>,
}

impl<T: Copy> ChunkLayer<T> {
    /// The size of the chunk this layer covers.
    pub open spec fn dims(&self) -> UVec2 {
        match self.layer_type_data {
            ChunkLayerData::Sparse(_, d) => d,
            ChunkLayerData::Dense(_, d) => d,
        }
    }

    /// Whether `(x, y)` is a position of this layer.
    pub open spec fn contains(&self, x: int, y: int) -> bool {
        in_rect(x, y, self.dims().x as int, self.dims().y as int)
    }

    /// The tile data at `(x, y)`, if any.
    pub open spec fn tile(&self, x: int, y: int) -> Option<T> {
        if !self.contains(x, y) {
            None
        } else {
            match self.layer_type_data {
                ChunkLayerData::Sparse(m, _) => if m@.contains_key(key_of(x, y)) {
                    Some(m@[key_of(x, y)])
                } else {
                    None
                },
                ChunkLayerData::Dense(rows, _) => Some(rows@[y]@[x]),
            }
        }
    }

    /// The handle attached to the tile at `(x, y)`, if any.
    pub open spec fn entity(&self, x: int, y: int) -> Option<Entity> {
        if self.contains(x, y) && self.tile_entities@.contains_key(key_of(x, y)) {
            Some(self.tile_entities@[key_of(x, y)])
        } else {
            None
        }
    }

    /// Whether this layer stores every position.
    pub open spec fn is_dense(&self) -> bool {
        self.layer_type_data is Dense
    }

    /// Well-formedness: dense rows match the size; the size fits signed
    /// in-chunk coordinates.
    pub open spec fn wf(&self) -> bool {
        &&& self.dims().x <= i32::MAX
        &&& self.dims().y <= i32::MAX
        &&& match self.layer_type_data {
            ChunkLayerData::Sparse(_, _) => true,
            ChunkLayerData::Dense(rows, d) => rows@.len() == d.y && rows_uniform(rows@, d.x as int),
        }
    }

    /// A dense layer of `width` by `height` tiles, all holding the same
    /// value, `T`'s default.
    pub fn new_dense_default(width: u32, height: u32) -> (r: Self)
        where
            T: Default,
        requires
            width <= i32::MAX,
            height <= i32::MAX,
        ensures
            r.wf(),
            r.is_dense(),
            r.dims() == (UVec2 { x: width, y: height }),
            forall|x: int, y: int|
                #![trigger r.tile(x, y)]
                r.contains(x, y) ==> r.tile(x, y) == r.tile(0, 0),
            forall|x: int, y: int| #![trigger r.entity(x, y)] r.entity(x, y).is_none(),
    {
        let value = T::default();
        Self::new_dense_uniform(width, height, value)
    }

    /// A dense layer of `width` by `height` tiles, all holding `value`.
    pub fn new_dense_uniform(width: u32, height: u32, value: T) -> (r: Self)
        requires
            width <= i32::MAX,
            height <= i32::MAX,
        ensures
            r.wf(),
            r.is_dense(),
            r.dims() == (UVec2 { x: width, y: height }),
            forall|x: int, y: int|
                #![trigger r.tile(x, y)]
                r.contains(x, y) ==> r.tile(x, y) == Some(value),
            forall|x: int, y: int| #![trigger r.entity(x, y)] r.entity(x, y).is_none(),
    {
        let mut rows: Vec<Vec<T>> = Vec::new();
        let mut j: u32 = 0;
        while j < height
            invariant
                j <= height,
                rows@.len() == j,
                rows_uniform(rows@, width as int),
                forall|a: int, b: int|
                    0 <= a < j && 0 <= b < width ==> #[trigger] rows@[a]@[b] == value,
            decreases height - j,
        {
            let mut row: Vec<T> = Vec::new();
            let mut i: u32 = 0;
            while i < width
                invariant
                    i <= width,
                    row@.len() == i,
                    forall|b: int| 0 <= b < i ==> #[trigger] row@[b] == value,
                decreases width - i,
            {
                row.push(value);
                i = i + 1;
            }
            rows.push(row);
            j = j + 1;
        }
        ChunkLayer {
            layer_type_data: ChunkLayerData::Dense(rows, UVec2::new(width, height)),
            tile_entities: HashMap::new(),
        }
    }

    /// A dense layer holding a copy of `rows` (`rows[y][x]`). Fails with
    /// `MalformedInputGrid` when the rows do not all have the same length.
    /// No rows give an empty layer.
    pub fn new_dense_from_vecs(rows: &Vec<Vec<T>>) -> (r: Result<Self, LayerError>)
        requires
            rows@.len() <= i32::MAX,
            forall|i: int| 0 <= i < rows@.len() ==> #[trigger] rows@[i]@.len() <= i32::MAX,
        ensures
            match r {
                Ok(l) => {
                    &&& rows@.len() > 0 ==> rows_uniform(rows@, rows@[0]@.len() as int)
                    &&& l.wf()
                    &&& l.is_dense()
                    &&& l.dims().y == rows@.len()
                    &&& l.dims().x == (if rows@.len() > 0 { rows@[0]@.len() } else { 0 })
                    &&& forall|x: int, y: int|
                        #![trigger l.tile(x, y)]
                        l.contains(x, y) ==> l.tile(x, y) == Some(rows@[y]@[x])
                    &&& forall|x: int, y: int| #![trigger l.entity(x, y)] l.entity(x, y).is_none()
                },
                Err(e) => {
                    &&& e == LayerError::MalformedInputGrid
                    &&& rows@.len() > 0
                    &&& !rows_uniform(rows@, rows@[0]@.len() as int)
                },
            },
    {
        let height = rows.len();
        let width: usize = if height > 0 {
            rows[0].len()
        } else {
            0
        };
        let mut copy: Vec<Vec<T>> = Vec::new();
        let mut j: usize = 0;
        while j < height
            invariant
                height == rows@.len(),
                height > 0 ==> width == rows@[0]@.len(),
                j <= height,
                copy@.len() == j,
                rows_uniform(copy@, width as int),
                forall|a: int| 0 <= a < j ==> #[trigger] rows@[a]@.len() == width,
                forall|a: int, b: int|
                    0 <= a < j && 0 <= b < width ==> #[trigger] copy@[a]@[b] == rows@[a]@[b],
            decreases height - j,
        {
            let src: &Vec<T> = &rows[j];
            if src.len() != width {
                return Err(LayerError::MalformedInputGrid);
            }
            let mut row: Vec<T> = Vec::new();
            let mut i: usize = 0;
            while i < width
                invariant
                    src@ == rows@[j as int]@,
                    src@.len() == width,
                    i <= width,
                    row@.len() == i,
                    forall|b: int| 0 <= b < i ==> #[trigger] row@[b] == src@[b],
                decreases width - i,
            {
                row.push(src[i]);
                i = i + 1;
            }
            copy.push(row);
            j = j + 1;
        }
        Ok(
            ChunkLayer {
                layer_type_data: ChunkLayerData::Dense(
                    copy,
                    UVec2::new(width as u32, height as u32),
                ),
                tile_entities: HashMap::new(),
            },
        )
    }

    /// A sparse layer of `width` by `height` positions, none of them set.
    pub fn new_sparse_empty(width: u32, height: u32) -> (r: Self)
        requires
            width <= i32::MAX,
            height <= i32::MAX,
        ensures
            r.wf(),
            !r.is_dense(),
            r.dims() == (UVec2 { x: width, y: height }),
            forall|x: int, y: int| #![trigger r.tile(x, y)] r.tile(x, y).is_none(),
            forall|x: int, y: int| #![trigger r.entity(x, y)] r.entity(x, y).is_none(),
    {
        ChunkLayer {
            layer_type_data: ChunkLayerData::Sparse(HashMap::new(), UVec2::new(width, height)),
            tile_entities: HashMap::new(),
        }
    }

    /// The size of the chunk this layer covers.
    pub fn get_chunk_dimensions(&self) -> (r: UVec2)
        ensures
            r == self.dims(),
    {
        match &self.layer_type_data {
            ChunkLayerData::Sparse(_, d) => *d,
            ChunkLayerData::Dense(_, d) => *d,
        }
    }

    pub fn contains_exec(&self, p: ChunkCell) -> (r: bool)
        ensures
            r == self.contains(p.x as int, p.y as int),
    {
        let d = self.get_chunk_dimensions();
        p.x >= 0 && p.y >= 0 && (p.x as u32) < d.x && (p.y as u32) < d.y
    }

    /// The tile data at `p`: `None` outside the chunk and, in a sparse
    /// layer, at positions that were never set.
    pub fn get_tile_data(&self, p: ChunkCell) -> (r: Option<T>)
        requires
            self.wf(),
        ensures
            r == self.tile(p.x as int, p.y as int),
    {
        if !self.contains_exec(p) {
            return None;
        }
        match &self.layer_type_data {
            ChunkLayerData::Sparse(m, _) => {
                let k = tile_key(p);
                match m.get(&k) {
                    Some(v) => Some(*v),
                    None => None,
                }
            },
            ChunkLayerData::Dense(rows, _) => {
                let row: &Vec<T> = &rows[p.y as usize];
                Some(row[p.x as usize])
            },
        }
    }

    /// Sets the tile data at `p`, a position of the chunk. Every other
    /// position, the handles and the size stay as they were.
    pub fn set_tile_data(&mut self, p: ChunkCell, value: T)
        requires
            old(self).wf(),
            old(self).contains(p.x as int, p.y as int),
        ensures
            final(self).wf(),
            final(self).dims() == old(self).dims(),
            final(self).is_dense() == old(self).is_dense(),
            final(self).tile(p.x as int, p.y as int) == Some(value),
            forall|x: int, y: int|
                #![trigger final(self).tile(x, y)]
                (x, y) != (p.x as int, p.y as int) ==> final(self).tile(x, y) == old(self).tile(x, y),
            forall|x: int, y: int|
                #![trigger final(self).entity(x, y)]
                final(self).entity(x, y) == old(self).entity(x, y),
    {
        let k = tile_key(p);
        match &mut self.layer_type_data {
            ChunkLayerData::Sparse(m, _) => {
                m.insert(k, value);
            },
            ChunkLayerData::Dense(rows, _) => {
                let row: &mut Vec<T> = &mut rows[p.y as usize];
                row.set(p.x as usize, value);
            },
        }
        proof {
            assert forall|x: int, y: int|
                #![trigger self.tile(x, y)]
                (x, y) != (p.x as int, p.y as int) implies self.tile(x, y) == old(self).tile(
                x,
                y,
            ) by {
                if self.contains(x, y) {
                    if key_of(x, y) == k {
                        lemma_key_injective(x, y, p.x as int, p.y as int);
                    }
                }
            }
        }
    }

    /// The handle attached to the tile at `p`, if any.
    pub fn get_tile_entity(&self, p: ChunkCell) -> (r: Option<Entity>)
        ensures
            r == self.entity(p.x as int, p.y as int),
    {
        if !self.contains_exec(p) {
            return None;
        }
        let k = tile_key(p);
        match self.tile_entities.get(&k) {
            Some(e) => Some(*e),
            None => None,
        }
    }

    /// Attaches `entity` to the tile at `p`, a position of the chunk,
    /// replacing any handle there. Tiles and other handles are unchanged.
    pub fn set_tile_entity(&mut self, p: ChunkCell, entity: Entity)
        requires
            old(self).contains(p.x as int, p.y as int),
        ensures
            final(self).layer_type_data == old(self).layer_type_data,
            final(self).entity(p.x as int, p.y as int) == Some(entity),
            forall|x: int, y: int|
                #![trigger final(self).entity(x, y)]
                (x, y) != (p.x as int, p.y as int) ==> final(self).entity(x, y) == old(self).entity(x, y),
    {
        let k = tile_key(p);
        self.tile_entities.insert(k, entity);
        proof {
            assert forall|x: int, y: int|
                #![trigger self.entity(x, y)]
                (x, y) != (p.x as int, p.y as int) implies self.entity(x, y) == old(self).entity(
                x,
                y,
            ) by {
                if self.contains(x, y) && key_of(x, y) == k {
                    lemma_key_injective(x, y, p.x as int, p.y as int);
                }
            }
        }
    }

    /// A sparse layer of `width` by `height` positions holding the given
    /// entries, all of which lie inside the chunk.
    pub fn new_sparse_from_entries(entries: &Vec<(ChunkCell, T)>, width: u32, height: u32) -> (r: Self)
        requires
            width <= i32::MAX,
            height <= i32::MAX,
            forall|i: int|
                0 <= i < entries@.len() ==> in_rect(
                    #[trigger] entries@[i].0.x as int,
                    entries@[i].0.y as int,
                    width as int,
                    height as int,
                ),
        ensures
            r.wf(),
            !r.is_dense(),
            r.dims() == (UVec2 { x: width, y: height }),
            forall|x: int, y: int|
                #![trigger r.tile(x, y)]
                r.tile(x, y) == (if in_rect(x, y, width as int, height as int) {
                    last_entry_for(entries@, x, y)
                } else {
                    None
                }),
            forall|x: int, y: int| #![trigger r.entity(x, y)] r.entity(x, y).is_none(),
    {
        let mut layer = Self::new_sparse_empty(width, height);
        let mut i: usize = 0;
        while i < entries.len()
            invariant
                i <= entries@.len(),
                layer.wf(),
                !layer.is_dense(),
                layer.dims() == (UVec2 { x: width, y: height }),
                forall|j: int|
                    0 <= j < entries@.len() ==> in_rect(
                        #[trigger] entries@[j].0.x as int,
                        entries@[j].0.y as int,
                        width as int,
                        height as int,
                    ),
                forall|x: int, y: int|
                    #![trigger layer.tile(x, y)]
                    layer.tile(x, y) == (if in_rect(x, y, width as int, height as int) {
                        last_entry_for(entries@.subrange(0, i as int), x, y)
                    } else {
                        None
                    }),
                forall|x: int, y: int| #![trigger layer.entity(x, y)] layer.entity(x, y).is_none(),
            decreases entries@.len() - i,
        {
            let (p, v) = entries[i];
            layer.set_tile_data(p, v);
            proof {
                let next = entries@.subrange(0, i + 1);
                assert(next.drop_last() =~= entries@.subrange(0, i as int));
                assert(next.last() == (p, v));
            }
            i = i + 1;
        }
        assert(entries@.subrange(0, entries@.len() as int) =~= entries@);
        layer
    }

    /// A layer made from caller data. Dense rows give the layer their own
    /// size; sparse entries get `dimensions`. Fails only for ragged rows.
    pub fn new(layer_type: &ChunkLayerType<T>, dimensions: UVec2) -> (r: Result<Self, LayerError>)
        requires
            dimensions.x <= i32::MAX,
            dimensions.y <= i32::MAX,
            layer_type_fits(layer_type, dimensions),
        ensures
            r is Ok ==> r->Ok_0.wf() && layer_matches(r->Ok_0, layer_type, dimensions),
            r is Err <==> layer_type_ragged(layer_type),
            r is Err ==> r->Err_0 == LayerError::MalformedInputGrid,
    {
        match layer_type {
            ChunkLayerType::Dense(rows) => Self::new_dense_from_vecs(rows),
            ChunkLayerType::Sparse(entries) => Ok(
                Self::new_sparse_from_entries(entries, dimensions.x, dimensions.y),
            ),
        }
    }

    /// Detaches and returns the handle attached to the tile at `p`, if any.
    /// Tiles and other handles are unchanged.
    pub fn remove_tile_entity(&mut self, p: ChunkCell) -> (r: Option<Entity>)
        ensures
            r == old(self).entity(p.x as int, p.y as int),
            final(self).layer_type_data == old(self).layer_type_data,
            final(self).entity(p.x as int, p.y as int).is_none(),
            forall|x: int, y: int|
                #![trigger final(self).entity(x, y)]
                (x, y) != (p.x as int, p.y as int) ==> final(self).entity(x, y) == old(self).entity(x, y),
    {
        if !self.contains_exec(p) {
            return None;
        }
        let k = tile_key(p);
        let r = self.tile_entities.remove(&k);
        proof {
            assert forall|x: int, y: int|
                #![trigger self.entity(x, y)]
                (x, y) != (p.x as int, p.y as int) implies self.entity(x, y) == old(self).entity(
                x,
                y,
            ) by {
                if self.contains(x, y) && key_of(x, y) == k {
                    lemma_key_injective(x, y, p.x as int, p.y as int);
                }
            }
        }
        r
    }
}

} // verus!
