//! Coordinate value types and the cell -> chunk conversion math.
use vstd::prelude::*;

verus! {

/// A pair of unsigned sizes or counts (width on `x`, height on `y`).
#[derive(Clone, Copy, Debug, PartialEq, Eq, Hash, Structural)]
pub struct UVec2 {
    pub x: u32,
    pub y: u32,
}

impl UVec2 {
    pub fn new(x: u32, y: u32) -> (r: UVec2)
        ensures
            r.x == x,
            r.y == y,
    {
        UVec2 { x, y }
    }
}

/// A maximum chunk size is usable when both axes are non-zero and an
/// in-chunk offset (below the size) fits the signed coordinate type.
pub open spec fn valid_chunk_size(m: UVec2) -> bool {
    0 < m.x <= i32::MAX && 0 < m.y <= i32::MAX
}

/// The global address of one tile on the map. May be negative.
#[derive(Clone, Copy, Debug, PartialEq, Eq, Hash, Structural)]
pub struct Cell {
    pub x: i32,
    pub y: i32,
}

impl Cell {
    pub fn new(x: i32, y: i32) -> (r: Cell)
        ensures
            r.x == x,
            r.y == y,
    {
        Cell { x, y }
    }
}

/// An opaque handle owned by the host. The library stores and returns it and
/// never interprets it.
#[derive(Clone, Copy, Debug, PartialEq, Eq, Hash, Structural)]
pub struct Entity(pub u64);

/// The position of a chunk in the chunk grid.
#[derive(Clone, Copy, Debug, PartialEq, Eq, Hash, Structural)]
pub struct ChunkPos {
    pub x: i32,
    pub y: i32,
}

impl ChunkPos {
    pub fn new(x: i32, y: i32) -> (r: ChunkPos)
        ensures
            r.x == x,
            r.y == y,
    {
        ChunkPos { x, y }
    }

    pub fn x(&self) -> (r: i32)
        ensures
            r == self.x,
    {
        self.x
    }

    pub fn y(&self) -> (r: i32)
        ensures
            r == self.y,
    {
        self.y
    }
}

/// The position of a tile inside its chunk.
#[derive(Clone, Copy, Debug, PartialEq, Eq, Hash, Structural)]
pub struct ChunkCell {
    pub x: i32,
    pub y: i32,
}

impl ChunkCell {
    pub fn new(x: i32, y: i32) -> (r: ChunkCell)
        ensures
            r.x == x,
            r.y == y,
    {
        ChunkCell { x, y }
    }

    pub fn x(&self) -> (r: i32)
        ensures
            r == self.x,
    {
        self.x
    }

    pub fn y(&self) -> (r: i32)
        ensures
            r == self.y,
    {
        self.y
    }
}

/// An unsigned tile position on a map that starts at the origin.
#[derive(Clone, Copy, Debug, PartialEq, Eq, Hash, Structural)]
pub struct TilePos {
    pub x: u32,
    pub y: u32,
}

/// An unsigned tile position inside a chunk.
#[derive(Clone, Copy, Debug, PartialEq, Eq, Hash, Structural)]
pub struct ChunkTilePos {
    pub x: u32,
    pub y: u32,
}

impl ChunkTilePos {
    pub fn new(x: u32, y: u32) -> (r: ChunkTilePos)
        ensures
            r.x == x,
            r.y == y,
    {
        ChunkTilePos { x, y }
    }

    pub fn x(&self) -> (r: u32)
        ensures
            r == self.x,
    {
        self.x
    }

    pub fn y(&self) -> (r: u32)
        ensures
            r == self.y,
    {
        self.y
    }
}

impl TilePos {
    pub fn new(x: u32, y: u32) -> (r: TilePos)
        ensures
            r.x == x,
            r.y == y,
    {
        TilePos { x, y }
    }

    /// The position of this tile inside its chunk.
    pub fn into_chunk_tile_pos(self, max_chunk_size: UVec2) -> (r: ChunkTilePos)
        requires
            valid_chunk_size(max_chunk_size),
        ensures
            r.x == self.x % max_chunk_size.x,
            r.y == self.y % max_chunk_size.y,
            r.x < max_chunk_size.x,
            r.y < max_chunk_size.y,
    {
        let x = self.x % max_chunk_size.x;
        let y = self.y % max_chunk_size.y;
        assert(x < max_chunk_size.x) by {
            vstd::arithmetic::div_mod::lemma_mod_bound(self.x as int, max_chunk_size.x as int);
        }
        assert(y < max_chunk_size.y) by {
            vstd::arithmetic::div_mod::lemma_mod_bound(self.y as int, max_chunk_size.y as int);
        }
        ChunkTilePos::new(x, y)
    }
}

/// Floor of `a / m` for a positive `m` (rounds toward negative infinity).
pub open spec fn floor_div(a: int, m: int) -> int {
    a / m
}

/// The chunk position of a cell, per axis `floor(cell / max_chunk_size)`.
pub open spec fn chunk_pos_of(cell: Cell, m: UVec2) -> (int, int) {
    (floor_div(cell.x as int, m.x as int), floor_div(cell.y as int, m.y as int))
}

/// The in-chunk position of a cell, `cell - chunk_pos * max_chunk_size`.
pub open spec fn chunk_cell_of(cell: Cell, m: UVec2) -> (int, int) {
    (
        cell.x as int - floor_div(cell.x as int, m.x as int) * m.x as int,
        cell.y as int - floor_div(cell.y as int, m.y as int) * m.y as int,
    )
}

proof fn lemma_floor_div_bounds(a: int, m: int)
    requires
        m > 0,
        -0x8000_0000 <= a < 0x8000_0000,
    ensures
        -0x8000_0000 <= floor_div(a, m) < 0x8000_0000,
        0 <= a - floor_div(a, m) * m < m,
{
    let q = a / m;
    assert(a == q * m + a % m && 0 <= a % m < m) by {
        vstd::arithmetic::div_mod::lemma_fundamental_div_mod(a, m);
    }
    if a >= 0 {
        assert(0 <= q <= a) by {
            vstd::arithmetic::div_mod::lemma_div_pos_is_pos(a, m);
            vstd::arithmetic::div_mod::lemma_div_is_ordered_by_denominator(a, 1, m);
        }
    } else {
        assert(a <= q < 0) by (nonlinear_arith)
            requires
                a == q * m + a % m,
                0 <= a % m < m,
                m > 0,
                a < 0,
        ;
    }
}

proof fn lemma_product_fits(q: int, m: int)
    requires
        -0x8000_0000 <= q < 0x8000_0000,
        0 < m < 0x1_0000_0000,
    ensures
        -0x8000_0000_0000_0000 < q * m < 0x8000_0000_0000_0000,
{
    assert(-0x8000_0000_0000_0000 < q * m < 0x8000_0000_0000_0000) by (nonlinear_arith)
        requires
            -0x8000_0000 <= q <= 0x7fff_ffff,
            0 < m <= 0xffff_ffff,
    ;
}

/// Floor division of one signed coordinate by a positive size.
fn floor_div_i32(a: i32, m: u32) -> (r: i32)
    requires
        m > 0,
    ensures
        r == floor_div(a as int, m as int),
{
    proof {
        lemma_floor_div_bounds(a as int, m as int);
    }
    if a >= 0 {
        let q = (a as u32) / m;
        q as i32
    } else {
        // -a - 1 fits in u32 for every negative i32
        let n: u32 = ((-(a as i64)) - 1) as u32;
        let q = n / m;
        proof {
            let ai = a as int;
            let mi = m as int;
            let qi = q as int;
            assert(n as int == qi * mi + (n as int) % mi && 0 <= (n as int) % mi < mi) by {
                vstd::arithmetic::div_mod::lemma_fundamental_div_mod(n as int, mi);
            }
            let rr = (n as int) % mi;
            // a = -(n + 1) = (-q - 1) * m + (m - 1 - rr)
            assert(ai == (-qi - 1) * mi + (mi - 1 - rr)) by (nonlinear_arith)
                requires
                    n as int == qi * mi + rr,
                    ai == -(n as int) - 1,
            ;
            vstd::arithmetic::div_mod::lemma_fundamental_div_mod_converse(
                ai,
                mi,
                -qi - 1,
                mi - 1 - rr,
            );
            assert(qi <= n as int) by {
                vstd::arithmetic::div_mod::lemma_div_is_ordered_by_denominator(n as int, 1, mi);
            }
        }
        (-(q as i64) - 1) as i32
    }
}

/// Converts a cell into the position of the chunk that holds it, rounding
/// toward negative infinity on each axis.
pub fn cell_to_chunk_pos(cell: Cell, max_chunk_size: UVec2) -> (r: ChunkPos)
    requires
        valid_chunk_size(max_chunk_size),
    ensures
        (r.x as int, r.y as int) == chunk_pos_of(cell, max_chunk_size),
{
    ChunkPos::new(floor_div_i32(cell.x, max_chunk_size.x), floor_div_i32(cell.y, max_chunk_size.y))
}

/// Converts a cell into its position inside the chunk that holds it. Both
/// axes land in `[0, max_chunk_size)`.
pub fn cell_to_chunk_cell(cell: Cell, max_chunk_size: UVec2) -> (r: ChunkCell)
    requires
        valid_chunk_size(max_chunk_size),
    ensures
        (r.x as int, r.y as int) == chunk_cell_of(cell, max_chunk_size),
        0 <= r.x < max_chunk_size.x,
        0 <= r.y < max_chunk_size.y,
{
    proof {
        lemma_floor_div_bounds(cell.x as int, max_chunk_size.x as int);
        lemma_floor_div_bounds(cell.y as int, max_chunk_size.y as int);
    }
    let qx = floor_div_i32(cell.x, max_chunk_size.x);
    let qy = floor_div_i32(cell.y, max_chunk_size.y);
    proof {
        lemma_product_fits(qx as int, max_chunk_size.x as int);
        lemma_product_fits(qy as int, max_chunk_size.y as int);
    }
    let px = (qx as i64) * (max_chunk_size.x as i64);
    let py = (qy as i64) * (max_chunk_size.y as i64);
    assert(px == floor_div(cell.x as int, max_chunk_size.x as int) * max_chunk_size.x);
    assert(py == floor_div(cell.y as int, max_chunk_size.y as int) * max_chunk_size.y);
    let lx = (cell.x as i64) - px;
    let ly = (cell.y as i64) - py;
    ChunkCell::new(lx as i32, ly as i32)
}

} // verus!
