//! Lattice coordinates and the one flattening rule between a cell and its index.
use vstd::prelude::*;
use vstd::arithmetic::div_mod::{
    lemma_div_denominator, lemma_fundamental_div_mod, lemma_fundamental_div_mod_converse,
};

verus! {

/// Side of the square base of a standard chunk.
pub const CHUNK_WIDTH: usize = 16;

/// Height of a standard chunk.
pub const CHUNK_HEIGHT: usize = 64;

/// Largest number of cells a chunk may hold, so that every vertex index of
/// its mesh fits in a `u32`.
pub const MAX_VOLUME: usize = 0x400_0000;

/// An integral point of the lattice: a cell of a chunk, a corner of a cell,
/// or the offset of a chunk in the world.
#[derive(Clone, Copy, Debug, PartialEq, Eq, Structural)]
pub struct Position {
    pub x: i64,
    pub y: i64,
    pub z: i64,
}

impl Position {
    pub fn new(x: i64, y: i64, z: i64) -> (r: Position)
        ensures
            r == (Position { x, y, z }),
    {
        Position { x, y, z }
    }
}

/// The shape of a chunk: `width` cells along x and z, `height` along y.
#[derive(Clone, Copy, Debug, PartialEq, Eq, Structural)]
pub struct Dims {
    pub width: usize,
    pub height: usize,
}

impl Dims {
    pub open spec fn wf(&self) -> bool {
        &&& 1 <= self.width
        &&& 1 <= self.height
        &&& self.width * self.width * self.height <= MAX_VOLUME
    }

    /// Number of cells.
    pub open spec fn cells(&self) -> int {
        self.width * self.width * self.height
    }

    pub open spec fn contains(&self, p: Position) -> bool {
        &&& 0 <= p.x < self.width
        &&& 0 <= p.y < self.height
        &&& 0 <= p.z < self.width
    }

    /// The flattening rule: `width * width * y + width * z + x`.
    pub open spec fn index_spec(&self, p: Position) -> int {
        self.width * self.width * p.y + self.width * p.z + p.x
    }

    /// The cell at a flat index.
    pub open spec fn position_spec(&self, i: int) -> Position {
        Position {
            x: (i % self.width as int) as i64,
            y: (i / (self.width * self.width)) as i64,
            z: ((i / self.width as int) % self.width as int) as i64,
        }
    }

    /// A standard chunk: `CHUNK_WIDTH` by `CHUNK_HEIGHT` by `CHUNK_WIDTH`.
    pub fn standard() -> (r: Dims)
        ensures
            r.width == CHUNK_WIDTH,
            r.height == CHUNK_HEIGHT,
            r.wf(),
    {
        Dims { width: CHUNK_WIDTH, height: CHUNK_HEIGHT }
    }

    pub fn volume(&self) -> (r: usize)
        requires
            self.wf(),
        ensures
            r == self.cells(),
    {
        proof {
            lemma_dims_bounds(*self);
        }
        self.width * self.width * self.height
    }

    /// Flat index of a cell inside the chunk.
    pub fn index_of(&self, p: &Position) -> (r: usize)
        requires
            self.wf(),
            self.contains(*p),
        ensures
            r == self.index_spec(*p),
            r < self.cells(),
    {
        proof {
            lemma_index_in_range(*self, *p);
            lemma_dims_bounds(*self);
        }
        let w = self.width;
        w * w * (p.y as usize) + w * (p.z as usize) + (p.x as usize)
    }

    /// Cell at a flat index.
    pub fn position_of(&self, i: usize) -> (r: Position)
        requires
            self.wf(),
            i < self.cells(),
        ensures
            r == self.position_spec(i as int),
            self.contains(r),
    {
        proof {
            lemma_position_in_range(*self, i as int);
            lemma_dims_bounds(*self);
        }
        let w = self.width;
        Position {
            x: (i % w) as i64,
            y: (i / (w * w)) as i64,
            z: ((i / w) % w) as i64,
        }
    }
}

/// The partial products of a well-formed shape stay below `MAX_VOLUME`.
pub proof fn lemma_dims_bounds(d: Dims)
    requires
        d.wf(),
    ensures
        d.width <= d.width * d.width,
        d.width * d.width <= d.cells(),
        d.cells() <= MAX_VOLUME,
        d.height <= d.cells(),
{
    let w = d.width as int;
    let h = d.height as int;
    assert(w <= w * w && w * w <= w * w * h && h <= w * w * h) by (nonlinear_arith)
        requires
            1 <= w,
            1 <= h,
    ;
}

/// The index of a cell inside the chunk is one of its cells' indices.
pub proof fn lemma_index_in_range(d: Dims, p: Position)
    requires
        d.wf(),
        d.contains(p),
    ensures
        0 <= d.index_spec(p) < d.cells(),
{
    let w = d.width as int;
    let h = d.height as int;
    assert(0 <= w * p.z + p.x < w * w) by (nonlinear_arith)
        requires
            0 <= p.x < w,
            0 <= p.z < w,
    ;
    assert(0 <= w * w * p.y && w * w * p.y + w * w <= w * w * h) by (nonlinear_arith)
        requires
            0 <= p.y < h,
            1 <= w,
    ;
}

/// The cell at an index of the chunk is inside it and has that index.
pub proof fn lemma_position_in_range(d: Dims, i: int)
    requires
        d.wf(),
        0 <= i < d.cells(),
    ensures
        d.contains(d.position_spec(i)),
        d.index_spec(d.position_spec(i)) == i,
{
    let w = d.width as int;
    let h = d.height as int;
    lemma_fundamental_div_mod(i, w);
    lemma_fundamental_div_mod(i / w, w);
    lemma_div_denominator(i, w, w);
    assert(0 <= i / w);
    assert(0 <= i % w < w);
    assert(0 <= (i / w) % w < w);
    assert(i / (w * w) < h) by {
        assert(0 < w * w) by (nonlinear_arith)
            requires
                1 <= w,
        ;
        let ww = w * w;
        lemma_fundamental_div_mod(i, ww);
        assert(0 <= i % ww);
        assert(i / ww < h) by (nonlinear_arith)
            requires
                i == ww * (i / ww) + i % ww,
                0 <= i % ww,
                i < ww * h,
                0 < ww,
        ;
    }
    assert(i == w * w * (i / (w * w)) + w * ((i / w) % w) + i % w) by (nonlinear_arith)
        requires
            i == w * (i / w) + i % w,
            i / w == w * ((i / w) / w) + (i / w) % w,
            (i / w) / w == i / (w * w),
    ;
}

/// Converting a cell to its index and back gives the cell.
pub proof fn lemma_position_of_index(d: Dims, p: Position)
    requires
        d.wf(),
        d.contains(p),
    ensures
        d.position_spec(d.index_spec(p)) == p,
{
    let w = d.width as int;
    let i = d.index_spec(p);
    lemma_index_in_range(d, p);
    assert(i == (w * p.y + p.z) * w + p.x) by (nonlinear_arith)
        requires
            i == w * w * p.y + w * p.z + p.x,
    ;
    lemma_fundamental_div_mod_converse(i, w, w * p.y + p.z, p.x as int);
    lemma_fundamental_div_mod_converse(w * p.y + p.z, w, p.y as int, p.z as int);
    assert(i == p.y * (w * w) + (w * p.z + p.x)) by (nonlinear_arith)
        requires
            i == w * w * p.y + w * p.z + p.x,
    ;
    assert(0 <= w * p.z + p.x < w * w) by (nonlinear_arith)
        requires
            0 <= p.x < w,
            0 <= p.z < w,
    ;
    lemma_fundamental_div_mod_converse(i, w * w, p.y as int, w * p.z + p.x);
}

/// `p` with its x and z swapped.
pub open spec fn swap_xz(p: Position) -> Position {
    Position { x: p.z, y: p.y, z: p.x }
}

impl Dims {
    /// The cell visited at step `s` of a scan that goes up the layers, then
    /// along x, with z innermost: `x = (s / w) % w`, `y = s / (w * w)`,
    /// `z = s % w`.
    pub open spec fn scan_position(&self, s: int) -> Position {
        swap_xz(self.position_spec(s))
    }

    /// The step at which the scan visits cell `p`: `w * w * y + w * x + z`.
    pub open spec fn scan_step(&self, p: Position) -> int {
        self.index_spec(swap_xz(p))
    }

    /// The cell visited at scan step `s`.
    pub fn scan_position_of(&self, s: usize) -> (r: Position)
        requires
            self.wf(),
            s < self.cells(),
        ensures
            r == self.scan_position(s as int),
            self.contains(r),
            self.scan_step(r) == s,
    {
        proof {
            lemma_scan_in_range(*self, s as int);
        }
        let q = self.position_of(s);
        Position { x: q.z, y: q.y, z: q.x }
    }
}

/// Every cell is visited by the scan, at its scan step.
pub proof fn lemma_scan_of_cell(d: Dims, p: Position)
    requires
        d.wf(),
        d.contains(p),
    ensures
        0 <= d.scan_step(p) < d.cells(),
        d.scan_position(d.scan_step(p)) == p,
{
    lemma_index_in_range(d, swap_xz(p));
    lemma_position_of_index(d, swap_xz(p));
}

/// Every scan step visits a cell of the chunk.
pub proof fn lemma_scan_in_range(d: Dims, s: int)
    requires
        d.wf(),
        0 <= s < d.cells(),
    ensures
        d.contains(d.scan_position(s)),
        d.scan_step(d.scan_position(s)) == s,
{
    lemma_position_in_range(d, s);
    assert(swap_xz(swap_xz(d.position_spec(s))) == d.position_spec(s));
}

/// Cells visited at different scan steps have different indices.
pub proof fn lemma_scan_distinct(d: Dims, s: int, t: int)
    requires
        d.wf(),
        0 <= s < d.cells(),
        0 <= t < d.cells(),
        s != t,
    ensures
        d.index_spec(d.scan_position(s)) != d.index_spec(d.scan_position(t)),
{
    lemma_scan_in_range(d, s);
    lemma_scan_in_range(d, t);
    let p = d.scan_position(s);
    let q = d.scan_position(t);
    lemma_position_of_index(d, p);
    lemma_position_of_index(d, q);
}

/// Flat index of a cell of a standard chunk.
pub fn to_index(position: &Position) -> (r: usize)
    requires
        Dims::standard_spec().contains(*position),
    ensures
        r == Dims::standard_spec().index_spec(*position),
        r < Dims::standard_spec().cells(),
{
    let d = Dims::standard();
    d.index_of(position)
}

/// Cell of a standard chunk at a flat index.
pub fn to_position(index: usize) -> (r: Position)
    requires
        index < Dims::standard_spec().cells(),
    ensures
        r == Dims::standard_spec().position_spec(index as int),
        Dims::standard_spec().contains(r),
{
    let d = Dims::standard();
    d.position_of(index)
}

impl Dims {
    pub open spec fn standard_spec() -> Dims {
        Dims { width: CHUNK_WIDTH, height: CHUNK_HEIGHT }
    }
}

} // verus!
