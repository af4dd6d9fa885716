//! The world: a square of chunks generated from one seed, stored as one flat
//! sequence of blocks.
use vstd::prelude::*;
use crate::block::{kind_of_ordinal, BlockKind, BLOCK_KIND_COUNT};
use crate::chunk::{generated_blocks, Chunk};
use vstd::arithmetic::div_mod::{lemma_fundamental_div_mod, lemma_mod_pos_bound};
use crate::utils::{lemma_dims_bounds, Dims, Position, CHUNK_HEIGHT, CHUNK_WIDTH};

verus! {

/// The blocks of the first `n` chunks of a world, one chunk after another,
/// chunk `k` generated from `seed` and `surfaces[k]`.
pub open spec fn world_blocks(d: Dims, seed: u64, surfaces: Seq<Vec<usize>>, n: nat) -> Seq<BlockKind>
    decreases n,
{
    if n == 0 {
        seq![]
    } else {
        world_blocks(d, seed, surfaces, (n - 1) as nat) + generated_blocks(d, seed, surfaces[n - 1]@)
    }
}

/// The ordinals of a sequence of blocks.
pub open spec fn ordinals_of(blocks: Seq<BlockKind>) -> Seq<u16> {
    blocks.map_values(|b: BlockKind| b.ordinal() as u16)
}

/// The blocks that a sequence of ordinals decodes to.
pub open spec fn kinds_of(ordinals: Seq<u16>) -> Seq<BlockKind> {
    ordinals.map_values(|n: u16| kind_of_ordinal(n as int))
}

/// The world offset of chunk `k` of a world of `size` by `size` chunks:
/// chunks go in rows along x, each row along z.
pub open spec fn chunk_offset_spec(d: Dims, size: int, k: int) -> Position {
    Position { x: ((k / size) * d.width) as i64, y: 0, z: ((k % size) * d.width) as i64 }
}

/// The chunks of a world, flattened in chunk order and, inside each chunk,
/// by the cell indexing rule.
#[derive(Clone, Debug)]
pub struct World {
    chunks: Vec<BlockKind>,
}

impl View for World {
    type V = Seq<BlockKind>;

    closed spec fn view(&self) -> Seq<BlockKind> {
        self.chunks@
    }
}

impl World {
    /// A world has `SIZE` by `SIZE` chunks.
    pub const SIZE: usize = 10;

    /// A chunk has a square base of `CHUNK_WIDTH` by `CHUNK_WIDTH`.
    pub const CHUNK_WIDTH: usize = CHUNK_WIDTH;

    /// Height of a chunk.
    pub const CHUNK_HEIGHT: usize = CHUNK_HEIGHT;

    /// Number of blocks in a world.
    pub const WORLD_SIZE: usize = 10 * 10 * CHUNK_WIDTH * CHUNK_WIDTH * CHUNK_HEIGHT;

    /// Where chunk `k` of a `size` by `size` world lies: chunk `k` is in row
    /// `k / size` along x and column `k % size` along z.
    pub fn chunk_offset(d: &Dims, size: usize, k: usize) -> (r: Position)
        requires
            d.wf(),
            0 < size,
            k < size * size,
            size * size * d.width <= i64::MAX,
        ensures
            r == chunk_offset_spec(*d, size as int, k as int),
    {
        let ghost q = k as int / size as int;
        let ghost m = k as int % size as int;
        proof {
            lemma_fundamental_div_mod(k as int, size as int);
            lemma_mod_pos_bound(k as int, size as int);
            assert(q <= k) by (nonlinear_arith)
                requires
                    k == size * q + m,
                    0 <= m,
                    0 < size,
            ;
            assert(0 <= q) by (nonlinear_arith)
                requires
                    k == size * q + m,
                    m < size,
                    0 <= k,
                    0 < size,
            ;
            assert(q * d.width <= size * size * d.width) by (nonlinear_arith)
                requires
                    0 <= q <= k,
                    k < size * size,
            ;
            assert(m * d.width <= size * size * d.width) by (nonlinear_arith)
                requires
                    0 <= m < size,
                    0 < size,
            ;
        }
        let row = k / size;
        let column = k % size;
        assert(row as int == q && column as int == m);
        assert(row * d.width <= i64::MAX);
        assert(column * d.width <= i64::MAX);
        assert(row <= row * d.width && column <= column * d.width) by (nonlinear_arith)
            requires
                1 <= d.width,
        ;
        proof {
            lemma_dims_bounds(*d);
        }
        let w = d.width as i64;
        let x = row as i64;
        let z = column as i64;
        assert(x * w == row * d.width);
        assert(z * w == column * d.width);
        Position::new(x * w, 0, z * w)
    }

    /// A world of `size` by `size` chunks of shape `d`: chunk `k` is generated
    /// from `seed` and `surfaces[k]`, the surface sampled around
    /// `chunk_offset(d, size, k)`, and the chunks are laid one after another.
    pub fn generate_sized(seed: u64, size: usize, d: &Dims, surfaces: &Vec<Vec<usize>>) -> (r: World)
        requires
            d.wf(),
            surfaces@.len() == size * size,
            forall|k: int| 0 <= k < surfaces@.len() ==> #[trigger] surfaces@[k]@.len() == d.cells(),
            size * size * d.cells() <= usize::MAX,
        ensures
            r@ == world_blocks(*d, seed, surfaces@, (size * size) as nat),
            r@.len() == size * size * d.cells(),
    {
        proof {
            lemma_dims_bounds(*d);
            assert(size * size <= size * size * d.cells()) by (nonlinear_arith)
                requires
                    1 <= d.cells(),
            ;
        }
        let count = size * size;
        let mut chunks: Vec<BlockKind> = Vec::new();
        for k in 0..count
            invariant
                count == size * size,
                d.wf(),
                surfaces@.len() == count,
                forall|k: int| 0 <= k < surfaces@.len() ==> #[trigger] surfaces@[k]@.len() == d.cells(),
                chunks@ == world_blocks(*d, seed, surfaces@, k as nat),
                chunks@.len() == k * d.cells(),
        {
            let mut blocks = Chunk::generate(seed, d, &surfaces[k]);
            chunks.append(&mut blocks);
            assert((k + 1) * d.cells() == k * d.cells() + d.cells()) by (nonlinear_arith);
        }
        World { chunks }
    }

    /// The standard world: `SIZE` by `SIZE` standard chunks.
    pub fn generate(seed: u64, surfaces: &Vec<Vec<usize>>) -> (r: World)
        requires
            surfaces@.len() == World::SIZE * World::SIZE,
            forall|k: int|
                0 <= k < surfaces@.len() ==> #[trigger] surfaces@[k]@.len() == Dims::standard_spec().cells(),
        ensures
            r@ == world_blocks(Dims::standard_spec(), seed, surfaces@, (World::SIZE * World::SIZE) as nat),
    {
        let d = Dims::standard();
        World::generate_sized(seed, World::SIZE, &d, surfaces)
    }

    /// The blocks of the world.
    pub fn chunks(&self) -> (r: &Vec<BlockKind>)
        ensures
            r@ == self@,
    {
        &self.chunks
    }

    /// The world as one ordinal per block, in storage order.
    pub fn ordinals(&self) -> (r: Vec<u16>)
        ensures
            r@ == ordinals_of(self@),
    {
        let mut r: Vec<u16> = Vec::new();
        for i in 0..self.chunks.len()
            invariant
                r@ == ordinals_of(self@.take(i as int)),
        {
            r.push(self.chunks[i].to_ordinal());
            assert(self@.take(i + 1) =~= self@.take(i as int).push(self@[i as int]));
            assert(ordinals_of(self@.take(i + 1)) =~= r@);
        }
        assert(self@.take(self@.len() as int) =~= self@);
        r
    }

    /// The world stored as ordinals; an unknown ordinal is read as `Air`.
    pub fn from_ordinals(ordinals: &Vec<u16>) -> (r: World)
        ensures
            r@ == kinds_of(ordinals@),
    {
        let mut chunks: Vec<BlockKind> = Vec::new();
        for i in 0..ordinals.len()
            invariant
                chunks@ == kinds_of(ordinals@.take(i as int)),
        {
            chunks.push(BlockKind::from_ordinal(ordinals[i]));
            assert(ordinals@.take(i + 1) =~= ordinals@.take(i as int).push(ordinals@[i as int]));
            assert(kinds_of(ordinals@.take(i + 1)) =~= chunks@);
        }
        assert(ordinals@.take(ordinals@.len() as int) =~= ordinals@);
        World { chunks }
    }

    /// Reads a saved standard world: `None` when the length is not
    /// `WORLD_SIZE` or an ordinal names no block kind, else the world the
    /// ordinals encode.
    pub fn decode(ordinals: &Vec<u16>) -> (r: Option<World>)
        ensures
            r.is_some() <==> (ordinals@.len() == World::WORLD_SIZE && forall|j: int|
                0 <= j < ordinals@.len() ==> (#[trigger] ordinals@[j] as int) < BLOCK_KIND_COUNT),
            r matches Some(w) ==> w@ == kinds_of(ordinals@),
    {
        if ordinals.len() != World::WORLD_SIZE {
            return None;
        }
        for i in 0..ordinals.len()
            invariant
                forall|j: int| 0 <= j < i ==> (#[trigger] ordinals@[j] as int) < BLOCK_KIND_COUNT,
        {
            if ordinals[i] as usize >= BLOCK_KIND_COUNT {
                return None;
            }
        }
        Some(World::from_ordinals(ordinals))
    }
}

/// Reading back the ordinals of a world gives the same world.
pub proof fn lemma_ordinals_round_trip(blocks: Seq<BlockKind>)
    ensures
        kinds_of(ordinals_of(blocks)) == blocks,
{
    assert(kinds_of(ordinals_of(blocks)) =~= blocks);
}

} // verus!
