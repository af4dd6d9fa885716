//! A chunk: terrain generation of its voxel grid and its render data.
use vstd::prelude::*;
use crate::block::{kind_of_ordinal, BlockKind};
use crate::mesh::{meshes_hold, MaterialMesh};
use crate::random::{chacha_draws, draw_below};
use crate::utils::{
    lemma_index_in_range, lemma_position_in_range, lemma_scan_distinct, lemma_scan_in_range,
    lemma_scan_of_cell, Dims, Position, CHUNK_HEIGHT, CHUNK_WIDTH,
};

verus! {

/// The seed every chunk of a scene is generated with.
pub const CHUNK_SEED: u64 = 1982;

/// The cell at height `y`, under a surface at `max_y`, takes one random draw:
/// it is solid, not the bottom layer, and in a mixed layer.
pub open spec fn draws_for(y: int, max_y: int) -> bool {
    0 < y <= max_y && ((21 <= y <= 25) || y > 63)
}

/// The range of the draw taken at height `y`: a coin in the mixed layer,
/// one of the four first solid kinds above the fixed layers.
pub open spec fn draw_bound(y: int) -> u32 {
    if y <= 25 {
        2
    } else {
        4
    }
}

/// The block at height `y` under a surface at `max_y`, given the cell's draw.
pub open spec fn layer_block(y: int, max_y: int, draw: u32) -> BlockKind {
    if y == 0 {
        BlockKind::Stone
    } else if y > max_y {
        BlockKind::Air
    } else if y <= 20 {
        BlockKind::Andesite
    } else if y <= 25 {
        if draw == 0 {
            BlockKind::Andesite
        } else {
            BlockKind::Dirt
        }
    } else if y <= 54 {
        BlockKind::Dirt
    } else if y <= 63 {
        BlockKind::Grass
    } else {
        kind_of_ordinal(1 + draw)
    }
}

/// The ranges of the draws taken by the first `n` cells of the scan (up the
/// layers, then along x, with z innermost), in scan order.
pub open spec fn draw_bounds(d: Dims, surface: Seq<usize>, n: nat) -> Seq<u32>
    decreases n,
{
    if n == 0 {
        seq![]
    } else {
        let p = d.scan_position(n - 1);
        let y = p.y as int;
        draw_bounds(d, surface, (n - 1) as nat) + if draws_for(y, surface[d.index_spec(p)] as int) {
            seq![draw_bound(y)]
        } else {
            seq![]
        }
    }
}

/// The grid laid out from the sampled surface height of each cell and a run
/// of draws: cell `i` gets its layer's block, with the draw that follows
/// those of the cells visited before it in the scan.
pub open spec fn layered_blocks(d: Dims, surface: Seq<usize>, draws: Seq<u32>) -> Seq<BlockKind> {
    Seq::new(
        d.cells() as nat,
        |i: int|
            layer_block(
                d.position_spec(i).y as int,
                surface[i] as int,
                draws[draw_bounds(d, surface, d.scan_step(d.position_spec(i)) as nat).len() as int],
            ),
    )
}

/// The grid generated from `seed` and the sampled surface: the layout with
/// the draws of the stream seeded from `seed`.
pub open spec fn generated_blocks(d: Dims, seed: u64, surface: Seq<usize>) -> Seq<BlockKind> {
    layered_blocks(d, surface, chacha_draws(seed, draw_bounds(d, surface, d.cells() as nat)))
}

/// A cell that takes no draw does not depend on it.
proof fn lemma_layer_without_draw(y: int, max_y: int, a: u32, b: u32)
    requires
        0 <= y,
        !draws_for(y, max_y),
    ensures
        layer_block(y, max_y, a) == layer_block(y, max_y, b),
{
}

/// The draws of fewer cells are a prefix of those of more cells.
proof fn lemma_draw_bounds_prefix(d: Dims, surface: Seq<usize>, n: nat, m: nat)
    requires
        n <= m,
    ensures
        draw_bounds(d, surface, n).len() <= draw_bounds(d, surface, m).len(),
        forall|j: int|
            0 <= j < draw_bounds(d, surface, n).len() ==> #[trigger] draw_bounds(d, surface, m)[j]
                == draw_bounds(d, surface, n)[j],
    decreases m - n,
{
    if n < m {
        lemma_draw_bounds_prefix(d, surface, n, (m - 1) as nat);
    }
}

/// Every draw has a positive range.
proof fn lemma_draw_bounds_positive(d: Dims, surface: Seq<usize>, n: nat)
    ensures
        forall|j: int|
            0 <= j < draw_bounds(d, surface, n).len() ==> #[trigger] draw_bounds(d, surface, n)[j] > 0,
        draw_bounds(d, surface, n).len() <= n,
    decreases n,
{
    if n > 0 {
        lemma_draw_bounds_positive(d, surface, (n - 1) as nat);
    }
}

/// The block of one cell, for a draw below the cell's range.
fn layer(y: usize, max_y: usize, draw: u32) -> (r: BlockKind)
    requires
        draws_for(y as int, max_y as int) ==> draw < draw_bound(y as int),
    ensures
        r == layer_block(y as int, max_y as int, draw),
{
    if y == 0 {
        BlockKind::Stone
    } else if y > max_y {
        BlockKind::Air
    } else if y <= 20 {
        BlockKind::Andesite
    } else if y <= 25 {
        if draw == 0 {
            BlockKind::Andesite
        } else {
            BlockKind::Dirt
        }
    } else if y <= 54 {
        BlockKind::Dirt
    } else if y <= 63 {
        BlockKind::Grass
    } else {
        BlockKind::from_ordinal(1 + draw as u16)
    }
}

/// A chunk placed in the world, with the meshes of its materials and the
/// number of instances of it to draw.
#[derive(Clone, Debug)]
pub struct Chunk {
    pub position: Position,
    pub meshes: Vec<MaterialMesh>,
    pub instance_num: u32,
}

impl Chunk {
    /// Side of the square base of a chunk.
    pub const WIDTH: usize = CHUNK_WIDTH;

    /// Height of a chunk.
    pub const HEIGHT: usize = CHUNK_HEIGHT;

    /// The ranges of the draws that the cells of a chunk take, in scan order:
    /// 2 for a solid cell of a mixed layer, 4 for one above the fixed layers.
    pub fn layer_draws(d: &Dims, surface: &Vec<usize>) -> (r: Vec<u32>)
        requires
            d.wf(),
            surface@.len() == d.cells(),
        ensures
            r@ == draw_bounds(*d, surface@, d.cells() as nat),
    {
        let n = d.volume();
        let mut bounds: Vec<u32> = Vec::new();
        for s in 0..n
            invariant
                n == d.cells(),
                d.wf(),
                surface@.len() == d.cells(),
                bounds@ == draw_bounds(*d, surface@, s as nat),
        {
            let p = d.scan_position_of(s);
            let y = p.y as usize;
            let max_y = surface[d.index_of(&p)];
            if 0 < y && y <= max_y && ((21 <= y && y <= 25) || y > 63) {
                let b: u32 = if y <= 25 {
                    2
                } else {
                    4
                };
                bounds.push(b);
            }
            proof {
                assert(draw_bounds(*d, surface@, (s + 1) as nat) =~= bounds@);
            }
        }
        bounds
    }

    /// Lays out a chunk's grid from the surface height sampled at each cell
    /// (`surface[i]` for cell `i`) and one draw per cell that takes one, in
    /// scan order. The bottom layer is solid, cells above their surface are
    /// empty, and the others get the block of their layer; a cell of a mixed
    /// layer takes the next draw.
    pub fn fill_layers(d: &Dims, surface: &Vec<usize>, draws: &Vec<u32>) -> (r: Vec<BlockKind>)
        requires
            d.wf(),
            surface@.len() == d.cells(),
            draws@.len() == draw_bounds(*d, surface@, d.cells() as nat).len(),
            forall|j: int|
                0 <= j < draws@.len() ==> draws@[j] < #[trigger] draw_bounds(*d, surface@, d.cells() as nat)[j],
        ensures
            r@ == layered_blocks(*d, surface@, draws@),
    {
        let n = d.volume();
        let ghost all = draw_bounds(*d, surface@, n as nat);
        let mut blocks: Vec<BlockKind> = Vec::new();
        for i in 0..n
            invariant
                blocks@.len() == i,
        {
            blocks.push(BlockKind::Air);
        }
        let mut k: usize = 0;
        for s in 0..n
            invariant
                n == d.cells(),
                d.wf(),
                surface@.len() == d.cells(),
                all == draw_bounds(*d, surface@, n as nat),
                draws@.len() == all.len(),
                forall|j: int| 0 <= j < draws@.len() ==> draws@[j] < #[trigger] all[j],
                k == draw_bounds(*d, surface@, s as nat).len(),
                blocks@.len() == n,
                forall|t: int|
                    0 <= t < s ==> #[trigger] blocks@[d.index_spec(d.scan_position(t))] == layer_block(
                        d.scan_position(t).y as int,
                        surface@[d.index_spec(d.scan_position(t))] as int,
                        draws@[draw_bounds(*d, surface@, t as nat).len() as int],
                    ),
        {
            let p = d.scan_position_of(s);
            let i = d.index_of(&p);
            let y = p.y as usize;
            let max_y = surface[i];
            let ghost yi = p.y as int;
            proof {
                lemma_draw_bounds_prefix(*d, surface@, (s + 1) as nat, n as nat);
                lemma_draw_bounds_prefix(*d, surface@, s as nat, (s + 1) as nat);
                lemma_draw_bounds_positive(*d, surface@, s as nat);
            }
            let takes = 0 < y && y <= max_y && ((21 <= y && y <= 25) || y > 63);
            let block = if takes {
                let draw = draws[k];
                proof {
                    assert(draws_for(yi, max_y as int));
                    assert(draw_bounds(*d, surface@, (s + 1) as nat) == draw_bounds(*d, surface@, s as nat)
                        + seq![draw_bound(yi)]);
                    assert(draw_bounds(*d, surface@, (s + 1) as nat)[k as int] == draw_bound(yi));
                    assert(all[k as int] == draw_bound(yi));
                }
                k = k + 1;
                layer(y, max_y, draw)
            } else {
                let b = layer(y, max_y, 0);
                proof {
                    lemma_layer_without_draw(yi, max_y as int, 0, draws@[k as int]);
                    assert(draw_bounds(*d, surface@, (s + 1) as nat) =~= draw_bounds(*d, surface@, s as nat));
                }
                b
            };
            let ghost before = blocks@;
            blocks[i] = block;
            proof {
                assert forall|t: int| 0 <= t < s + 1 implies #[trigger] blocks@[d.index_spec(d.scan_position(t))]
                    == layer_block(
                    d.scan_position(t).y as int,
                    surface@[d.index_spec(d.scan_position(t))] as int,
                    draws@[draw_bounds(*d, surface@, t as nat).len() as int],
                ) by {
                    if t < s {
                        lemma_scan_distinct(*d, t, s as int);
                        lemma_scan_in_range(*d, t);
                        lemma_index_in_range(*d, d.scan_position(t));
                        assert(blocks@[d.index_spec(d.scan_position(t))] == before[d.index_spec(
                            d.scan_position(t),
                        )]);
                    }
                }
            }
        }
        proof {
            assert forall|i: int| 0 <= i < n implies blocks@[i] == #[trigger] layered_blocks(
                *d,
                surface@,
                draws@,
            )[i] by {
                let p = d.position_spec(i);
                lemma_position_in_range(*d, i);
                lemma_scan_of_cell(*d, p);
                let t = d.scan_step(p);
                assert(blocks@[d.index_spec(d.scan_position(t))] == layer_block(
                    d.scan_position(t).y as int,
                    surface@[d.index_spec(d.scan_position(t))] as int,
                    draws@[draw_bounds(*d, surface@, t as nat).len() as int],
                ));
            }
        }
        assert(blocks@ =~= layered_blocks(*d, surface@, draws@));
        blocks
    }

    /// Fills a chunk's grid from `seed` and the surface height sampled at
    /// each cell: the layout of `fill_layers`, with the draws of the stream
    /// seeded from `seed`.
    pub fn generate(seed: u64, d: &Dims, surface: &Vec<usize>) -> (r: Vec<BlockKind>)
        requires
            d.wf(),
            surface@.len() == d.cells(),
        ensures
            r@ == generated_blocks(*d, seed, surface@),
    {
        let bounds = Chunk::layer_draws(d, surface);
        proof {
            lemma_draw_bounds_positive(*d, surface@, d.cells() as nat);
        }
        let draws = draw_below(seed, &bounds);
        Chunk::fill_layers(d, surface, &draws)
    }

    /// The chunk at `position`: its grid generated from `CHUNK_SEED` and the
    /// surface sampled around it, meshed, and drawn as one instance.
    pub fn new(position: Position, surface: &Vec<usize>) -> (r: Chunk)
        requires
            surface@.len() == Dims::standard_spec().cells(),
        ensures
            r.position == position,
            r.instance_num == 1,
            meshes_hold(
                r.meshes@,
                Dims::standard_spec(),
                generated_blocks(Dims::standard_spec(), CHUNK_SEED, surface@),
            ),
    {
        let d = Dims::standard();
        let blocks = Chunk::generate(CHUNK_SEED, &d, surface);
        let meshes = Chunk::build_meshes(&d, &blocks);
        Chunk { position, meshes, instance_num: 1 }
    }
}

/// Generation is deterministic: two grids generated from the same seed and
/// the same surface are identical, cell for cell.
pub proof fn lemma_generation_deterministic(
    d: Dims,
    seed: u64,
    surface: Seq<usize>,
    first: Seq<BlockKind>,
    second: Seq<BlockKind>,
)
    requires
        first == generated_blocks(d, seed, surface),
        second == generated_blocks(d, seed, surface),
    ensures
        first == second,
        first.len() == d.cells(),
{
}

} // verus!
