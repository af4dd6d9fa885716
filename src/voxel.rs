//! The cube faces: which neighbour each one looks at, the corners of its quad,
//! and the vertices and indices that a run of quads turns into.
use vstd::prelude::*;
use crate::utils::Position;

verus! {

/// One of the six faces of a unit cube.
#[derive(Clone, Copy, Debug, PartialEq, Eq, Structural)]
pub enum Face {
    Back,
    Front,
    Top,
    Bottom,
    Left,
    Right,
}

/// Number of faces of a cube.
pub const FACE_COUNT: usize = 6;

/// The faces in the order the mesher visits them.
pub open spec fn face_at(i: int) -> Face {
    if i == 0 {
        Face::Back
    } else if i == 1 {
        Face::Front
    } else if i == 2 {
        Face::Top
    } else if i == 3 {
        Face::Bottom
    } else if i == 4 {
        Face::Left
    } else {
        Face::Right
    }
}

pub open spec fn pos(x: int, y: int, z: int) -> Position {
    Position { x: x as i64, y: y as i64, z: z as i64 }
}

/// `p` moved by `d`.
pub open spec fn translate(p: Position, d: Position) -> Position {
    pos(p.x + d.x, p.y + d.y, p.z + d.z)
}

impl Face {
    pub open spec fn order(self) -> int {
        match self {
            Face::Back => 0,
            Face::Front => 1,
            Face::Top => 2,
            Face::Bottom => 3,
            Face::Left => 4,
            Face::Right => 5,
        }
    }

    /// The step from a cell to the neighbour that this face touches.
    pub open spec fn direction(self) -> Position {
        match self {
            Face::Back => pos(0, 0, -1),
            Face::Front => pos(0, 0, 1),
            Face::Top => pos(0, 1, 0),
            Face::Bottom => pos(0, -1, 0),
            Face::Left => pos(-1, 0, 0),
            Face::Right => pos(1, 0, 0),
        }
    }

    /// The corners of this face's quad, relative to the cell's origin, in
    /// counter-clockwise order seen from outside.
    pub open spec fn template(self) -> Seq<Position> {
        match self {
            Face::Back => seq![pos(0, 0, 0), pos(0, 1, 0), pos(1, 1, 0), pos(1, 0, 0)],
            Face::Front => seq![pos(1, 0, 1), pos(1, 1, 1), pos(0, 1, 1), pos(0, 0, 1)],
            Face::Top => seq![pos(1, 1, 1), pos(1, 1, 0), pos(0, 1, 0), pos(0, 1, 1)],
            Face::Bottom => seq![pos(1, 0, 0), pos(1, 0, 1), pos(0, 0, 1), pos(0, 0, 0)],
            Face::Left => seq![pos(0, 0, 1), pos(0, 1, 1), pos(0, 1, 0), pos(0, 0, 0)],
            Face::Right => seq![pos(1, 0, 0), pos(1, 1, 0), pos(1, 1, 1), pos(1, 0, 1)],
        }
    }

    /// The face visited at step `i` of a cell.
    pub fn from_index(i: usize) -> (r: Face)
        requires
            i < FACE_COUNT,
        ensures
            r == face_at(i as int),
            r.order() == i,
    {
        match i {
            0 => Face::Back,
            1 => Face::Front,
            2 => Face::Top,
            3 => Face::Bottom,
            4 => Face::Left,
            _ => Face::Right,
        }
    }

    /// The neighbour step of this face.
    pub fn offset(&self) -> (r: Position)
        ensures
            r == self.direction(),
    {
        match self {
            Face::Back => Position::new(0, 0, -1),
            Face::Front => Position::new(0, 0, 1),
            Face::Top => Position::new(0, 1, 0),
            Face::Bottom => Position::new(0, -1, 0),
            Face::Left => Position::new(-1, 0, 0),
            Face::Right => Position::new(1, 0, 0),
        }
    }
}

/// Every face is visited at the step given by its order.
pub proof fn lemma_face_at_order(f: Face)
    ensures
        face_at(f.order()) == f,
        0 <= f.order() < FACE_COUNT,
{
}

/// Template corners are corners of the unit cube.
pub proof fn lemma_template_unit(f: Face, c: int)
    requires
        0 <= c < 4,
    ensures
        0 <= f.template()[c].x <= 1,
        0 <= f.template()[c].y <= 1,
        0 <= f.template()[c].z <= 1,
{
}

/// The quad templates of the six faces of a unit cube.
pub struct Faces {
    back: [Position; 4],
    front: [Position; 4],
    top: [Position; 4],
    bottom: [Position; 4],
    left: [Position; 4],
    right: [Position; 4],
}

impl Faces {
    /// The corners that this table holds for `f`.
    pub closed spec fn corners(&self, f: Face) -> Seq<Position> {
        match f {
            Face::Back => self.back@,
            Face::Front => self.front@,
            Face::Top => self.top@,
            Face::Bottom => self.bottom@,
            Face::Left => self.left@,
            Face::Right => self.right@,
        }
    }

    /// The table of the unit cube.
    pub fn cube() -> (r: Faces)
        ensures
            forall|f: Face| #[trigger] r.corners(f) == f.template(),
    {
        let r = Faces {
            back: [Position::new(0, 0, 0), Position::new(0, 1, 0), Position::new(1, 1, 0), Position::new(1, 0, 0)],
            front: [Position::new(1, 0, 1), Position::new(1, 1, 1), Position::new(0, 1, 1), Position::new(0, 0, 1)],
            top: [Position::new(1, 1, 1), Position::new(1, 1, 0), Position::new(0, 1, 0), Position::new(0, 1, 1)],
            bottom: [Position::new(1, 0, 0), Position::new(1, 0, 1), Position::new(0, 0, 1), Position::new(0, 0, 0)],
            left: [Position::new(0, 0, 1), Position::new(0, 1, 1), Position::new(0, 1, 0), Position::new(0, 0, 0)],
            right: [Position::new(1, 0, 0), Position::new(1, 1, 0), Position::new(1, 1, 1), Position::new(1, 0, 1)],
        };
        assert(r.back@ =~= Face::Back.template());
        assert(r.front@ =~= Face::Front.template());
        assert(r.top@ =~= Face::Top.template());
        assert(r.bottom@ =~= Face::Bottom.template());
        assert(r.left@ =~= Face::Left.template());
        assert(r.right@ =~= Face::Right.template());
        r
    }

    /// The four corners of face `f`.
    pub fn quad(&self, f: Face) -> (r: &[Position; 4])
        ensures
            r@ == self.corners(f),
    {
        match f {
            Face::Back => &self.back,
            Face::Front => &self.front,
            Face::Top => &self.top,
            Face::Bottom => &self.bottom,
            Face::Left => &self.left,
            Face::Right => &self.right,
        }
    }
}

/// A mesh vertex: a lattice corner, and the face and corner of the template
/// it comes from, which fix its texture coordinates, normal and tangents.
#[derive(Clone, Copy, Debug, PartialEq, Eq, Structural)]
pub struct MeshVertex {
    pub position: Position,
    pub face: Face,
    pub corner: u8,
}

/// One emitted face: the cell it belongs to and which face of it.
#[derive(Clone, Copy, Debug, PartialEq, Eq, Structural)]
pub struct Quad {
    pub cell: Position,
    pub face: Face,
}

/// Corner `c` of quad `q`, placed at the quad's cell.
pub open spec fn corner_vertex(q: Quad, c: int) -> MeshVertex {
    MeshVertex { position: translate(q.cell, q.face.template()[c]), face: q.face, corner: c as u8 }
}

/// The four vertices of a quad.
pub open spec fn quad_vertices(q: Quad) -> Seq<MeshVertex> {
    seq![corner_vertex(q, 0), corner_vertex(q, 1), corner_vertex(q, 2), corner_vertex(q, 3)]
}

/// The vertices of a run of quads, four per quad, in order.
pub open spec fn quads_vertices(qs: Seq<Quad>) -> Seq<MeshVertex>
    decreases qs.len(),
{
    if qs.len() == 0 {
        seq![]
    } else {
        quads_vertices(qs.drop_last()) + quad_vertices(qs.last())
    }
}

/// The two counter-clockwise triangles `0,1,2` and `2,3,0` of the quad whose
/// first vertex is at `base`.
pub open spec fn quad_indices(base: int) -> Seq<u32> {
    seq![base as u32, (base + 1) as u32, (base + 2) as u32, (base + 2) as u32, (base + 3) as u32, base as u32]
}

/// The indices of `n` quads whose vertices start at `base`.
pub open spec fn quads_indices(base: int, n: nat) -> Seq<u32>
    decreases n,
{
    if n == 0 {
        seq![]
    } else {
        quads_indices(base, (n - 1) as nat) + quad_indices(base + 4 * (n - 1))
    }
}

/// Four vertices per quad.
pub proof fn lemma_quads_vertices_len(qs: Seq<Quad>)
    ensures
        quads_vertices(qs).len() == 4 * qs.len(),
    decreases qs.len(),
{
    if qs.len() > 0 {
        lemma_quads_vertices_len(qs.drop_last());
    }
}

/// The vertices of two runs are the vertices of each, one after the other.
pub proof fn lemma_quads_vertices_append(a: Seq<Quad>, b: Seq<Quad>)
    ensures
        quads_vertices(a + b) == quads_vertices(a) + quads_vertices(b),
    decreases b.len(),
{
    if b.len() == 0 {
        assert(a + b =~= a);
        assert(quads_vertices(a) + quads_vertices(b) =~= quads_vertices(a));
    } else {
        assert((a + b).drop_last() =~= a + b.drop_last());
        assert((a + b).last() == b.last());
        lemma_quads_vertices_append(a, b.drop_last());
        assert(quads_vertices(a + b) =~= quads_vertices(a) + quads_vertices(b));
    }
}

/// Six indices per quad.
pub proof fn lemma_quads_indices_len(base: int, n: nat)
    ensures
        quads_indices(base, n).len() == 6 * n,
    decreases n,
{
    if n > 0 {
        lemma_quads_indices_len(base, (n - 1) as nat);
    }
}

/// The indices of `n + k` quads are those of the first `n`, then those of the
/// next `k`, whose vertices start `4 * n` further on.
pub proof fn lemma_quads_indices_append(base: int, n: nat, k: nat)
    ensures
        quads_indices(base, n + k) == quads_indices(base, n) + quads_indices(base + 4 * n, k),
    decreases k,
{
    if k == 0 {
        assert(quads_indices(base, n) + quads_indices(base + 4 * n, 0) =~= quads_indices(base, n));
    } else {
        lemma_quads_indices_append(base, n, (k - 1) as nat);
        assert(base + 4 * (n + k - 1) == (base + 4 * n) + 4 * (k - 1));
        assert(quads_indices(base, n + k) =~= quads_indices(base, n) + quads_indices(base + 4 * n, k));
    }
}

/// Every index of `n` quads starting at `base` lies in `base .. base + 4 * n`.
pub proof fn lemma_quads_indices_bounds(base: int, n: nat)
    requires
        0 <= base,
        base + 4 * n <= u32::MAX + 1,
    ensures
        forall|j: int|
            0 <= j < quads_indices(base, n).len() ==> base <= #[trigger] quads_indices(base, n)[j] < base + 4 * n,
    decreases n,
{
    lemma_quads_indices_len(base, n);
    if n > 0 {
        let m = (n - 1) as nat;
        lemma_quads_indices_bounds(base, m);
        lemma_quads_indices_len(base, m);
        assert forall|j: int| 0 <= j < quads_indices(base, n).len() implies base <= #[trigger] quads_indices(
            base,
            n,
        )[j] < base + 4 * n by {
            if j >= 6 * m {
                assert(quads_indices(base, n)[j] == quad_indices(base + 4 * m)[j - 6 * m]);
            } else {
                assert(quads_indices(base, n)[j] == quads_indices(base, m)[j]);
            }
        }
    }
}

} // verus!
