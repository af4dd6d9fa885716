//! Face-culled meshing of a chunk's voxel grid, one vertex and index list per
//! material.
use vstd::prelude::*;
use crate::block::BlockKind;
use crate::chunk::Chunk;
use crate::utils::{
    lemma_dims_bounds, lemma_scan_in_range, lemma_scan_of_cell, Dims, Position, MAX_VOLUME,
};
use crate::voxel::{
    face_at, lemma_quads_indices_append, lemma_quads_indices_len, lemma_quads_vertices_append,
    lemma_quads_vertices_len, lemma_template_unit, lemma_face_at_order, lemma_quads_indices_bounds, corner_vertex, quad_indices, quad_vertices, quads_indices, quads_vertices,
    translate, Face, Faces, MeshVertex, Quad, FACE_COUNT,
};

verus! {

/// Number of materials that get geometry: one per solid block kind.
pub const MATERIAL_COUNT: usize = 6;

/// The cell `p` is inside the chunk and holds a solid block.
pub open spec fn solid_at(d: Dims, blocks: Seq<BlockKind>, p: Position) -> bool {
    d.contains(p) && blocks[d.index_spec(p)].is_solid()
}

/// Face `f` of cell `p` is drawn: the neighbour it touches is outside the
/// chunk or empty.
pub open spec fn face_visible(d: Dims, blocks: Seq<BlockKind>, p: Position, f: Face) -> bool {
    !solid_at(d, blocks, translate(p, f.direction()))
}

/// The drawn faces of cell `p` among the first `n` faces, in visiting order.
pub open spec fn voxel_quads(d: Dims, blocks: Seq<BlockKind>, p: Position, n: nat) -> Seq<Quad>
    decreases n,
{
    if n == 0 {
        seq![]
    } else {
        let f = face_at(n - 1);
        voxel_quads(d, blocks, p, (n - 1) as nat) + if face_visible(d, blocks, p, f) {
            seq![Quad { cell: p, face: f }]
        } else {
            seq![]
        }
    }
}

/// The drawn faces of the solid cells of material `m` among the first `n`
/// cells of the scan (up the layers, then along x, with z innermost), in
/// scan order.
pub open spec fn material_quads(d: Dims, blocks: Seq<BlockKind>, m: int, n: nat) -> Seq<Quad>
    decreases n,
{
    if n == 0 {
        seq![]
    } else {
        let p = d.scan_position(n - 1);
        let b = blocks[d.index_spec(p)];
        material_quads(d, blocks, m, (n - 1) as nat) + if b.is_solid() && b.material() == m {
            voxel_quads(d, blocks, p, FACE_COUNT as nat)
        } else {
            seq![]
        }
    }
}

/// All drawn faces of material `m` in the chunk.
pub open spec fn chunk_quads(d: Dims, blocks: Seq<BlockKind>, m: int) -> Seq<Quad> {
    material_quads(d, blocks, m, d.cells() as nat)
}

/// The materials below `n` that have at least one drawn face, ascending.
pub open spec fn present_materials(d: Dims, blocks: Seq<BlockKind>, n: nat) -> Seq<int>
    decreases n,
{
    if n == 0 {
        seq![]
    } else {
        present_materials(d, blocks, (n - 1) as nat) + if chunk_quads(d, blocks, n - 1).len() > 0 {
            seq![n - 1]
        } else {
            seq![]
        }
    }
}

/// The geometry of one material: its vertices, and the indices of the
/// triangles that join them.
#[derive(Clone, Debug)]
pub struct MaterialMesh {
    pub material: usize,
    pub vertices: Vec<MeshVertex>,
    pub indices: Vec<u32>,
}

impl MaterialMesh {
    /// The mesh holds exactly the drawn faces of material `m`.
    pub open spec fn holds(&self, d: Dims, blocks: Seq<BlockKind>, m: int) -> bool {
        &&& self.material == m
        &&& self.vertices@ == quads_vertices(chunk_quads(d, blocks, m))
        &&& self.indices@ == quads_indices(0, chunk_quads(d, blocks, m).len())
    }

    /// Number of triangles.
    pub fn triangle_count(&self) -> (r: usize)
        ensures
            r == self.indices@.len() / 3,
    {
        self.indices.len() / 3
    }
}

/// The meshes of the materials with drawn faces, in ascending material order.
pub open spec fn meshes_hold(meshes: Seq<MaterialMesh>, d: Dims, blocks: Seq<BlockKind>) -> bool {
    let present = present_materials(d, blocks, MATERIAL_COUNT as nat);
    &&& meshes.len() == present.len()
    &&& forall|j: int| 0 <= j < meshes.len() ==> #[trigger] meshes[j].holds(d, blocks, present[j])
}

/// At most one quad per face visited.
proof fn lemma_voxel_quads_len(d: Dims, blocks: Seq<BlockKind>, p: Position, n: nat)
    ensures
        voxel_quads(d, blocks, p, n).len() <= n,
    decreases n,
{
    if n > 0 {
        lemma_voxel_quads_len(d, blocks, p, (n - 1) as nat);
    }
}

/// At most six quads per cell visited.
proof fn lemma_material_quads_len(d: Dims, blocks: Seq<BlockKind>, m: int, n: nat)
    ensures
        material_quads(d, blocks, m, n).len() <= 6 * n,
    decreases n,
{
    if n > 0 {
        lemma_material_quads_len(d, blocks, m, (n - 1) as nat);
        lemma_voxel_quads_len(d, blocks, d.scan_position(n - 1), FACE_COUNT as nat);
    }
}

impl Chunk {
    /// Whether the cell at `pos` is inside the chunk and solid, so that it hides
    /// the face of its neighbour that touches it.
    pub fn check_voxel(d: &Dims, pos: &Position, blocks: &Vec<BlockKind>) -> (r: bool)
        requires
            d.wf(),
            blocks@.len() == d.cells(),
        ensures
            r == solid_at(*d, blocks@, *pos),
    {
        proof {
            lemma_dims_bounds(*d);
        }
        if pos.x < 0 || pos.y < 0 || pos.z < 0 {
            return false;
        }
        if pos.x >= d.width as i64 || pos.y >= d.height as i64 || pos.z >= d.width as i64 {
            return false;
        }
        let i = d.index_of(pos);
        blocks[i].is_solid_block()
    }

    /// Appends the four vertices of face `face` of the cell at `position`, and
    /// the indices of its two triangles counted from the length that `vertices`
    /// had just before.
    fn push_quad(
        d: &Dims,
        corners: &[Position; 4],
        position: &Position,
        face: Face,
        vertices: &mut Vec<MeshVertex>,
        indices: &mut Vec<u32>,
    )
        requires
            d.wf(),
            d.contains(*position),
            corners@ == face.template(),
            old(vertices)@.len() + 4 <= u32::MAX + 1,
        ensures
            final(vertices)@ == old(vertices)@ + quad_vertices(Quad { cell: *position, face }),
            final(indices)@ == old(indices)@ + quad_indices(old(vertices)@.len() as int),
    {
        proof {
            lemma_dims_bounds(*d);
        }
        let ghost v0 = vertices@;
        let ghost q = Quad { cell: *position, face };
        let first = vertices.len() as u32;
        let mut c: usize = 0;
        while c < 4
            invariant
                0 <= c <= 4,
                d.wf(),
                d.width <= MAX_VOLUME,
                d.height <= MAX_VOLUME,
                d.contains(*position),
                corners@ == face.template(),
                q == (Quad { cell: *position, face }),
                vertices@ == v0 + quad_vertices(q).take(c as int),
            decreases 4 - c,
        {
            let o = corners[c];
            proof {
                lemma_template_unit(face, c as int);
            }
            let v = MeshVertex {
                position: Position::new(position.x + o.x, position.y + o.y, position.z + o.z),
                face,
                corner: c as u8,
            };
            assert(v == corner_vertex(q, c as int));
            vertices.push(v);
            assert(quad_vertices(q).take(c + 1) =~= quad_vertices(q).take(c as int).push(v));
            c = c + 1;
        }
        assert(quad_vertices(q).take(4) =~= quad_vertices(q));
        indices.push(first);
        indices.push(first + 1);
        indices.push(first + 2);
        indices.push(first + 2);
        indices.push(first + 3);
        indices.push(first);
        assert(indices@ =~= old(indices)@ + quad_indices(v0.len() as int));
    }

    /// Appends the drawn faces of the cell at `position`: four vertices each,
    /// and the six indices of its two triangles counted from the length that
    /// `vertices` had just before.
    pub fn add_voxel_to_chunk(
        d: &Dims,
        faces: &Faces,
        position: &Position,
        blocks: &Vec<BlockKind>,
        vertices: &mut Vec<MeshVertex>,
        indices: &mut Vec<u32>,
    )
        requires
            d.wf(),
            blocks@.len() == d.cells(),
            d.contains(*position),
            forall|f: Face| #[trigger] faces.corners(f) == f.template(),
            old(vertices)@.len() + 4 * FACE_COUNT <= u32::MAX + 1,
        ensures
            final(vertices)@ == old(vertices)@ + quads_vertices(
                voxel_quads(*d, blocks@, *position, FACE_COUNT as nat),
            ),
            final(indices)@ == old(indices)@ + quads_indices(
                old(vertices)@.len() as int,
                voxel_quads(*d, blocks@, *position, FACE_COUNT as nat).len(),
            ),
    {
        let ghost v0 = vertices@;
        let ghost i0 = indices@;
        let ghost base = vertices@.len() as int;
        let ghost p = *position;
        proof {
            lemma_dims_bounds(*d);
        }
        for fi in 0..FACE_COUNT
            invariant
                d.wf(),
                blocks@.len() == d.cells(),
                d.width <= MAX_VOLUME,
                d.height <= MAX_VOLUME,
                d.contains(p),
                p == *position,
                base == v0.len(),
                base + 4 * FACE_COUNT <= u32::MAX + 1,
                forall|f: Face| #[trigger] faces.corners(f) == f.template(),
                voxel_quads(*d, blocks@, p, fi as nat).len() <= fi,
                vertices@ == v0 + quads_vertices(voxel_quads(*d, blocks@, p, fi as nat)),
                indices@ == i0 + quads_indices(base, voxel_quads(*d, blocks@, p, fi as nat).len()),
        {
            let ghost vq = voxel_quads(*d, blocks@, p, fi as nat);
            proof {
                lemma_quads_vertices_len(vq);
            }
            let face = Face::from_index(fi);
            let step = face.offset();
            let neighbour = Position::new(position.x + step.x, position.y + step.y, position.z + step.z);
            if !Chunk::check_voxel(d, &neighbour, blocks) {
                let ghost q = Quad { cell: p, face };
                Chunk::push_quad(d, faces.quad(face), position, face, vertices, indices);
                proof {
                    let vq1 = voxel_quads(*d, blocks@, p, (fi + 1) as nat);
                    assert(face_at(fi as int) == face);
                    assert(vq1 == vq + seq![q]);
                    assert(vq1.drop_last() =~= vq);
                    assert(vertices@ =~= v0 + quads_vertices(vq1));
                    assert(indices@ =~= i0 + quads_indices(base, vq1.len()));
                }
            } else {
                proof {
                    let vq1 = voxel_quads(*d, blocks@, p, (fi + 1) as nat);
                    assert(face_at(fi as int) == face);
                    assert(vq1 =~= vq);
                }
            }
        }
    }

    /// The mesh of material `m`: the drawn faces of every cell of that material,
    /// taken in scan order (up the layers, then along x, with z innermost).
    pub fn material_mesh(d: &Dims, faces: &Faces, blocks: &Vec<BlockKind>, m: usize) -> (r: MaterialMesh)
        requires
            d.wf(),
            blocks@.len() == d.cells(),
            forall|f: Face| #[trigger] faces.corners(f) == f.template(),
        ensures
            r.holds(*d, blocks@, m as int),
    {
        let mut vertices: Vec<MeshVertex> = Vec::new();
        let mut indices: Vec<u32> = Vec::new();
        let n = d.volume();
        proof {
            lemma_dims_bounds(*d);
        }
        for i in 0..n
            invariant
                n == d.cells(),
                n <= MAX_VOLUME,
                d.wf(),
                blocks@.len() == d.cells(),
                forall|f: Face| #[trigger] faces.corners(f) == f.template(),
                vertices@ == quads_vertices(material_quads(*d, blocks@, m as int, i as nat)),
                indices@ == quads_indices(0, material_quads(*d, blocks@, m as int, i as nat).len()),
        {
            let ghost mq = material_quads(*d, blocks@, m as int, i as nat);
            proof {
                lemma_material_quads_len(*d, blocks@, m as int, i as nat);
                lemma_quads_vertices_len(mq);
            }
            let p = d.scan_position_of(i);
            let block = blocks[d.index_of(&p)];
            let matches_material = block.is_solid_block() && block.to_ordinal() as usize - 1 == m;
            if matches_material {
                let ghost vq = voxel_quads(*d, blocks@, p, FACE_COUNT as nat);
                Chunk::add_voxel_to_chunk(d, faces, &p, blocks, &mut vertices, &mut indices);
                proof {
                    lemma_quads_vertices_append(mq, vq);
                    lemma_quads_indices_append(0, mq.len(), vq.len());
                    assert(material_quads(*d, blocks@, m as int, (i + 1) as nat) == mq + vq);
                }
            } else {
                proof {
                    assert(material_quads(*d, blocks@, m as int, (i + 1) as nat) =~= mq);
                }
            }
        }
        MaterialMesh { material: m, vertices, indices }
    }

    /// The meshes of a chunk: one per material that has a drawn face, in
    /// ascending material order; materials without faces get none.
    pub fn build_meshes(d: &Dims, blocks: &Vec<BlockKind>) -> (r: Vec<MaterialMesh>)
        requires
            d.wf(),
            blocks@.len() == d.cells(),
        ensures
            meshes_hold(r@, *d, blocks@),
    {
        let faces = Faces::cube();
        let mut meshes: Vec<MaterialMesh> = Vec::new();
        let mut m: usize = 0;
        while m < MATERIAL_COUNT
            invariant
                m <= MATERIAL_COUNT,
                d.wf(),
                blocks@.len() == d.cells(),
                forall|f: Face| #[trigger] faces.corners(f) == f.template(),
                meshes@.len() == present_materials(*d, blocks@, m as nat).len(),
                forall|j: int|
                    0 <= j < meshes@.len() ==> #[trigger] meshes@[j].holds(
                        *d,
                        blocks@,
                        present_materials(*d, blocks@, m as nat)[j],
                    ),
            decreases MATERIAL_COUNT - m,
        {
            let mesh = Chunk::material_mesh(d, &faces, blocks, m);
            proof {
                lemma_quads_indices_len(0, chunk_quads(*d, blocks@, m as int).len());
            }
            let ghost old_meshes = meshes@;
            let ghost pm = present_materials(*d, blocks@, m as nat);
            if mesh.indices.len() > 0 {
                meshes.push(mesh);
                proof {
                    let pm1 = present_materials(*d, blocks@, (m + 1) as nat);
                    assert(pm1 == pm + seq![m as int]);
                    assert forall|j: int| 0 <= j < meshes@.len() implies #[trigger] meshes@[j].holds(
                        *d,
                        blocks@,
                        pm1[j],
                    ) by {
                        if j < old_meshes.len() {
                            assert(meshes@[j] == old_meshes[j]);
                            assert(pm1[j] == pm[j]);
                            assert(old_meshes[j].holds(*d, blocks@, pm[j]));
                        } else {
                            assert(j == old_meshes.len());
                            assert(meshes@[j] == mesh);
                            assert(pm1[j] == m as int);
                        }
                    }
                }
            } else {
                proof {
                    let pm1 = present_materials(*d, blocks@, (m + 1) as nat);
                    assert(pm1 =~= pm);
                    assert forall|j: int| 0 <= j < meshes@.len() implies #[trigger] meshes@[j].holds(
                        *d,
                        blocks@,
                        pm1[j],
                    ) by {
                        assert(old_meshes[j].holds(*d, blocks@, pm[j]));
                    }
                }
            }
            m = m + 1;
        }
        meshes
    }
}

/// The quads of a cell are its drawn faces, each once.
proof fn lemma_voxel_quads_members(d: Dims, blocks: Seq<BlockKind>, p: Position, n: nat)
    requires
        n <= FACE_COUNT,
    ensures
        forall|j: int|
            0 <= j < voxel_quads(d, blocks, p, n).len() ==> {
                let q = #[trigger] voxel_quads(d, blocks, p, n)[j];
                q.cell == p && q.face.order() < n && face_visible(d, blocks, p, q.face)
            },
        forall|f: Face|
            f.order() < n && face_visible(d, blocks, p, f) ==> #[trigger] voxel_quads(
                d,
                blocks,
                p,
                n,
            ).contains(Quad { cell: p, face: f }),
    decreases n,
{
    if n > 0 {
        let m = (n - 1) as nat;
        lemma_voxel_quads_members(d, blocks, p, m);
        let prev = voxel_quads(d, blocks, p, m);
        let cur = voxel_quads(d, blocks, p, n);
        let f0 = face_at(m as int);
        assert(f0.order() == m);
        assert(cur == prev + if face_visible(d, blocks, p, f0) {
            seq![Quad { cell: p, face: f0 }]
        } else {
            seq![]
        });
        assert forall|j: int| 0 <= j < cur.len() implies {
            let q = #[trigger] cur[j];
            q.cell == p && q.face.order() < n && face_visible(d, blocks, p, q.face)
        } by {
            if j < prev.len() {
                assert(cur[j] == prev[j]);
            }
        }
        assert forall|f: Face| f.order() < n && face_visible(d, blocks, p, f) implies #[trigger] cur.contains(
            Quad { cell: p, face: f },
        ) by {
            lemma_face_at_order(f);
            if f.order() < m {
                assert(prev.contains(Quad { cell: p, face: f }));
                let j = choose|j: int| 0 <= j < prev.len() && prev[j] == Quad { cell: p, face: f };
                assert(cur[j] == prev[j]);
            } else {
                assert(f == f0);
                assert(cur[prev.len() as int] == Quad { cell: p, face: f });
            }
        }
    }
}

/// The quads of material `m` among the first `n` scan steps are the drawn
/// faces of the solid cells of that material visited by them.
proof fn lemma_material_quads_members(d: Dims, blocks: Seq<BlockKind>, m: int, n: nat)
    requires
        d.wf(),
        blocks.len() == d.cells(),
        n <= d.cells(),
    ensures
        forall|j: int|
            0 <= j < material_quads(d, blocks, m, n).len() ==> {
                let q = #[trigger] material_quads(d, blocks, m, n)[j];
                &&& d.contains(q.cell)
                &&& d.scan_step(q.cell) < n
                &&& blocks[d.index_spec(q.cell)].is_solid()
                &&& blocks[d.index_spec(q.cell)].material() == m
                &&& face_visible(d, blocks, q.cell, q.face)
            },
        forall|s: int, f: Face|
            0 <= s < n && blocks[d.index_spec(d.scan_position(s))].is_solid() && blocks[d.index_spec(
                d.scan_position(s),
            )].material() == m && face_visible(d, blocks, d.scan_position(s), f)
                ==> #[trigger] material_quads(d, blocks, m, n).contains(
                Quad { cell: d.scan_position(s), face: f },
            ),
    decreases n,
{
    if n > 0 {
        let k = (n - 1) as nat;
        lemma_material_quads_members(d, blocks, m, k);
        let p = d.scan_position(k as int);
        lemma_scan_in_range(d, k as int);
        lemma_voxel_quads_members(d, blocks, p, FACE_COUNT as nat);
        let prev = material_quads(d, blocks, m, k);
        let cur = material_quads(d, blocks, m, n);
        let vq = voxel_quads(d, blocks, p, FACE_COUNT as nat);
        let b = blocks[d.index_spec(p)];
        let takes = b.is_solid() && b.material() == m;
        if takes {
            assert(cur == prev + vq);
        } else {
            assert(cur =~= prev);
        }
        assert forall|j: int| 0 <= j < cur.len() implies {
            let q = #[trigger] cur[j];
            &&& d.contains(q.cell)
            &&& d.scan_step(q.cell) < n
            &&& blocks[d.index_spec(q.cell)].is_solid()
            &&& blocks[d.index_spec(q.cell)].material() == m
            &&& face_visible(d, blocks, q.cell, q.face)
        } by {
            if j < prev.len() {
                assert(cur[j] == prev[j]);
            } else {
                assert(takes);
                assert(cur[j] == vq[j - prev.len()]);
            }
        }
        assert forall|s: int, f: Face|
            0 <= s < n && blocks[d.index_spec(d.scan_position(s))].is_solid() && blocks[d.index_spec(
                d.scan_position(s),
            )].material() == m && face_visible(d, blocks, d.scan_position(s), f) implies #[trigger] cur.contains(
            Quad { cell: d.scan_position(s), face: f },
        ) by {
            lemma_face_at_order(f);
            if s < k {
                assert(prev.contains(Quad { cell: d.scan_position(s), face: f }));
                let j = choose|j: int|
                    0 <= j < prev.len() && prev[j] == Quad { cell: d.scan_position(s), face: f };
                assert(cur[j] == prev[j]);
            } else {
                assert(s == k);
                assert(vq.contains(Quad { cell: p, face: f }));
                let j = choose|j: int| 0 <= j < vq.len() && vq[j] == Quad { cell: p, face: f };
                assert(cur[prev.len() + j] == vq[j]);
            }
        }
    }
}

/// An empty cell gets no face: no quad of any material belongs to it.
pub proof fn lemma_air_has_no_faces(d: Dims, blocks: Seq<BlockKind>, m: int, p: Position)
    requires
        d.wf(),
        blocks.len() == d.cells(),
        d.contains(p),
        blocks[d.index_spec(p)] == BlockKind::Air,
    ensures
        forall|j: int|
            0 <= j < chunk_quads(d, blocks, m).len() ==> (#[trigger] chunk_quads(d, blocks, m)[j]).cell
                != p,
{
    lemma_material_quads_members(d, blocks, m, d.cells() as nat);
}

/// A solid cell whose six neighbours are all inside the chunk and solid gets
/// no face.
pub proof fn lemma_enclosed_voxel_has_no_faces(d: Dims, blocks: Seq<BlockKind>, m: int, p: Position)
    requires
        d.wf(),
        blocks.len() == d.cells(),
        d.contains(p),
        forall|f: Face| #[trigger] solid_at(d, blocks, translate(p, f.direction())),
    ensures
        forall|j: int|
            0 <= j < chunk_quads(d, blocks, m).len() ==> (#[trigger] chunk_quads(d, blocks, m)[j]).cell
                != p,
{
    lemma_material_quads_members(d, blocks, m, d.cells() as nat);
    assert forall|j: int| 0 <= j < chunk_quads(d, blocks, m).len() implies (
    #[trigger] chunk_quads(d, blocks, m)[j]).cell != p by {
        let q = chunk_quads(d, blocks, m)[j];
        assert(solid_at(d, blocks, translate(p, q.face.direction())));
    }
}

/// A face of a solid cell that looks out of the chunk is always drawn,
/// whatever the other cells hold.
pub proof fn lemma_outward_face_is_drawn(d: Dims, blocks: Seq<BlockKind>, p: Position, f: Face)
    requires
        d.wf(),
        blocks.len() == d.cells(),
        d.contains(p),
        blocks[d.index_spec(p)].is_solid(),
        !d.contains(translate(p, f.direction())),
    ensures
        chunk_quads(d, blocks, blocks[d.index_spec(p)].material()).contains(Quad { cell: p, face: f }),
{
    let s = d.scan_step(p);
    lemma_scan_of_cell(d, p);
    lemma_material_quads_members(d, blocks, blocks[d.index_spec(p)].material(), d.cells() as nat);
    assert(face_visible(d, blocks, p, f));
    assert(material_quads(d, blocks, blocks[d.index_spec(p)].material(), d.cells() as nat).contains(
        Quad { cell: d.scan_position(s), face: f },
    ));
}

/// Every index of a material's mesh names a vertex of that same mesh.
pub proof fn lemma_mesh_indices_in_range(mesh: MaterialMesh, d: Dims, blocks: Seq<BlockKind>, m: int)
    requires
        d.wf(),
        blocks.len() == d.cells(),
        mesh.holds(d, blocks, m),
    ensures
        forall|j: int| 0 <= j < mesh.indices@.len() ==> (#[trigger] mesh.indices@[j] as int) < mesh.vertices@.len(),
{
    let qs = chunk_quads(d, blocks, m);
    lemma_material_quads_len(d, blocks, m, d.cells() as nat);
    lemma_dims_bounds(d);
    lemma_quads_vertices_len(qs);
    lemma_quads_indices_bounds(0, qs.len());
}

/// A material's mesh has four vertices and six indices per drawn face.
pub proof fn lemma_mesh_counts(mesh: MaterialMesh, d: Dims, blocks: Seq<BlockKind>, m: int)
    requires
        mesh.holds(d, blocks, m),
    ensures
        mesh.vertices@.len() % 4 == 0,
        mesh.indices@.len() % 6 == 0,
        mesh.vertices@.len() / 4 == mesh.indices@.len() / 6,
{
    let qs = chunk_quads(d, blocks, m);
    lemma_quads_vertices_len(qs);
    lemma_quads_indices_len(0, qs.len());
}

} // verus!
