use voxel_core::block::BlockKind;
use voxel_core::chunk::Chunk;
use voxel_core::mesh::MaterialMesh;
use voxel_core::utils::{Dims, Position};
use voxel_core::voxel::{Face, Faces, MeshVertex};

fn grid(d: &Dims, fill: BlockKind) -> Vec<BlockKind> {
    vec![fill; d.volume()]
}

fn check_counts(m: &MaterialMesh) {
    assert_eq!(m.vertices.len() % 4, 0);
    assert_eq!(m.indices.len() % 6, 0);
    assert_eq!(m.vertices.len() / 4, m.indices.len() / 6);
    assert!(m.indices.iter().all(|i| (*i as usize) < m.vertices.len()));
}

#[test]
fn single_voxel_draws_six_faces() {
    let d = Dims { width: 2, height: 2 };
    let mut blocks = grid(&d, BlockKind::Air);
    blocks[0] = BlockKind::Stone;
    let meshes = Chunk::build_meshes(&d, &blocks);
    assert_eq!(meshes.len(), 1);
    let m = &meshes[0];
    assert_eq!(m.material, 0);
    assert_eq!(m.vertices.len(), 24);
    assert_eq!(m.indices.len(), 36);
    assert_eq!(m.triangle_count(), 12);
    assert_eq!(&m.indices[0..6], &[0, 1, 2, 2, 3, 0]);
    assert_eq!(&m.indices[6..12], &[4, 5, 6, 6, 7, 4]);
    assert_eq!(*m.indices.iter().max().unwrap(), 23);
    assert_eq!(
        m.vertices[0],
        MeshVertex { position: Position::new(0, 0, 0), face: Face::Back, corner: 0 }
    );
    assert_eq!(
        m.vertices[5],
        MeshVertex { position: Position::new(1, 1, 1), face: Face::Front, corner: 1 }
    );
    check_counts(m);
}

#[test]
fn voxel_vertices_are_translated() {
    let d = Dims { width: 2, height: 2 };
    let mut blocks = grid(&d, BlockKind::Air);
    blocks[7] = BlockKind::Grass;
    let meshes = Chunk::build_meshes(&d, &blocks);
    assert_eq!(meshes.len(), 1);
    assert_eq!(meshes[0].material, 4);
    assert_eq!(meshes[0].vertices[0].position, Position::new(1, 1, 1));
    assert_eq!(meshes[0].vertices[2].position, Position::new(2, 2, 1));
}

#[test]
fn air_grid_has_no_meshes() {
    let d = Dims { width: 3, height: 3 };
    assert!(Chunk::build_meshes(&d, &grid(&d, BlockKind::Air)).is_empty());
}

#[test]
fn solid_cube_draws_only_its_skin() {
    let d = Dims { width: 3, height: 3 };
    let meshes = Chunk::build_meshes(&d, &grid(&d, BlockKind::Stone));
    assert_eq!(meshes.len(), 1);
    let m = &meshes[0];
    assert_eq!(m.vertices.len(), 6 * 9 * 4);
    assert_eq!(m.indices.len(), 6 * 9 * 6);
    let centre = Position::new(1, 1, 1);
    assert!(!m.vertices.iter().any(|v| v.position == centre && v.face == Face::Back && v.corner == 0));
    check_counts(m);
}

#[test]
fn neighbours_hide_shared_faces() {
    let d = Dims { width: 2, height: 2 };
    let mut blocks = grid(&d, BlockKind::Air);
    blocks[0] = BlockKind::Stone;
    blocks[1] = BlockKind::Dirt;
    let meshes = Chunk::build_meshes(&d, &blocks);
    assert_eq!(meshes.len(), 2);
    assert_eq!(meshes[0].material, 0);
    assert_eq!(meshes[1].material, 5);
    assert_eq!(meshes[0].vertices.len(), 5 * 4);
    assert_eq!(meshes[1].vertices.len(), 5 * 4);
    assert!(!meshes[0].vertices.iter().any(|v| v.face == Face::Right));
    assert!(!meshes[1].vertices.iter().any(|v| v.face == Face::Left));
    for m in &meshes {
        check_counts(m);
    }
}

#[test]
fn boundary_faces_are_drawn() {
    let d = Dims { width: 3, height: 3 };
    let meshes = Chunk::build_meshes(&d, &grid(&d, BlockKind::Granite));
    let m = &meshes[0];
    assert_eq!(m.material, 1);
    let faces = Faces::cube();
    for face in [Face::Back, Face::Bottom, Face::Left] {
        let first_corner = faces.quad(face)[0];
        assert!(m.vertices.iter().any(|v| v.face == face && v.corner == 0 && v.position == first_corner));
    }
    let inner = m.vertices.iter().filter(|v| v.position == Position::new(1, 1, 1)).count();
    assert_eq!(inner, 0);
}

#[test]
fn check_voxel_sees_bounds_and_air() {
    let d = Dims { width: 2, height: 2 };
    let mut blocks = grid(&d, BlockKind::Air);
    blocks[0] = BlockKind::Stone;
    assert!(Chunk::check_voxel(&d, &Position::new(0, 0, 0), &blocks));
    assert!(!Chunk::check_voxel(&d, &Position::new(1, 0, 0), &blocks));
    assert!(!Chunk::check_voxel(&d, &Position::new(-1, 0, 0), &blocks));
    assert!(!Chunk::check_voxel(&d, &Position::new(0, 2, 0), &blocks));
}

#[test]
fn add_voxel_counts_from_current_length() {
    let d = Dims { width: 2, height: 2 };
    let mut blocks = grid(&d, BlockKind::Air);
    blocks[3] = BlockKind::Stone;
    let faces = Faces::cube();
    let mut vertices = vec![MeshVertex { position: Position::new(0, 0, 0), face: Face::Top, corner: 0 }; 8];
    let mut indices = vec![0u32; 3];
    Chunk::add_voxel_to_chunk(&d, &faces, &Position::new(1, 0, 1), &blocks, &mut vertices, &mut indices);
    assert_eq!(vertices.len(), 8 + 24);
    assert_eq!(indices.len(), 3 + 36);
    assert_eq!(&indices[3..9], &[8, 9, 10, 10, 11, 8]);
}

#[test]
fn face_table_matches_offsets() {
    let faces = Faces::cube();
    assert_eq!(
        faces.quad(Face::Top),
        &[Position::new(1, 1, 1), Position::new(1, 1, 0), Position::new(0, 1, 0), Position::new(0, 1, 1)]
    );
    assert_eq!(Face::Bottom.offset(), Position::new(0, -1, 0));
    assert_eq!(Face::from_index(4), Face::Left);
}

#[test]
fn new_chunk_keeps_position_and_meshes() {
    let d = Dims::standard();
    let chunk = Chunk::new(Position::new(-8, 0, 24), &vec![10; d.volume()]);
    assert_eq!(chunk.position, Position::new(-8, 0, 24));
    assert_eq!(chunk.instance_num, 1);
    assert!(!chunk.meshes.is_empty());
    for m in &chunk.meshes {
        check_counts(m);
    }
    let materials: Vec<usize> = chunk.meshes.iter().map(|m| m.material).collect();
    assert_eq!(materials, vec![0, 3]);
}

#[test]
fn cells_are_meshed_with_z_innermost() {
    let d = Dims { width: 2, height: 2 };
    let mut blocks = grid(&d, BlockKind::Air);
    for p in [Position::new(0, 0, 0), Position::new(1, 0, 0), Position::new(0, 0, 1)] {
        blocks[d.index_of(&p)] = BlockKind::Stone;
    }
    let meshes = Chunk::build_meshes(&d, &blocks);
    let m = &meshes[0];
    assert_eq!(m.vertices[0], MeshVertex { position: Position::new(0, 0, 0), face: Face::Back, corner: 0 });
    assert_eq!(m.vertices.len(), (3 * 6 - 2 * 2) * 4);
    assert_eq!(m.vertices[16], MeshVertex { position: Position::new(1, 0, 2), face: Face::Front, corner: 0 });
    assert_eq!(d.scan_position_of(1), Position::new(0, 0, 1));
    assert_eq!(d.scan_position_of(2), Position::new(1, 0, 0));
    check_counts(m);
}
