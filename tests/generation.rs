use noise::{NoiseFn, Perlin, Seedable};
use voxel_core::block::BlockKind;
use voxel_core::chunk::{Chunk, CHUNK_SEED};
use voxel_core::utils::{Dims, Position};
use voxel_core::world::World;

fn flat(d: &Dims, height: usize) -> Vec<usize> {
    vec![height; d.volume()]
}

fn sampled_surface(seed: u64, d: &Dims, offset: Position) -> Vec<usize> {
    let perlin = Perlin::new().set_seed(seed as u32);
    (0..d.volume())
        .map(|i| {
            let p = d.position_of(i);
            let px = (p.x as f64 + offset.x as f64) / d.width as f64;
            let py = (p.y as f64 + offset.y as f64) / d.height as f64;
            let pz = (p.z as f64 + offset.z as f64) / d.width as f64;
            let n = (perlin.get([px, py, pz]) + 1.0) / 2.0;
            (n * d.height as f64).floor() as usize
        })
        .collect()
}

#[test]
fn full_surface_gives_layers() {
    let d = Dims::standard();
    let blocks = Chunk::generate(7, &d, &flat(&d, 64));
    assert_eq!(blocks.len(), 16 * 16 * 64);
    for (i, b) in blocks.iter().enumerate() {
        let y = d.position_of(i).y;
        let expected_fixed = match y {
            0 => Some(BlockKind::Stone),
            1..=20 => Some(BlockKind::Andesite),
            26..=54 => Some(BlockKind::Dirt),
            55..=63 => Some(BlockKind::Grass),
            _ => None,
        };
        match expected_fixed {
            Some(k) => assert_eq!(*b, k),
            None => assert!(*b == BlockKind::Andesite || *b == BlockKind::Dirt),
        }
    }
}

#[test]
fn mixed_layer_uses_both_kinds() {
    let d = Dims::standard();
    let blocks = Chunk::generate(CHUNK_SEED, &d, &flat(&d, 64));
    let mixed: Vec<BlockKind> = blocks
        .iter()
        .enumerate()
        .filter(|(i, _)| (21..=25).contains(&d.position_of(*i).y))
        .map(|(_, b)| *b)
        .collect();
    assert_eq!(mixed.len(), 5 * 16 * 16);
    assert!(mixed.contains(&BlockKind::Andesite));
    assert!(mixed.contains(&BlockKind::Dirt));
}

#[test]
fn empty_surface_leaves_only_bottom() {
    let d = Dims::standard();
    let blocks = Chunk::generate(3, &d, &flat(&d, 0));
    for (i, b) in blocks.iter().enumerate() {
        if d.position_of(i).y == 0 {
            assert_eq!(*b, BlockKind::Stone);
        } else {
            assert_eq!(*b, BlockKind::Air);
        }
    }
}

#[test]
fn cells_above_their_surface_are_air() {
    let d = Dims::standard();
    let blocks = Chunk::generate(3, &d, &flat(&d, 30));
    for (i, b) in blocks.iter().enumerate() {
        let y = d.position_of(i).y;
        assert_eq!(*b == BlockKind::Air, y > 30);
    }
}

#[test]
fn generation_is_deterministic() {
    let d = Dims::standard();
    let surface = sampled_surface(CHUNK_SEED, &d, Position::new(16, 0, -8));
    let first = Chunk::generate(CHUNK_SEED, &d, &surface);
    let second = Chunk::generate(CHUNK_SEED, &d, &surface);
    assert_eq!(first, second);
}

#[test]
fn different_seeds_differ_in_mixed_layer() {
    let d = Dims::standard();
    let surface = flat(&d, 64);
    let first = Chunk::generate(1, &d, &surface);
    let second = Chunk::generate(2, &d, &surface);
    assert_ne!(first, second);
}

#[test]
fn tiny_world_has_eight_reproducible_voxels() {
    let d = Dims { width: 2, height: 2 };
    let surfaces = vec![sampled_surface(1, &d, World::chunk_offset(&d, 1, 0))];
    let world = World::generate_sized(1, 1, &d, &surfaces);
    assert_eq!(world.chunks().len(), 8);
    for i in 0..4 {
        assert_eq!(world.chunks()[i], BlockKind::Stone);
    }
    for i in 4..8 {
        let b = world.chunks()[i];
        assert!(b == BlockKind::Air || b == BlockKind::Andesite);
        assert_eq!(b == BlockKind::Andesite, surfaces[0][i] >= 1);
    }
    let again = World::generate_sized(1, 1, &d, &surfaces);
    assert_eq!(world.ordinals(), again.ordinals());
}

#[test]
fn tiny_world_pattern_for_given_surface() {
    let d = Dims { width: 2, height: 2 };
    let surfaces = vec![vec![0, 0, 0, 0, 1, 0, 2, 1]];
    let world = World::generate_sized(1, 1, &d, &surfaces);
    assert_eq!(world.ordinals(), vec![1, 1, 1, 1, 4, 0, 4, 4]);
}

#[test]
fn world_chunks_follow_each_other() {
    let d = Dims { width: 2, height: 2 };
    let surfaces = vec![vec![0; 8], vec![2; 8], vec![0; 8], vec![2; 8]];
    let world = World::generate_sized(5, 2, &d, &surfaces);
    let ordinals = world.ordinals();
    assert_eq!(ordinals.len(), 32);
    assert_eq!(&ordinals[0..8], &[1, 1, 1, 1, 0, 0, 0, 0]);
    assert_eq!(&ordinals[8..16], &[1, 1, 1, 1, 4, 4, 4, 4]);
    assert_eq!(&ordinals[16..24], &ordinals[0..8]);
}

#[test]
fn chunk_offsets_go_row_by_row() {
    let d = Dims::standard();
    assert_eq!(World::chunk_offset(&d, 10, 0), Position::new(0, 0, 0));
    assert_eq!(World::chunk_offset(&d, 10, 23), Position::new(32, 0, 48));
    assert_eq!(World::chunk_offset(&d, 10, 99), Position::new(144, 0, 144));
}

#[test]
fn standard_world_size() {
    assert_eq!(World::WORLD_SIZE, 10 * 10 * 16 * 16 * 64);
    let d = Dims::standard();
    let surfaces: Vec<Vec<usize>> = (0..World::SIZE * World::SIZE).map(|_| flat(&d, 10)).collect();
    let world = World::generate(4, &surfaces);
    assert_eq!(world.chunks().len(), World::WORLD_SIZE);
}

#[test]
fn ordinals_round_trip() {
    let d = Dims { width: 2, height: 2 };
    let world = World::generate_sized(9, 1, &d, &vec![vec![1, 0, 1, 0, 1, 0, 1, 0]]);
    let back = World::from_ordinals(&world.ordinals());
    assert_eq!(back.chunks(), world.chunks());
}

#[test]
fn unknown_ordinals_load_as_air() {
    let world = World::from_ordinals(&vec![1, 9, 6, 7]);
    assert_eq!(
        world.chunks(),
        &vec![BlockKind::Stone, BlockKind::Air, BlockKind::Dirt, BlockKind::Air]
    );
}

#[test]
fn tiny_world_serialises_identically() {
    let d = Dims { width: 2, height: 2 };
    let surfaces = vec![sampled_surface(1, &d, World::chunk_offset(&d, 1, 0))];
    let first = World::generate_sized(1, 1, &d, &surfaces);
    let second = World::generate_sized(1, 1, &d, &surfaces);
    let a = serde_json::to_vec(&first.ordinals()).unwrap();
    let b = serde_json::to_vec(&second.ordinals()).unwrap();
    assert_eq!(a, b);
}

#[test]
fn cells_above_fixed_layers_draw_a_first_kind() {
    let d = Dims { width: 4, height: 72 };
    let blocks = Chunk::generate(11, &d, &flat(&d, 100));
    let mut seen = Vec::new();
    for (i, b) in blocks.iter().enumerate() {
        if d.position_of(i).y >= 64 {
            let n = b.to_ordinal();
            assert!((1..=4).contains(&n));
            if !seen.contains(&n) {
                seen.push(n);
            }
        }
    }
    assert!(seen.len() > 1);
}

#[test]
fn layer_draws_and_fill_layers() {
    let d = Dims { width: 1, height: 23 };
    let surface = flat(&d, 22);
    assert_eq!(Chunk::layer_draws(&d, &surface), vec![2, 2]);
    let blocks = Chunk::fill_layers(&d, &surface, &vec![0, 1]);
    assert_eq!(blocks[0], BlockKind::Stone);
    for y in 1..=20 {
        assert_eq!(blocks[y], BlockKind::Andesite);
    }
    assert_eq!(blocks[21], BlockKind::Andesite);
    assert_eq!(blocks[22], BlockKind::Dirt);
    let flipped = Chunk::fill_layers(&d, &surface, &vec![1, 0]);
    assert_eq!(flipped[21], BlockKind::Dirt);
    assert_eq!(flipped[22], BlockKind::Andesite);
}

#[test]
fn draws_are_taken_with_z_innermost() {
    let d = Dims { width: 2, height: 22 };
    let surface = flat(&d, 21);
    assert_eq!(Chunk::layer_draws(&d, &surface), vec![2, 2, 2, 2]);
    let blocks = Chunk::fill_layers(&d, &surface, &vec![0, 0, 1, 1]);
    let row = &blocks[21 * 4..22 * 4];
    assert_eq!(row, &[BlockKind::Andesite, BlockKind::Dirt, BlockKind::Andesite, BlockKind::Dirt]);
}

#[test]
fn fallback_layer_uses_draw_as_kind() {
    let d = Dims { width: 1, height: 66 };
    let surface = flat(&d, 65);
    let bounds = Chunk::layer_draws(&d, &surface);
    assert_eq!(bounds.len(), 5 + 2);
    assert_eq!(&bounds[5..], &[4, 4]);
    let blocks = Chunk::fill_layers(&d, &surface, &vec![0, 0, 0, 0, 0, 3, 1]);
    assert_eq!(blocks[64], BlockKind::Andesite);
    assert_eq!(blocks[65], BlockKind::Granite);
}

#[test]
fn generate_matches_fill_layers_layout() {
    let d = Dims { width: 2, height: 30 };
    let surface = flat(&d, 29);
    let blocks = Chunk::generate(CHUNK_SEED, &d, &surface);
    assert_eq!(blocks.len(), 120);
    for (i, b) in blocks.iter().enumerate() {
        let y = d.position_of(i).y;
        if (21..=25).contains(&y) {
            assert!(*b == BlockKind::Andesite || *b == BlockKind::Dirt);
        } else if y >= 26 {
            assert_eq!(*b, BlockKind::Dirt);
        }
    }
}

#[test]
fn decode_accepts_only_whole_worlds() {
    assert!(World::decode(&vec![1, 2, 3]).is_none());
    let mut ordinals = vec![1u16; World::WORLD_SIZE];
    let world = World::decode(&ordinals).unwrap();
    assert_eq!(world.chunks().len(), World::WORLD_SIZE);
    assert_eq!(world.chunks()[0], BlockKind::Stone);
    ordinals[100] = 7;
    assert!(World::decode(&ordinals).is_none());
    ordinals[100] = 6;
    assert_eq!(World::decode(&ordinals).unwrap().chunks()[100], BlockKind::Dirt);
}
