//! Voxel terrain core: the block model, lattice indexing, seeded terrain
//! generation and face-culled chunk meshing.
//!
//! A chunk's grid is generated from a seed and the surface height sampled at
//! each cell; the mesher turns the grid into one vertex and index list per
//! material, drawing only the faces that touch empty space or the chunk's
//! border.
pub mod block;
pub mod utils;
pub mod voxel;
pub mod mesh;
pub mod random;
pub mod chunk;
pub mod world;
