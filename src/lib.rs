//! A voxel world on an infinite ground plane: fixed-size chunks of solid or
//! empty cells, the mapping between global, chunk and chunk-local
//! coordinates, the meshing of a chunk into cube geometry, and the world's
//! rule for when a chunk's geometry must be rebuilt.
//!
//! - `voxel`: the cell type.
//! - `chunk`: a dense block of voxels with its dirty flag, and its storage layout.
//! - `mesh`: the cube geometry of a chunk.
//! - `coords`: chunk and voxel indices, with floored division.
//! - `world`: the loaded chunks under unique indices, lookups, and the render pass.
//! - `vector`, `matrix`: small integer vector and matrix types.

pub mod chunk;
pub mod coords;
pub mod matrix;
pub mod mesh;
pub mod vector;
pub mod voxel;
pub mod world;

pub use chunk::{Chunk, CHUNK_DIM, CHUNK_HEIGHT, CHUNK_N_VOXELS};
pub use coords::{ChunkIndex, VoxelIndex};
pub use matrix::Matrix4;
pub use mesh::ChunkMesh;
pub use vector::{Vector2, Vector3, Vector4};
pub use voxel::{Voxel, VoxelType};
pub use world::{ChunkRenderdata, World};
