//! A chunked voxel world: terrain decisions per block, lookups that cross
//! chunk borders, and a mesher that turns each chunk's exposed faces into
//! vertex and triangle-index buffers.

pub mod block;
pub mod chunk;
pub mod coords;
pub mod laws;
pub mod mesh;
pub mod terrain;
pub mod world;

pub use block::{face_visible, BlockType, Face};
pub use chunk::Chunk;
pub use coords::{block_index, world_coord, CHUNK_SIZE, CHUNK_VOLUME};
pub use mesh::{
    generate_cube_vertices, generate_indices_for_vertices, texture_layer, BlockPosition,
    TriIndexes, Vertex,
};
pub use terrain::{terrain_block, DIRT_DEPTH, WATER_LEVEL};
pub use world::{should_render_face, World};
