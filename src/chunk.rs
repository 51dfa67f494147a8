use vstd::prelude::*;
use crate::block::BlockType;
use crate::coords::{
    column_index, index_x, index_y, index_z, lemma_index_coords, local_index,
    valid_chunk_coord, world_of, CHUNK_SIZE, CHUNK_VOLUME,
};
use crate::mesh::{indices_below, BlockPosition, TriIndexes, Vertex};
use crate::terrain::{terrain_block, terrain_kind, WATER_LEVEL};

verus! {

/// A cube of `CHUNK_SIZE` blocks on each side, with the geometry last built
/// for its exposed faces.
pub struct Chunk {
    /// Coordinates of the chunk in chunk space.
    pub position: (i32, i32, i32),
    /// The blocks, laid out `[x][y][z]` (see `block_index`).
    pub blocks: Vec<BlockType>,
    /// Blocks with at least one exposed face, in scan order.
    pub visible_blocks: Vec<(BlockPosition, BlockType)>,
    /// Corners of the emitted face quads.
    pub vertices: Vec<Vertex>,
    /// Two triangles per quad, indexing into `vertices`.
    pub indices: Vec<TriIndexes>,
    /// Number of entries in `vertices`.
    pub vertex_count: u32,
}

/// Chunk coordinates whose blocks have world coordinates that fit in `i32`.
pub open spec fn valid_position(p: (i32, i32, i32)) -> bool {
    valid_chunk_coord(p.0 as int) && valid_chunk_coord(p.1 as int) && valid_chunk_coord(p.2 as int)
}

/// `blocks` holds, at every cell, what the terrain rule gives for the chunk at
/// `position`, surface heights `heights` (one per column, `[x][z]`), cave
/// flags `caves` (one per block) and water level `water_level`.
pub open spec fn generated_from(
    blocks: Seq<BlockType>,
    position: (i32, i32, i32),
    heights: Seq<i32>,
    caves: Seq<bool>,
    water_level: int,
) -> bool {
    &&& blocks.len() == CHUNK_VOLUME
    &&& forall|i: int|
        0 <= i < CHUNK_VOLUME ==> #[trigger] blocks[i] == terrain_kind(
            world_of(position.1 as int, index_y(i)),
            heights[column_index(index_x(i), index_z(i))] as int,
            caves[i],
            water_level,
        )
}

impl Chunk {
    /// The chunk holds a full block array, lies where world coordinates fit in
    /// `i32`, and its triangles index its own vertices.
    pub open spec fn wf(&self) -> bool {
        &&& self.blocks@.len() == CHUNK_VOLUME
        &&& valid_position(self.position)
        &&& self.vertex_count == self.vertices@.len()
        &&& indices_below(self.indices@, self.vertices@.len() as int)
    }

    /// The block at local `(x, y, z)`.
    pub open spec fn block_at(&self, x: int, y: int, z: int) -> BlockType {
        self.blocks@[local_index(x, y, z)]
    }

    /// A chunk of air at `position`, with no geometry.
    pub fn empty(position: (i32, i32, i32)) -> (r: Chunk)
        requires
            valid_position(position),
        ensures
            r.wf(),
            r.position == position,
            forall|i: int| 0 <= i < CHUNK_VOLUME ==> r.blocks@[i] == BlockType::Air,
            r.visible_blocks@.len() == 0,
            r.vertices@.len() == 0,
            r.indices@.len() == 0,
    {
        Chunk {
            position,
            blocks: vec![BlockType::Air; CHUNK_VOLUME],
            visible_blocks: Vec::new(),
            vertices: Vec::new(),
            indices: Vec::new(),
            vertex_count: 0,
        }
    }

    /// A chunk at `position` filled by the terrain rule from the column
    /// heights `heights` (`[x][z]`) and the cave flags `caves` (one per
    /// block, laid out as the blocks), with water up to `WATER_LEVEL`.
    pub fn new(position: (i32, i32, i32), heights: &Vec<i32>, caves: &Vec<bool>) -> (r: Chunk)
        requires
            valid_position(position),
            heights@.len() == CHUNK_SIZE * CHUNK_SIZE,
            caves@.len() == CHUNK_VOLUME,
        ensures
            r.wf(),
            r.position == position,
            generated_from(r.blocks@, position, heights@, caves@, WATER_LEVEL as int),
            r.visible_blocks@.len() == 0,
            r.vertices@.len() == 0,
            r.indices@.len() == 0,
    {
        let mut chunk = Chunk::empty(position);
        chunk.generate_terrain(heights, caves, WATER_LEVEL);
        chunk
    }

    /// Refills every block from the terrain rule (see `new`), with water up
    /// to `water_level`. The geometry is left as it was.
    pub fn generate_terrain(&mut self, heights: &Vec<i32>, caves: &Vec<bool>, water_level: i32)
        requires
            old(self).wf(),
            heights@.len() == CHUNK_SIZE * CHUNK_SIZE,
            caves@.len() == CHUNK_VOLUME,
        ensures
            final(self).wf(),
            final(self).position == old(self).position,
            generated_from(
                final(self).blocks@,
                old(self).position,
                heights@,
                caves@,
                water_level as int,
            ),
            final(self).visible_blocks == old(self).visible_blocks,
            final(self).vertices == old(self).vertices,
            final(self).indices == old(self).indices,
            final(self).vertex_count == old(self).vertex_count,
    {
        let mut i: usize = 0;
        while i < CHUNK_VOLUME
            invariant
                0 <= i <= CHUNK_VOLUME,
                self.wf(),
                self.position == old(self).position,
                heights@.len() == CHUNK_SIZE * CHUNK_SIZE,
                caves@.len() == CHUNK_VOLUME,
                self.visible_blocks == old(self).visible_blocks,
                self.vertices == old(self).vertices,
                self.indices == old(self).indices,
                self.vertex_count == old(self).vertex_count,
                forall|k: int|
                    0 <= k < i ==> #[trigger] self.blocks@[k] == terrain_kind(
                        world_of(self.position.1 as int, index_y(k)),
                        heights@[column_index(index_x(k), index_z(k))] as int,
                        caves@[k],
                        water_level as int,
                    ),
            decreases CHUNK_VOLUME - i,
        {
            proof {
                lemma_index_coords(i as int);
            }
            let x = i / 256;
            let y = (i / 16) % 16;
            let z = i % 16;
            let world_y = self.position.1 * 16 + y as i32;
            let b = terrain_block(world_y, heights[x * 16 + z], caves[i], water_level);
            self.blocks.set(i, b);
            i = i + 1;
        }
    }

    /// The block at local `(x, y, z)`.
    pub fn block(&self, x: usize, y: usize, z: usize) -> (r: BlockType)
        requires
            self.wf(),
            x < CHUNK_SIZE,
            y < CHUNK_SIZE,
            z < CHUNK_SIZE,
        ensures
            r == self.block_at(x as int, y as int, z as int),
    {
        self.blocks[x * 256 + y * 16 + z]
    }

    /// Replaces the block at local `(x, y, z)`. The geometry is left as it was
    /// until the next `update`.
    pub fn set_block(&mut self, x: usize, y: usize, z: usize, block: BlockType)
        requires
            old(self).wf(),
            x < CHUNK_SIZE,
            y < CHUNK_SIZE,
            z < CHUNK_SIZE,
        ensures
            final(self).wf(),
            final(self).blocks@ == old(self).blocks@.update(local_index(x as int, y as int, z as int), block),
            final(self).position == old(self).position,
            final(self).visible_blocks == old(self).visible_blocks,
            final(self).vertices == old(self).vertices,
            final(self).indices == old(self).indices,
            final(self).vertex_count == old(self).vertex_count,
    {
        self.blocks.set(x * 256 + y * 16 + z, block);
    }
}

} // verus!
