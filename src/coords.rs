use vstd::prelude::*;

verus! {

/// Edge length of a chunk, in blocks.
pub const CHUNK_SIZE: usize = 16;

/// Number of blocks in a chunk.
pub const CHUNK_VOLUME: usize = CHUNK_SIZE * CHUNK_SIZE * CHUNK_SIZE;

/// Position of local block `(x, y, z)` in a chunk's flat block array.
pub open spec fn local_index(x: int, y: int, z: int) -> int {
    x * 256 + y * 16 + z
}

/// Local `x` of the block stored at flat position `i`.
pub open spec fn index_x(i: int) -> int {
    i / 256
}

/// Local `y` of the block stored at flat position `i`.
pub open spec fn index_y(i: int) -> int {
    (i / 16) % 16
}

/// Local `z` of the block stored at flat position `i`.
pub open spec fn index_z(i: int) -> int {
    i % 16
}

/// Position of column `(x, z)` in a chunk's flat array of column heights.
pub open spec fn column_index(x: int, z: int) -> int {
    x * 16 + z
}

/// World coordinate of local coordinate `local` in the chunk at `chunk`.
pub open spec fn world_of(chunk: int, local: int) -> int {
    chunk * 16 + local
}

/// A chunk coordinate whose blocks all have world coordinates that fit in `i32`.
pub open spec fn valid_chunk_coord(c: int) -> bool {
    -0x800_0000 <= c < 0x800_0000
}

/// Flat position of local block `(x, y, z)`, laid out `[x][y][z]`.
pub fn block_index(x: usize, y: usize, z: usize) -> (r: usize)
    requires
        x < CHUNK_SIZE,
        y < CHUNK_SIZE,
        z < CHUNK_SIZE,
    ensures
        r == local_index(x as int, y as int, z as int),
        r < CHUNK_VOLUME,
{
    x * 256 + y * 16 + z
}

/// World coordinate of local coordinate `local` in the chunk at `chunk`.
pub fn world_coord(chunk: i32, local: usize) -> (r: i32)
    requires
        valid_chunk_coord(chunk as int),
        local < CHUNK_SIZE,
    ensures
        r == world_of(chunk as int, local as int),
{
    chunk * 16 + local as i32
}

/// The flat index and the local coordinates it stands for describe one another.
pub proof fn lemma_index_coords(i: int)
    requires
        0 <= i < 4096,
    ensures
        0 <= index_x(i) < 16,
        0 <= index_y(i) < 16,
        0 <= index_z(i) < 16,
        local_index(index_x(i), index_y(i), index_z(i)) == i,
        0 <= column_index(index_x(i), index_z(i)) < 256,
{
}

} // verus!
