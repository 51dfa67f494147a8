use vstd::prelude::*;
use vstd::arithmetic::div_mod::{
    lemma_fundamental_div_mod, lemma_fundamental_div_mod_converse,
};
use crate::block::{is_face_visible, BlockType, Face};
use crate::chunk::{generated_from, Chunk};
use crate::coords::{column_index, local_index};
use crate::mesh::{cube_vertices, face_quad, meshed, quad, triangles_for};
use crate::terrain::terrain_kind;
use crate::world::{coords_of, World};

verus! {

/// Splitting a coordinate by a chunk size `n`: Euclidean division gives the
/// chunk and a remainder in `[0, n)`, negative coordinates included, and no
/// other chunk and cell give the same coordinate.
pub proof fn lemma_coordinate_split(v: int, n: int)
    requires
        n > 0,
    ensures
        v == (v / n) * n + v % n,
        0 <= v % n < n,
        forall|c: int, l: int| 0 <= l < n && v == #[trigger] (c * n + l) ==> c == v / n && l == v % n,
{
    lemma_fundamental_div_mod(v, n);
    assert((v / n) * n == n * (v / n)) by (nonlinear_arith);
    assert forall|c: int, l: int| 0 <= l < n && v == #[trigger] (c * n + l) implies c == v / n && l == v % n by {
        lemma_fundamental_div_mod_converse(v, n, c, l);
    }
}

/// A world lookup returns what the terrain rule decided for the chunk and
/// the cell that Euclidean division by the chunk size picks, when that chunk
/// was generated from `heights`, `caves` and `water_level`.
pub proof fn lemma_lookup_is_terrain(
    world: World,
    x: int,
    y: int,
    z: int,
    heights: Seq<i32>,
    caves: Seq<bool>,
    water_level: int,
)
    requires
        world.wf(),
        world.has_chunk((x / 16, y / 16, z / 16)),
        generated_from(
            world.chunk((x / 16, y / 16, z / 16)).blocks@,
            world.chunk((x / 16, y / 16, z / 16)).position,
            heights,
            caves,
            water_level,
        ),
    ensures
        world.block_at(x, y, z) == terrain_kind(
            y,
            heights[column_index(x % 16, z % 16)] as int,
            caves[local_index(x % 16, y % 16, z % 16)],
            water_level,
        ),
{
    world.lemma_wf();
    let c = (x / 16, y / 16, z / 16);
    let i = local_index(x % 16, y % 16, z % 16);
    assert(coords_of(world.chunk(c).position) == c);
    assert(0 <= i < 4096);
    assert(i / 256 == x % 16);
    assert((i / 16) % 16 == y % 16);
    assert(i % 16 == z % 16);
}

/// Meshing a chunk twice, with the same blocks and against the same world,
/// gives the same visible blocks, vertices and triangles.
pub proof fn lemma_remesh_identical(first: Chunk, second: Chunk, world: World)
    requires
        meshed(first, world),
        meshed(second, world),
        first.blocks@ == second.blocks@,
        first.position == second.position,
    ensures
        first.visible_blocks@ == second.visible_blocks@,
        first.vertices@ == second.vertices@,
        first.indices@ == second.indices@,
{
}

/// A solid block, not water, whose six neighbours are air emits all six
/// quads: 24 vertices and 12 triangles.
pub proof fn lemma_isolated_block(world: World, x: int, y: int, z: int, offset: int)
    requires
        world.block_at(x, y, z) != BlockType::Air,
        world.block_at(x, y, z) != BlockType::Water,
        world.block_at(x, y, z + 1) == BlockType::Air,
        world.block_at(x, y, z - 1) == BlockType::Air,
        world.block_at(x, y + 1, z) == BlockType::Air,
        world.block_at(x, y - 1, z) == BlockType::Air,
        world.block_at(x + 1, y, z) == BlockType::Air,
        world.block_at(x - 1, y, z) == BlockType::Air,
    ensures
        cube_vertices(world, x, y, z, world.block_at(x, y, z)).len() == 24,
        triangles_for(offset, 24).len() == 12,
{
    reveal(cube_vertices);
}

/// Two equal solid blocks, not water, side by side across `face`, with air
/// at every other neighbour, emit ten quads between them: the two faces they
/// share are left out.
pub proof fn lemma_adjacent_pair(world: World, x: int, y: int, z: int, face: Face)
    requires
        world.block_at(x, y, z) != BlockType::Air,
        world.block_at(x, y, z) != BlockType::Water,
        world.block_at(x + face.delta().0, y + face.delta().1, z + face.delta().2) == world.block_at(
            x,
            y,
            z,
        ),
        forall|f: Face|
            f != face ==> #[trigger] world.block_at(x + f.delta().0, y + f.delta().1, z + f.delta().2)
                == BlockType::Air,
        forall|f: Face|
            f != face.opposite() ==> #[trigger] world.block_at(
                x + face.delta().0 + f.delta().0,
                y + face.delta().1 + f.delta().1,
                z + face.delta().2 + f.delta().2,
            ) == BlockType::Air,
    ensures
        cube_vertices(world, x, y, z, world.block_at(x, y, z)).len() + cube_vertices(
            world,
            x + face.delta().0,
            y + face.delta().1,
            z + face.delta().2,
            world.block_at(x, y, z),
        ).len() == 40,
{
    let b = world.block_at(x, y, z);
    let (nx, ny, nz) = (x + face.delta().0, y + face.delta().1, z + face.delta().2);
    lemma_cube_len_sum(world, x, y, z, b);
    lemma_cube_len_sum(world, nx, ny, nz, b);
    assert(nx + face.opposite().delta().0 == x && ny + face.opposite().delta().1 == y && nz
        + face.opposite().delta().2 == z);
    assert(world.block_at(x + Face::Front.delta().0, y + Face::Front.delta().1, z + Face::Front.delta().2) == world.block_at(x, y, z + 1));
    assert(world.block_at(x + Face::Back.delta().0, y + Face::Back.delta().1, z + Face::Back.delta().2) == world.block_at(x, y, z - 1));
    assert(world.block_at(x + Face::Top.delta().0, y + Face::Top.delta().1, z + Face::Top.delta().2) == world.block_at(x, y + 1, z));
    assert(world.block_at(x + Face::Bottom.delta().0, y + Face::Bottom.delta().1, z + Face::Bottom.delta().2) == world.block_at(x, y - 1, z));
    assert(world.block_at(x + Face::Right.delta().0, y + Face::Right.delta().1, z + Face::Right.delta().2) == world.block_at(x + 1, y, z));
    assert(world.block_at(x + Face::Left.delta().0, y + Face::Left.delta().1, z + Face::Left.delta().2) == world.block_at(x - 1, y, z));
}

/// The vertex count of a block is the sum of those of its six faces.
proof fn lemma_cube_len_sum(world: World, x: int, y: int, z: int, b: BlockType)
    ensures
        cube_vertices(world, x, y, z, b).len() == face_quad(world, x, y, z, b, Face::Front).len()
            + face_quad(world, x, y, z, b, Face::Back).len() + face_quad(
            world,
            x,
            y,
            z,
            b,
            Face::Top,
        ).len() + face_quad(world, x, y, z, b, Face::Bottom).len() + face_quad(
            world,
            x,
            y,
            z,
            b,
            Face::Right,
        ).len() + face_quad(world, x, y, z, b, Face::Left).len(),
{
    reveal(cube_vertices);
}

/// Water never shows a face against water; a water block with air above it
/// emits exactly its lowered top quad and nothing else.
pub proof fn lemma_water_faces(world: World, x: int, y: int, z: int, face: Face)
    requires
        world.block_at(x, y, z) == BlockType::Water,
    ensures
        !is_face_visible(BlockType::Water, BlockType::Water),
        world.block_at(x + face.delta().0, y + face.delta().1, z + face.delta().2) == BlockType::Water
            ==> face_quad(world, x, y, z, BlockType::Water, face).len() == 0,
        world.block_at(x, y + 1, z) == BlockType::Air ==> cube_vertices(
            world,
            x,
            y,
            z,
            BlockType::Water,
        ) == quad(Face::Top, x, y, z, BlockType::Water),
{
    reveal(cube_vertices);
    if world.block_at(x, y + 1, z) == BlockType::Air {
        let q = quad(Face::Top, x, y, z, BlockType::Water);
        assert(cube_vertices(world, x, y, z, BlockType::Water) =~= q);
    }
}

/// Across the `+x` border of a chunk, the neighbour of local `(15, y, z)` is
/// local `(0, y, z)` of the next chunk when that chunk is stored, and air
/// when it is not.
pub proof fn lemma_border_neighbor(world: World, cx: int, cy: int, cz: int, y: int, z: int)
    requires
        world.wf(),
        0 <= y < 16,
        0 <= z < 16,
    ensures
        world.block_at(cx * 16 + 15 + 1, cy * 16 + y, cz * 16 + z) == if world.has_chunk(
            (cx + 1, cy, cz),
        ) {
            world.chunk((cx + 1, cy, cz)).block_at(0, y, z)
        } else {
            BlockType::Air
        },
{
    lemma_fundamental_div_mod_converse(cx * 16 + 15 + 1, 16, cx + 1, 0);
    lemma_fundamental_div_mod_converse(cy * 16 + y, 16, cy, y);
    lemma_fundamental_div_mod_converse(cz * 16 + z, 16, cz, z);
}

} // verus!
