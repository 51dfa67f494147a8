use vstd::prelude::*;
use crate::block::{BlockType, Face};
use crate::chunk::{valid_position, Chunk};
use crate::coords::{
    index_x, index_y, index_z, lemma_index_coords, world_coord, world_of, CHUNK_VOLUME,
};
use crate::world::{face_shown, should_render_face, World};

verus! {

/// Local coordinates of a block inside its chunk.
#[derive(Clone, Copy, PartialEq, Eq, Debug, Structural)]
pub struct BlockPosition {
    pub x: usize,
    pub y: usize,
    pub z: usize,
}

/// One corner of a face quad.
///
/// Positions are in tenths of a block edge, so that the half-unit offsets of a
/// cube corner and the lowered water surface are exact. `u` and `v` are the
/// texture coordinates, `corner` the atlas index of the corner within its
/// cube (0 to 23), `layer` the texture layer, and `size` the scale factor.
#[derive(Clone, Copy, PartialEq, Eq, Debug, Structural)]
pub struct Vertex {
    pub x: i64,
    pub y: i64,
    pub z: i64,
    pub u: u32,
    pub v: u32,
    pub corner: u32,
    pub layer: u32,
    pub size: u32,
}

/// Three indices into a vertex buffer that form one triangle.
pub type TriIndexes = (u32, u32, u32);

/// Every triangle of `tris` refers to one of the first `n` vertices.
pub open spec fn indices_below(tris: Seq<TriIndexes>, n: int) -> bool {
    forall|j: int|
        0 <= j < tris.len() ==> #[trigger] tris[j].0 < n && tris[j].1 < n && tris[j].2 < n
}

/// A cube corner relative to the block centre, in half edges, with its
/// texture coordinates.
#[derive(Clone, Copy, PartialEq, Eq, Debug, Structural)]
pub struct Corner {
    pub dx: i64,
    pub dy: i64,
    pub dz: i64,
    pub u: u32,
    pub v: u32,
}

/// The `k`-th corner of `face`, in counter-clockwise order seen from outside:
/// its offsets `(dx, dy, dz)` from the block centre in half edges, then its
/// texture coordinates `(u, v)`.
pub open spec fn corner(face: Face, k: int) -> (int, int, int, int, int) {
    match face {
        Face::Front => if k == 0 {
            (-1, -1, 1, 0, 1)
        } else if k == 1 {
            (1, -1, 1, 1, 1)
        } else if k == 2 {
            (1, 1, 1, 1, 0)
        } else {
            (-1, 1, 1, 0, 0)
        },
        Face::Back => if k == 0 {
            (-1, -1, -1, 1, 1)
        } else if k == 1 {
            (-1, 1, -1, 1, 0)
        } else if k == 2 {
            (1, 1, -1, 0, 0)
        } else {
            (1, -1, -1, 0, 1)
        },
        Face::Top => if k == 0 {
            (-1, 1, -1, 0, 0)
        } else if k == 1 {
            (-1, 1, 1, 1, 0)
        } else if k == 2 {
            (1, 1, 1, 1, 1)
        } else {
            (1, 1, -1, 0, 1)
        },
        Face::Bottom => if k == 0 {
            (-1, -1, -1, 0, 0)
        } else if k == 1 {
            (1, -1, -1, 1, 0)
        } else if k == 2 {
            (1, -1, 1, 1, 1)
        } else {
            (-1, -1, 1, 0, 1)
        },
        Face::Right => if k == 0 {
            (1, -1, -1, 0, 1)
        } else if k == 1 {
            (1, 1, -1, 0, 0)
        } else if k == 2 {
            (1, 1, 1, 1, 0)
        } else {
            (1, -1, 1, 1, 1)
        },
        Face::Left => if k == 0 {
            (-1, -1, -1, 1, 1)
        } else if k == 1 {
            (-1, -1, 1, 0, 1)
        } else if k == 2 {
            (-1, 1, 1, 0, 0)
        } else {
            (-1, 1, -1, 1, 0)
        },
    }
}

/// The `k`-th corner of `face` (see `corner`).
fn corner_of(face: Face, k: usize) -> (r: Corner)
    requires
        k < 4,
    ensures
        r.dx == corner(face, k as int).0,
        r.dy == corner(face, k as int).1,
        r.dz == corner(face, k as int).2,
        r.u == corner(face, k as int).3,
        r.v == corner(face, k as int).4,
{
    let t: (i64, i64, i64, u32, u32) = match face {
        Face::Front => if k == 0 {
            (-1, -1, 1, 0, 1)
        } else if k == 1 {
            (1, -1, 1, 1, 1)
        } else if k == 2 {
            (1, 1, 1, 1, 0)
        } else {
            (-1, 1, 1, 0, 0)
        },
        Face::Back => if k == 0 {
            (-1, -1, -1, 1, 1)
        } else if k == 1 {
            (-1, 1, -1, 1, 0)
        } else if k == 2 {
            (1, 1, -1, 0, 0)
        } else {
            (1, -1, -1, 0, 1)
        },
        Face::Top => if k == 0 {
            (-1, 1, -1, 0, 0)
        } else if k == 1 {
            (-1, 1, 1, 1, 0)
        } else if k == 2 {
            (1, 1, 1, 1, 1)
        } else {
            (1, 1, -1, 0, 1)
        },
        Face::Bottom => if k == 0 {
            (-1, -1, -1, 0, 0)
        } else if k == 1 {
            (1, -1, -1, 1, 0)
        } else if k == 2 {
            (1, -1, 1, 1, 1)
        } else {
            (-1, -1, 1, 0, 1)
        },
        Face::Right => if k == 0 {
            (1, -1, -1, 0, 1)
        } else if k == 1 {
            (1, 1, -1, 0, 0)
        } else if k == 2 {
            (1, 1, 1, 1, 0)
        } else {
            (1, -1, 1, 1, 1)
        },
        Face::Left => if k == 0 {
            (-1, -1, -1, 1, 1)
        } else if k == 1 {
            (-1, -1, 1, 0, 1)
        } else if k == 2 {
            (-1, 1, 1, 0, 0)
        } else {
            (-1, 1, -1, 1, 0)
        },
    };
    Corner { dx: t.0, dy: t.1, dz: t.2, u: t.3, v: t.4 }
}

/// Texture layer of `face` on a block of kind `block`: grass has its own top,
/// dirt underneath and sides of its own; dirt, stone and water use one layer
/// each.
pub open spec fn layer_of(block: BlockType, face: Face) -> u32 {
    match block {
        BlockType::Grass => match face {
            Face::Top => 0,
            Face::Bottom => 2,
            _ => 1,
        },
        BlockType::Dirt => 2,
        BlockType::Stone => 3,
        BlockType::Water => 4,
        BlockType::Air => 0,
    }
}

/// Texture layer of `face` on a block of kind `block` (see `layer_of`).
pub fn texture_layer(block: BlockType, face: Face) -> (r: u32)
    ensures
        r == layer_of(block, face),
{
    match block {
        BlockType::Grass => match face {
            Face::Top => 0,
            Face::Bottom => 2,
            _ => 1,
        },
        BlockType::Dirt => 2,
        BlockType::Stone => 3,
        BlockType::Water => 4,
        BlockType::Air => 0,
    }
}

/// Whether a block of kind `block` has geometry on `face` at all: air has
/// none, water only its top.
pub open spec fn has_geometry(block: BlockType, face: Face) -> bool {
    block != BlockType::Air && (block != BlockType::Water || face == Face::Top)
}

/// Height of a block's top surface above its centre, in tenths: water sits a
/// tenth lower than a full block.
pub open spec fn top_lift(block: BlockType) -> int {
    if block == BlockType::Water {
        4
    } else {
        5
    }
}

/// Corner `k` of `face` of the block of kind `block` centred on world
/// coordinates `(x, y, z)`.
pub open spec fn face_vertex(face: Face, k: int, x: int, y: int, z: int, block: BlockType) -> Vertex {
    let c = corner(face, k);
    Vertex {
        x: (10 * x + 5 * c.0) as i64,
        y: (10 * y + if c.1 > 0 {
            top_lift(block)
        } else {
            -5
        }) as i64,
        z: (10 * z + 5 * c.2) as i64,
        u: c.3 as u32,
        v: c.4 as u32,
        corner: (4 * face.ordinal() + k) as u32,
        layer: layer_of(block, face),
        size: 1,
    }
}

/// The four corners of `face` of the block at `(x, y, z)`.
pub open spec fn quad(face: Face, x: int, y: int, z: int, block: BlockType) -> Seq<Vertex> {
    seq![
        face_vertex(face, 0, x, y, z, block),
        face_vertex(face, 1, x, y, z, block),
        face_vertex(face, 2, x, y, z, block),
        face_vertex(face, 3, x, y, z, block),
    ]
}

/// The quad of `face` of the block at `(x, y, z)` if it is emitted, else
/// nothing.
pub open spec fn face_quad(world: World, x: int, y: int, z: int, block: BlockType, face: Face) -> Seq<
    Vertex,
> {
    if has_geometry(block, face) && face_shown(world, x, y, z, face) {
        quad(face, x, y, z, block)
    } else {
        seq![]
    }
}

/// Corners of every emitted face of the block at `(x, y, z)`, faces in the
/// order front, back, top, bottom, right, left.
#[verifier::opaque]
pub open spec fn cube_vertices(world: World, x: int, y: int, z: int, block: BlockType) -> Seq<Vertex> {
    face_quad(world, x, y, z, block, Face::Front) + face_quad(world, x, y, z, block, Face::Back)
        + face_quad(world, x, y, z, block, Face::Top) + face_quad(world, x, y, z, block, Face::Bottom)
        + face_quad(world, x, y, z, block, Face::Right) + face_quad(world, x, y, z, block, Face::Left)
}

/// The `j`-th triangle over quads whose corners start at `offset`: each quad
/// `q` gives `(b, b+1, b+2)` and `(b+2, b+3, b)` with `b = offset + 4q`.
pub open spec fn triangle(offset: int, j: int) -> TriIndexes {
    let b = offset + 4 * (j / 2);
    if j % 2 == 0 {
        (b as u32, (b + 1) as u32, (b + 2) as u32)
    } else {
        ((b + 2) as u32, (b + 3) as u32, b as u32)
    }
}

/// Number of quads that `count` vertices are taken as, four at a time.
pub open spec fn quad_count(count: int) -> int {
    (count + 3) / 4
}

/// The triangles for `count` vertices that start at `offset`.
pub open spec fn triangles_for(offset: int, count: int) -> Seq<TriIndexes> {
    Seq::new((2 * quad_count(count)) as nat, |j: int| triangle(offset, j))
}

/// Whether a block of kind `block` has geometry on `face` (see
/// `has_geometry`).
fn geometry_on(block: BlockType, face: Face) -> (r: bool)
    ensures
        r == has_geometry(block, face),
{
    match block {
        BlockType::Air => false,
        BlockType::Water => face == Face::Top,
        _ => true,
    }
}

/// Corner `k` of `face` of the block of kind `block` at world coordinates
/// `(x, y, z)`.
fn make_vertex(face: Face, k: usize, x: i32, y: i32, z: i32, block: BlockType) -> (r: Vertex)
    requires
        k < 4,
    ensures
        r == face_vertex(face, k as int, x as int, y as int, z as int, block),
{
    let c = corner_of(face, k);
    let lift: i64 = if c.dy > 0 {
        if block == BlockType::Water {
            4
        } else {
            5
        }
    } else {
        -5
    };
    Vertex {
        x: 10 * (x as i64) + 5 * c.dx,
        y: 10 * (y as i64) + lift,
        z: 10 * (z as i64) + 5 * c.dz,
        u: c.u,
        v: c.v,
        corner: 4 * face.index() + k as u32,
        layer: texture_layer(block, face),
        size: 1,
    }
}

/// Appends the quad of `face` of the block at `(x, y, z)` when it is emitted.
fn push_face(
    out: &mut Vec<Vertex>,
    world: &World,
    x: i32,
    y: i32,
    z: i32,
    block: BlockType,
    face: Face,
)
    requires
        world.wf(),
    ensures
        final(out)@ == old(out)@ + face_quad(*world, x as int, y as int, z as int, block, face),
{
    if geometry_on(block, face) && should_render_face(world, x, y, z, face) {
        out.push(make_vertex(face, 0, x, y, z, block));
        out.push(make_vertex(face, 1, x, y, z, block));
        out.push(make_vertex(face, 2, x, y, z, block));
        out.push(make_vertex(face, 3, x, y, z, block));
        assert(out@ =~= old(out)@ + quad(face, x as int, y as int, z as int, block));
    } else {
        assert(out@ =~= old(out)@ + face_quad(*world, x as int, y as int, z as int, block, face));
    }
}

/// The corners of every emitted face of the block of kind `block_type` at
/// world coordinates `(world_x, world_y, world_z)`, four per face, faces in
/// the order front, back, top, bottom, right, left.
pub fn generate_cube_vertices(
    world: &World,
    world_x: i32,
    world_y: i32,
    world_z: i32,
    block_type: BlockType,
) -> (r: Vec<Vertex>)
    requires
        world.wf(),
    ensures
        r@ == cube_vertices(*world, world_x as int, world_y as int, world_z as int, block_type),
{
    let mut vertices: Vec<Vertex> = Vec::new();
    push_face(&mut vertices, world, world_x, world_y, world_z, block_type, Face::Front);
    push_face(&mut vertices, world, world_x, world_y, world_z, block_type, Face::Back);
    push_face(&mut vertices, world, world_x, world_y, world_z, block_type, Face::Top);
    push_face(&mut vertices, world, world_x, world_y, world_z, block_type, Face::Bottom);
    push_face(&mut vertices, world, world_x, world_y, world_z, block_type, Face::Right);
    push_face(&mut vertices, world, world_x, world_y, world_z, block_type, Face::Left);
    reveal(cube_vertices);
    assert(vertices@ =~= cube_vertices(
        *world,
        world_x as int,
        world_y as int,
        world_z as int,
        block_type,
    ));
    vertices
}

/// Two triangles for each group of four vertices, the vertices numbered from
/// `vertex_offset`: `(b, b+1, b+2)` and `(b+2, b+3, b)`. A last group of fewer
/// than four vertices still gets its two triangles.
pub fn generate_indices_for_vertices(vertex_offset: u32, vertex_count: u32) -> (r: Vec<TriIndexes>)
    requires
        vertex_count == 0 || vertex_offset + 4 * quad_count(vertex_count as int) <= 0x1_0000_0000,
    ensures
        r@ == triangles_for(vertex_offset as int, vertex_count as int),
{
    let mut indices: Vec<TriIndexes> = Vec::new();
    let quads: u64 = (vertex_count as u64 + 3) / 4;
    let mut q: u64 = 0;
    while q < quads
        invariant
            quads == quad_count(vertex_count as int),
            q <= quads,
            vertex_count == 0 || vertex_offset + 4 * quads <= 0x1_0000_0000,
            indices@.len() == 2 * q,
            forall|j: int|
                0 <= j < indices@.len() ==> #[trigger] indices@[j] == triangle(
                    vertex_offset as int,
                    j,
                ),
        decreases quads - q,
    {
        let b = vertex_offset as u64 + 4 * q;
        proof {
            assert((2 * q) as int / 2 == q);
            assert((2 * q + 1) as int / 2 == q);
            assert((2 * q) as int % 2 == 0);
            assert((2 * q + 1) as int % 2 == 1);
        }
        indices.push((b as u32, (b + 1) as u32, (b + 2) as u32));
        indices.push(((b + 2) as u32, (b + 3) as u32, b as u32));
        q = q + 1;
    }
    assert(indices@ =~= triangles_for(vertex_offset as int, vertex_count as int));
    indices
}

/// Whether any face of the block at world coordinates `(x, y, z)` is drawn.
pub open spec fn block_exposed(world: World, x: int, y: int, z: int) -> bool {
    ||| face_shown(world, x, y, z, Face::Front)
    ||| face_shown(world, x, y, z, Face::Back)
    ||| face_shown(world, x, y, z, Face::Top)
    ||| face_shown(world, x, y, z, Face::Bottom)
    ||| face_shown(world, x, y, z, Face::Right)
    ||| face_shown(world, x, y, z, Face::Left)
}

/// World coordinates of the block at local `p` in the chunk at `position`.
pub open spec fn block_world(position: (i32, i32, i32), p: BlockPosition) -> (int, int, int) {
    (
        world_of(position.0 as int, p.x as int),
        world_of(position.1 as int, p.y as int),
        world_of(position.2 as int, p.z as int),
    )
}

/// Local coordinates of the block at flat position `i`.
pub open spec fn position_of(i: int) -> BlockPosition {
    BlockPosition { x: index_x(i) as usize, y: index_y(i) as usize, z: index_z(i) as usize }
}

/// The entry of the visible-block list for flat position `i` of `blocks`:
/// one entry if the block is not air and shows a face, else none.
pub open spec fn scan_entry(
    blocks: Seq<BlockType>,
    position: (i32, i32, i32),
    world: World,
    i: int,
) -> Seq<(BlockPosition, BlockType)> {
    let w = block_world(position, position_of(i));
    if blocks[i] != BlockType::Air && block_exposed(world, w.0, w.1, w.2) {
        seq![(position_of(i), blocks[i])]
    } else {
        seq![]
    }
}

/// The visible blocks among the first `n` flat positions, in scan order.
pub open spec fn visible_scan(
    blocks: Seq<BlockType>,
    position: (i32, i32, i32),
    world: World,
    n: int,
) -> Seq<(BlockPosition, BlockType)>
    decreases n,
{
    if n <= 0 {
        seq![]
    } else {
        visible_scan(blocks, position, world, n - 1) + scan_entry(blocks, position, world, n - 1)
    }
}

/// The vertices of the blocks of `visible`, block after block.
pub open spec fn mesh_vertices(
    visible: Seq<(BlockPosition, BlockType)>,
    position: (i32, i32, i32),
    world: World,
) -> Seq<Vertex>
    decreases visible.len(),
{
    if visible.len() == 0 {
        seq![]
    } else {
        let last = visible.last();
        let w = block_world(position, last.0);
        mesh_vertices(visible.drop_last(), position, world) + cube_vertices(
            world,
            w.0,
            w.1,
            w.2,
            last.1,
        )
    }
}

/// The triangles of the blocks of `visible`, each block's numbered from the
/// count of vertices before it.
pub open spec fn mesh_indices(
    visible: Seq<(BlockPosition, BlockType)>,
    position: (i32, i32, i32),
    world: World,
) -> Seq<TriIndexes>
    decreases visible.len(),
{
    if visible.len() == 0 {
        seq![]
    } else {
        let last = visible.last();
        let w = block_world(position, last.0);
        mesh_indices(visible.drop_last(), position, world) + triangles_for(
            mesh_vertices(visible.drop_last(), position, world).len() as int,
            cube_vertices(world, w.0, w.1, w.2, last.1).len() as int,
        )
    }
}

/// Every entry of `visible` names a cell of a chunk.
pub open spec fn local_positions(visible: Seq<(BlockPosition, BlockType)>) -> bool {
    forall|j: int|
        0 <= j < visible.len() ==> #[trigger] visible[j].0.x < 16 && visible[j].0.y < 16
            && visible[j].0.z < 16
}

/// A block emits a whole number of quads, at most six.
pub proof fn lemma_cube_len(world: World, x: int, y: int, z: int, block: BlockType)
    ensures
        cube_vertices(world, x, y, z, block).len() % 4 == 0,
        cube_vertices(world, x, y, z, block).len() <= 24,
{
    reveal(cube_vertices);
}

/// The scan yields at most one entry per position, each naming a cell.
proof fn lemma_visible_scan(
    blocks: Seq<BlockType>,
    position: (i32, i32, i32),
    world: World,
    n: int,
)
    requires
        0 <= n <= CHUNK_VOLUME,
    ensures
        visible_scan(blocks, position, world, n).len() <= n,
        local_positions(visible_scan(blocks, position, world, n)),
    decreases n,
{
    if n > 0 {
        lemma_visible_scan(blocks, position, world, n - 1);
        lemma_index_coords(n - 1);
        let s = visible_scan(blocks, position, world, n);
        let p = visible_scan(blocks, position, world, n - 1);
        let e = scan_entry(blocks, position, world, n - 1);
        assert(s == p + e);
        assert forall|j: int| 0 <= j < s.len() implies #[trigger] s[j].0.x < 16 && s[j].0.y < 16
            && s[j].0.z < 16 by {
            if j < p.len() {
                assert(s[j] == p[j]);
            } else {
                assert(s[j] == e[j - p.len()]);
                assert(e[j - p.len()].0 == position_of(n - 1));
            }
        }
    }
}

/// Lists, in scan order, the blocks of `blocks` that are not air and show at
/// least one face in `world`.
fn scan_visible(blocks: &Vec<BlockType>, position: (i32, i32, i32), world: &World) -> (r: Vec<
    (BlockPosition, BlockType),
>)
    requires
        blocks@.len() == CHUNK_VOLUME,
        valid_position(position),
        world.wf(),
    ensures
        r@ == visible_scan(blocks@, position, *world, CHUNK_VOLUME as int),
{
    let mut visible: Vec<(BlockPosition, BlockType)> = Vec::new();
    let mut i: usize = 0;
    while i < CHUNK_VOLUME
        invariant
            i <= CHUNK_VOLUME,
            blocks@.len() == CHUNK_VOLUME,
            valid_position(position),
            world.wf(),
            visible@ == visible_scan(blocks@, position, *world, i as int),
        decreases CHUNK_VOLUME - i,
    {
        proof {
            lemma_index_coords(i as int);
        }
        let block_type = blocks[i];
        let p = BlockPosition { x: i / 256, y: (i / 16) % 16, z: i % 16 };
        if block_type != BlockType::Air {
            let world_x = world_coord(position.0, p.x);
            let world_y = world_coord(position.1, p.y);
            let world_z = world_coord(position.2, p.z);
            if should_render_face(world, world_x, world_y, world_z, Face::Front)
                || should_render_face(world, world_x, world_y, world_z, Face::Back)
                || should_render_face(world, world_x, world_y, world_z, Face::Top)
                || should_render_face(world, world_x, world_y, world_z, Face::Bottom)
                || should_render_face(world, world_x, world_y, world_z, Face::Right)
                || should_render_face(world, world_x, world_y, world_z, Face::Left) {
                visible.push((p, block_type));
            }
        }
        proof {
            assert(visible@ =~= visible_scan(blocks@, position, *world, i + 1));
        }
        i = i + 1;
    }
    visible
}

/// Appends the quads of the block of kind `block` at world coordinates
/// `(x, y, z)` to `vertices`, and their triangles, numbered after the
/// vertices already there, to `indices`.
fn append_block_mesh(
    vertices: &mut Vec<Vertex>,
    indices: &mut Vec<TriIndexes>,
    world: &World,
    x: i32,
    y: i32,
    z: i32,
    block: BlockType,
)
    requires
        old(vertices)@.len() <= 24 * CHUNK_VOLUME,
        indices_below(old(indices)@, old(vertices)@.len() as int),
        world.wf(),
    ensures
        final(vertices)@ == old(vertices)@ + cube_vertices(*world, x as int, y as int, z as int, block),
        final(indices)@ == old(indices)@ + triangles_for(
            old(vertices)@.len() as int,
            cube_vertices(*world, x as int, y as int, z as int, block).len() as int,
        ),
        final(vertices)@.len() <= old(vertices)@.len() + 24,
        indices_below(final(indices)@, final(vertices)@.len() as int),
{
    let mut cube = generate_cube_vertices(world, x, y, z, block);
    let ghost before = vertices@;
    let ghost cube_seq = cube@;
    proof {
        lemma_cube_len(*world, x as int, y as int, z as int, block);
    }
    if cube.len() > 0 {
        let tris_offset = vertices.len() as u32;
        let mut tris = generate_indices_for_vertices(tris_offset, cube.len() as u32);
        proof {
            let n = cube_seq.len() as int;
            assert(quad_count(n) * 4 == n);
            assert forall|k: int| 0 <= k < tris@.len() implies #[trigger] tris@[k].0 < before.len() + n
                && tris@[k].1 < before.len() + n && tris@[k].2 < before.len() + n by {
                assert(tris@[k] == triangle(tris_offset as int, k));
                assert(k / 2 < quad_count(n));
            }
        }
        vertices.append(&mut cube);
        let ghost old_indices = indices@;
        let ghost tris_seq = tris@;
        indices.append(&mut tris);
        proof {
            assert forall|k: int| 0 <= k < indices@.len() implies #[trigger] indices@[k].0
                < vertices@.len() && indices@[k].1 < vertices@.len() && indices@[k].2
                < vertices@.len() by {
                if k >= old_indices.len() {
                    let m = k - old_indices.len();
                    assert(indices@[k] == tris_seq[m]);
                }
            }
        }
    } else {
        proof {
            assert(indices@ =~= indices@ + triangles_for(vertices@.len() as int, 0));
            assert(vertices@ =~= vertices@ + cube_seq);
        }
    }
}

/// Builds the vertices and triangles of the blocks of `visible`, block after
/// block, with each block's triangles numbered after the vertices before it.
fn mesh_visible(
    visible: &Vec<(BlockPosition, BlockType)>,
    position: (i32, i32, i32),
    world: &World,
) -> (r: (Vec<Vertex>, Vec<TriIndexes>))
    requires
        visible@.len() <= CHUNK_VOLUME,
        local_positions(visible@),
        valid_position(position),
        world.wf(),
    ensures
        r.0@ == mesh_vertices(visible@, position, *world),
        r.1@ == mesh_indices(visible@, position, *world),
        r.0@.len() <= 24 * visible@.len(),
        indices_below(r.1@, r.0@.len() as int),
{
    let mut vertices: Vec<Vertex> = Vec::new();
    let mut indices: Vec<TriIndexes> = Vec::new();
    let mut j: usize = 0;
    while j < visible.len()
        invariant
            j <= visible@.len() <= CHUNK_VOLUME,
            local_positions(visible@),
            valid_position(position),
            world.wf(),
            vertices@ == mesh_vertices(visible@.take(j as int), position, *world),
            indices@ == mesh_indices(visible@.take(j as int), position, *world),
            vertices@.len() <= 24 * j,
            indices_below(indices@, vertices@.len() as int),
        decreases visible@.len() - j,
    {
        let (p, block_type) = visible[j];
        let world_x = world_coord(position.0, p.x);
        let world_y = world_coord(position.1, p.y);
        let world_z = world_coord(position.2, p.z);
        proof {
            let t = visible@.take(j + 1);
            assert(t.drop_last() =~= visible@.take(j as int));
            assert(t.last() == visible@[j as int]);
        }
        append_block_mesh(&mut vertices, &mut indices, world, world_x, world_y, world_z, block_type);
        j = j + 1;
    }
    proof {
        assert(visible@.take(visible@.len() as int) =~= visible@);
    }
    (vertices, indices)
}

/// The geometry of `c` is the one built from its blocks against `world`.
pub open spec fn meshed(c: Chunk, world: World) -> bool {
    &&& c.visible_blocks@ == visible_scan(c.blocks@, c.position, world, CHUNK_VOLUME as int)
    &&& c.vertices@ == mesh_vertices(c.visible_blocks@, c.position, world)
    &&& c.indices@ == mesh_indices(c.visible_blocks@, c.position, world)
}

/// Builds the visible-block list, the vertices and the triangles of a chunk
/// at `position` holding `blocks`, with faces judged against `world`.
pub(crate) fn build_mesh(blocks: &Vec<BlockType>, position: (i32, i32, i32), world: &World) -> (r: (
    Vec<(BlockPosition, BlockType)>,
    Vec<Vertex>,
    Vec<TriIndexes>,
))
    requires
        blocks@.len() == CHUNK_VOLUME,
        valid_position(position),
        world.wf(),
    ensures
        r.0@ == visible_scan(blocks@, position, *world, CHUNK_VOLUME as int),
        r.1@ == mesh_vertices(r.0@, position, *world),
        r.2@ == mesh_indices(r.0@, position, *world),
        r.1@.len() <= 24 * CHUNK_VOLUME,
        indices_below(r.2@, r.1@.len() as int),
{
    let visible = scan_visible(blocks, position, world);
    proof {
        lemma_visible_scan(blocks@, position, *world, CHUNK_VOLUME as int);
    }
    let (vertices, indices) = mesh_visible(&visible, position, world);
    (visible, vertices, indices)
}

/// Two worlds that hold the same block at every coordinate.
pub open spec fn same_blocks(a: World, b: World) -> bool {
    forall|x: int, y: int, z: int| #[trigger] a.block_at(x, y, z) == b.block_at(x, y, z)
}

/// Geometry depends on a world only through its blocks.
pub proof fn lemma_mesh_same_blocks(
    a: World,
    b: World,
    blocks: Seq<BlockType>,
    position: (i32, i32, i32),
)
    requires
        same_blocks(a, b),
    ensures
        visible_scan(blocks, position, a, CHUNK_VOLUME as int) == visible_scan(
            blocks,
            position,
            b,
            CHUNK_VOLUME as int,
        ),
        forall|visible: Seq<(BlockPosition, BlockType)>|
            #![trigger mesh_vertices(visible, position, a)]
            mesh_vertices(visible, position, a) == mesh_vertices(visible, position, b)
                && mesh_indices(visible, position, a) == mesh_indices(visible, position, b),
{
    assert forall|x: int, y: int, z: int, block: BlockType|
        #![trigger cube_vertices(a, x, y, z, block)]
        cube_vertices(a, x, y, z, block) == cube_vertices(b, x, y, z, block) by {
        reveal(cube_vertices);
    }
    lemma_scan_same_blocks(a, b, blocks, position, CHUNK_VOLUME as int);
    assert forall|visible: Seq<(BlockPosition, BlockType)>|
        #![trigger mesh_vertices(visible, position, a)]
        mesh_vertices(visible, position, a) == mesh_vertices(visible, position, b) && mesh_indices(
            visible,
            position,
            a,
        ) == mesh_indices(visible, position, b) by {
        lemma_list_same_blocks(a, b, visible, position);
    }
}

proof fn lemma_scan_same_blocks(
    a: World,
    b: World,
    blocks: Seq<BlockType>,
    position: (i32, i32, i32),
    n: int,
)
    requires
        same_blocks(a, b),
    ensures
        visible_scan(blocks, position, a, n) == visible_scan(blocks, position, b, n),
    decreases n,
{
    if n > 0 {
        lemma_scan_same_blocks(a, b, blocks, position, n - 1);
        assert(scan_entry(blocks, position, a, n - 1) == scan_entry(blocks, position, b, n - 1));
    }
}

proof fn lemma_list_same_blocks(
    a: World,
    b: World,
    visible: Seq<(BlockPosition, BlockType)>,
    position: (i32, i32, i32),
)
    requires
        same_blocks(a, b),
        forall|x: int, y: int, z: int, block: BlockType|
            #![trigger cube_vertices(a, x, y, z, block)]
            cube_vertices(a, x, y, z, block) == cube_vertices(b, x, y, z, block),
    ensures
        mesh_vertices(visible, position, a) == mesh_vertices(visible, position, b),
        mesh_indices(visible, position, a) == mesh_indices(visible, position, b),
    decreases visible.len(),
{
    if visible.len() > 0 {
        lemma_list_same_blocks(a, b, visible.drop_last(), position);
        let w = block_world(position, visible.last().0);
        assert(cube_vertices(a, w.0, w.1, w.2, visible.last().1) == cube_vertices(
            b,
            w.0,
            w.1,
            w.2,
            visible.last().1,
        ));
    }
}

impl Chunk {
    /// Rebuilds the chunk's geometry from scratch: the visible blocks are the
    /// blocks that are not air and show a face, in scan order; each emits the
    /// quads of its drawn faces, and its triangles follow. Faces are judged
    /// against `world`, so neighbours in other chunks count, and chunks that
    /// are not stored count as air. The blocks are left as they were.
    pub fn update(&mut self, world: &World)
        requires
            old(self).wf(),
            world.wf(),
        ensures
            final(self).wf(),
            final(self).position == old(self).position,
            final(self).blocks == old(self).blocks,
            meshed(*final(self), *world),
    {
        let (visible, vertices, indices) = build_mesh(&self.blocks, self.position, world);
        self.vertex_count = vertices.len() as u32;
        self.visible_blocks = visible;
        self.vertices = vertices;
        self.indices = indices;
    }
}

} // verus!
