use vstd::prelude::*;
use std::collections::HashMap;
use crate::block::{face_visible, is_face_visible, BlockType, Face};
use crate::chunk::{valid_position, Chunk};
use crate::coords::{local_index, valid_chunk_coord};
use crate::mesh::{build_mesh, lemma_mesh_same_blocks, meshed, same_blocks, TriIndexes, Vertex};

verus! {

broadcast use vstd::std_specs::hash::group_hash_axioms;

/// Key under which the chunk at chunk coordinates `p` is stored: the three
/// coordinates as 32-bit digits of one integer.
pub open spec fn chunk_key(p: (int, int, int)) -> int {
    p.0 * 0x1_0000_0000_0000_0000 + (p.1 + 0x8000_0000) * 0x1_0000_0000 + (p.2 + 0x8000_0000)
}

/// Chunk coordinates of `p` as integers.
pub open spec fn coords_of(p: (i32, i32, i32)) -> (int, int, int) {
    (p.0 as int, p.1 as int, p.2 as int)
}

/// Chunk coordinates whose blocks have world coordinates that fit in `i32`.
pub open spec fn valid_coords(c: (int, int, int)) -> bool {
    valid_chunk_coord(c.0) && valid_chunk_coord(c.1) && valid_chunk_coord(c.2)
}

/// Distinct valid chunk coordinates have distinct keys.
proof fn lemma_key_injective(a: (int, int, int), b: (int, int, int))
    requires
        valid_coords(a),
        valid_coords(b),
        chunk_key(a) == chunk_key(b),
    ensures
        a == b,
{
    let ha = a.0 * 0x1_0000_0000 + (a.1 + 0x8000_0000);
    let hb = b.0 * 0x1_0000_0000 + (b.1 + 0x8000_0000);
    assert((ha - hb) * 0x1_0000_0000 == (b.2 + 0x8000_0000) - (a.2 + 0x8000_0000));
    assert(ha == hb);
    assert((a.0 - b.0) * 0x1_0000_0000 == (b.1 + 0x8000_0000) - (a.1 + 0x8000_0000));
}

/// Every chunk of the world, keyed by its chunk coordinates, and the order in
/// which they were first added.
pub struct World {
    chunks: HashMap<i128, Chunk>,
    order: Vec<(i32, i32, i32)>,
}

impl World {
    /// Each stored chunk is well formed and sits under the key of its own
    /// position; `order` lists each stored position exactly once.
    pub closed spec fn wf(&self) -> bool {
        &&& forall|k: i128| #[trigger]
            self.chunks@.contains_key(k) ==> {
                &&& self.chunks@[k].wf()
                &&& chunk_key(coords_of(self.chunks@[k].position)) == k as int
            }
        &&& forall|i: int|
            0 <= i < self.order@.len() ==> {
                &&& valid_position(#[trigger] self.order@[i])
                &&& self.chunks@.contains_key(chunk_key(coords_of(self.order@[i])) as i128)
            }
        &&& forall|i: int, j: int|
            0 <= i < j < self.order@.len() ==> #[trigger] self.order@[i] != #[trigger] self.order@[j]
        &&& self.all_listed()
    }

    /// Every stored chunk's key comes from an entry of `order`.
    #[verifier::opaque]
    closed spec fn all_listed(&self) -> bool {
        forall|k: i128| #[trigger]
            self.chunks@.contains_key(k) ==> exists|i: int|
                0 <= i < self.order@.len() && chunk_key(coords_of(#[trigger] self.order@[i])) == k as int
    }

    /// Whether a chunk is stored at chunk coordinates `c`.
    pub closed spec fn has_chunk(&self, c: (int, int, int)) -> bool {
        valid_coords(c) && self.chunks@.contains_key(chunk_key(c) as i128)
    }

    /// The chunk stored at chunk coordinates `c`.
    pub closed spec fn chunk(&self, c: (int, int, int)) -> Chunk {
        self.chunks@[chunk_key(c) as i128]
    }

    /// Positions of the stored chunks, in the order they were first added.
    pub closed spec fn positions(&self) -> Seq<(i32, i32, i32)> {
        self.order@
    }

    /// The block at world coordinates `(x, y, z)`: the chunk is found by
    /// Euclidean division by the chunk size and the cell by the remainder;
    /// where no chunk is stored the block is air.
    pub open spec fn block_at(&self, x: int, y: int, z: int) -> BlockType {
        if self.has_chunk((x / 16, y / 16, z / 16)) {
            self.chunk((x / 16, y / 16, z / 16)).block_at(x % 16, y % 16, z % 16)
        } else {
            BlockType::Air
        }
    }

    /// Facts that every well-formed world offers its users.
    pub proof fn lemma_wf(&self)
        requires
            self.wf(),
        ensures
            forall|c: (int, int, int)| #[trigger]
                self.has_chunk(c) ==> {
                    &&& self.chunk(c).wf()
                    &&& coords_of(self.chunk(c).position) == c
                },
            forall|i: int|
                0 <= i < self.positions().len() ==> #[trigger] self.has_chunk(
                    coords_of(self.positions()[i]),
                ),
            forall|i: int, j: int|
                0 <= i < j < self.positions().len() ==> #[trigger] self.positions()[i]
                    != #[trigger] self.positions()[j],
            forall|c: (int, int, int)| #[trigger]
                self.has_chunk(c) ==> exists|i: int|
                    0 <= i < self.positions().len() && coords_of(#[trigger] self.positions()[i])
                        == c,
    {
        assert forall|c: (int, int, int)| #[trigger] self.has_chunk(c) implies {
            &&& self.chunk(c).wf()
            &&& coords_of(self.chunk(c).position) == c
        } by {
            let k = chunk_key(c) as i128;
            assert(self.chunks@.contains_key(k));
            lemma_key_injective(coords_of(self.chunk(c).position), c);
        }
        assert forall|i: int| 0 <= i < self.positions().len() implies #[trigger] self.has_chunk(
            coords_of(self.positions()[i]),
        ) by {
            assert(valid_position(self.order@[i]));
        }
        reveal(World::all_listed);
        assert forall|c: (int, int, int)| #[trigger] self.has_chunk(c) implies exists|i: int|
            0 <= i < self.positions().len() && coords_of(#[trigger] self.positions()[i]) == c by {
            let k = chunk_key(c) as i128;
            assert(self.chunks@.contains_key(k));
            let i = choose|i: int|
                0 <= i < self.order@.len() && chunk_key(coords_of(#[trigger] self.order@[i]))
                    == k as int;
            assert(valid_position(self.order@[i]));
            lemma_key_injective(coords_of(self.order@[i]), c);
            assert(self.positions()[i] == self.order@[i]);
            assert(0 <= i < self.positions().len() && coords_of(self.positions()[i]) == c);
        }
    }

    /// A world without chunks.
    pub fn new() -> (r: World)
        ensures
            r.wf(),
            forall|c: (int, int, int)| !r.has_chunk(c),
            r.positions().len() == 0,
    {
        let w = World { chunks: HashMap::new(), order: Vec::new() };
        proof {
            reveal(World::all_listed);
        }
        w
    }

    /// Stores `chunk` under its own position, replacing any chunk that was
    /// there.
    pub fn add_chunk(&mut self, chunk: Chunk)
        requires
            old(self).wf(),
            chunk.wf(),
        ensures
            final(self).wf(),
            forall|c: (int, int, int)| #[trigger]
                final(self).has_chunk(c) == (c == coords_of(chunk.position) || old(self).has_chunk(c)),
            forall|c: (int, int, int)| #[trigger]
                final(self).has_chunk(c) ==> final(self).chunk(c) == if c == coords_of(chunk.position) {
                    chunk
                } else {
                    old(self).chunk(c)
                },
            old(self).has_chunk(coords_of(chunk.position)) ==> final(self).positions() == old(
                self,
            ).positions(),
            !old(self).has_chunk(coords_of(chunk.position)) ==> final(self).positions() == old(
                self,
            ).positions().push(chunk.position),
    {
        let position = chunk.position;
        let key = key_of(position);
        let replaced = self.chunks.insert(key, chunk);
        if replaced.is_none() {
            proof {
                assert forall|i: int| 0 <= i < self.order@.len() implies #[trigger] self.order@[i]
                    != position by {
                    assert(old(self).chunks@.contains_key(
                        chunk_key(coords_of(self.order@[i])) as i128,
                    ));
                }
            }
            self.order.push(position);
        }
        proof {
            let pc = coords_of(position);
            assert forall|c: (int, int, int)| #[trigger]
                self.has_chunk(c) == (c == pc || old(self).has_chunk(c)) by {
                if valid_coords(c) && chunk_key(c) as i128 == key {
                    lemma_key_injective(c, pc);
                }
            }
            assert forall|c: (int, int, int)| #[trigger] self.has_chunk(c) implies self.chunk(c)
                == if c == pc {
                chunk
            } else {
                old(self).chunk(c)
            } by {
                if c != pc {
                    if chunk_key(c) as i128 == key {
                        lemma_key_injective(c, pc);
                    }
                }
            }
            reveal(World::all_listed);
            assert forall|k: i128| #[trigger] self.chunks@.contains_key(k) implies exists|i: int|
                0 <= i < self.order@.len() && chunk_key(coords_of(#[trigger] self.order@[i]))
                    == k as int by {
                if k == key {
                    if replaced.is_none() {
                        assert(self.order@[self.order@.len() - 1] == position);
                    } else {
                        assert(old(self).chunks@.contains_key(k));
                    }
                } else {
                    assert(old(self).chunks@.contains_key(k));
                    let i = choose|i: int|
                        0 <= i < old(self).order@.len() && chunk_key(
                            coords_of(#[trigger] old(self).order@[i]),
                        ) == k as int;
                    assert(self.order@[i] == old(self).order@[i]);
                }
            }
        }
    }

    /// Rebuilds the geometry of the chunk at `position` against this world
    /// (see `Chunk::update`); does nothing where no chunk is stored there.
    pub fn update_chunk(&mut self, position: (i32, i32, i32))
        requires
            old(self).wf(),
        ensures
            final(self).wf(),
            final(self).positions() == old(self).positions(),
            same_blocks(*final(self), *old(self)),
            forall|c: (int, int, int)| #[trigger] final(self).has_chunk(c) == old(self).has_chunk(c),
            forall|c: (int, int, int)|
                old(self).has_chunk(c) && c != coords_of(position) ==> #[trigger] final(self).chunk(c)
                    == old(self).chunk(c),
            old(self).has_chunk(coords_of(position)) ==> {
                let after = final(self).chunk(coords_of(position));
                let before = old(self).chunk(coords_of(position));
                &&& after.blocks == before.blocks
                &&& after.position == before.position
                &&& meshed(after, *old(self))
            },
    {
        let key = key_of(position);
        let built = match self.chunks.get(&key) {
            Some(chunk) => Some(build_mesh(&chunk.blocks, chunk.position, self)),
            None => None,
        };
        if let Some((visible, vertices, indices)) = built {
            proof {
                self.lemma_wf();
            }
            let removed = self.chunks.remove(&key);
            if let Some(mut chunk) = removed {
                chunk.vertex_count = vertices.len() as u32;
                chunk.visible_blocks = visible;
                chunk.vertices = vertices;
                chunk.indices = indices;
                let ghost stored = chunk;
                self.chunks.insert(key, chunk);
                proof {
                    assert(self.chunks@ =~= old(self).chunks@.insert(key, stored));
                    World::lemma_replace_chunk(*old(self), *self, position, stored);
                }
            }
        }
    }

    /// Replacing a stored chunk by one with the same position and blocks keeps
    /// the world well formed and its blocks as they were.
    proof fn lemma_replace_chunk(before: World, after: World, position: (i32, i32, i32), chunk: Chunk)
        requires
            before.wf(),
            chunk.wf(),
            before.chunks@.contains_key(chunk_key(coords_of(position)) as i128),
            after.chunks@ == before.chunks@.insert(chunk_key(coords_of(position)) as i128, chunk),
            after.order == before.order,
            chunk.blocks == before.chunks@[chunk_key(coords_of(position)) as i128].blocks,
            chunk.position == before.chunks@[chunk_key(coords_of(position)) as i128].position,
        ensures
            after.wf(),
            same_blocks(after, before),
            forall|c: (int, int, int)| #[trigger] after.has_chunk(c) == before.has_chunk(c),
            forall|c: (int, int, int)|
                before.has_chunk(c) && c != coords_of(position) ==> #[trigger] after.chunk(c)
                    == before.chunk(c),
            before.has_chunk(coords_of(position)),
            after.chunk(coords_of(position)) == chunk,
    {
        let pc = coords_of(position);
        let key = chunk_key(pc) as i128;
        assert(chunk_key(coords_of(before.chunks@[key].position)) == key as int);
        assert(valid_position(chunk.position));
        lemma_key_injective(coords_of(chunk.position), pc);
        World::lemma_replace_keeps_wf(before, after, key, chunk);
        World::lemma_replace_keeps_blocks(before, after, pc, chunk);
    }

    proof fn lemma_replace_keeps_blocks(before: World, after: World, pc: (int, int, int), chunk: Chunk)
        requires
            valid_coords(pc),
            before.chunks@.contains_key(chunk_key(pc) as i128),
            after.chunks@ == before.chunks@.insert(chunk_key(pc) as i128, chunk),
            chunk.blocks == before.chunks@[chunk_key(pc) as i128].blocks,
        ensures
            same_blocks(after, before),
            forall|c: (int, int, int)| #[trigger] after.has_chunk(c) == before.has_chunk(c),
            forall|c: (int, int, int)|
                before.has_chunk(c) && c != pc ==> #[trigger] after.chunk(c) == before.chunk(c),
    {
        let key = chunk_key(pc) as i128;
        assert forall|c: (int, int, int)|
            before.has_chunk(c) && c != pc implies #[trigger] after.chunk(c) == before.chunk(c) by {
            if chunk_key(c) as i128 == key {
                lemma_key_injective(c, pc);
            }
        }
        assert forall|x: int, y: int, z: int| #[trigger]
            after.block_at(x, y, z) == before.block_at(x, y, z) by {
            let c = (x / 16, y / 16, z / 16);
            if before.has_chunk(c) && chunk_key(c) as i128 == key {
                lemma_key_injective(c, pc);
            }
        }
    }

    proof fn lemma_replace_keeps_wf(before: World, after: World, key: i128, chunk: Chunk)
        requires
            before.wf(),
            chunk.wf(),
            before.chunks@.contains_key(key),
            after.chunks@ == before.chunks@.insert(key, chunk),
            after.order == before.order,
            chunk_key(coords_of(chunk.position)) == key as int,
        ensures
            after.wf(),
    {
        reveal(World::all_listed);
        assert forall|k: i128| #[trigger] after.chunks@.contains_key(k) implies exists|i: int|
            0 <= i < after.order@.len() && chunk_key(coords_of(#[trigger] after.order@[i]))
                == k as int by {
            assert(before.chunks@.contains_key(k));
        }
    }

    /// Rebuilds the geometry of every stored chunk, in the order the chunks
    /// were added. Blocks do not change, so each chunk ends up meshed against
    /// the finished world.
    pub fn update_all(&mut self)
        requires
            old(self).wf(),
        ensures
            final(self).wf(),
            final(self).positions() == old(self).positions(),
            same_blocks(*final(self), *old(self)),
            forall|c: (int, int, int)| #[trigger] final(self).has_chunk(c) == old(self).has_chunk(c),
            forall|c: (int, int, int)| #[trigger]
                old(self).has_chunk(c) ==> {
                    let after = final(self).chunk(c);
                    &&& after.blocks == old(self).chunk(c).blocks
                    &&& after.position == old(self).chunk(c).position
                    &&& meshed(after, *final(self))
                },
    {
        proof {
            old(self).lemma_wf();
        }
        let mut i: usize = 0;
        while i < self.order.len()
            invariant
                self.wf(),
                i <= self.order@.len(),
                self.order@ == old(self).order@,
                same_blocks(*self, *old(self)),
                forall|c: (int, int, int)| #[trigger] self.has_chunk(c) == old(self).has_chunk(c),
                forall|c: (int, int, int)| #[trigger]
                    old(self).has_chunk(c) ==> self.chunk(c).blocks == old(self).chunk(c).blocks
                        && self.chunk(c).position == old(self).chunk(c).position,
                forall|k: int|
                    0 <= k < i ==> meshed(
                        #[trigger] self.chunk(coords_of(self.order@[k])),
                        *old(self),
                    ),
            decreases self.order@.len() - i,
        {
            let position = self.order[i];
            let ghost before = *self;
            proof {
                before.lemma_wf();
            }
            self.update_chunk(position);
            proof {
                let pc = coords_of(position);
                let c = self.chunk(pc);
                lemma_mesh_same_blocks(before, *old(self), c.blocks@, c.position);
                assert forall|k: int| 0 <= k < i + 1 implies meshed(
                    #[trigger] self.chunk(coords_of(self.order@[k])),
                    *old(self),
                ) by {
                    if k < i {
                        assert(self.order@[k] != self.order@[i as int]);
                        assert(coords_of(self.order@[k]) != pc);
                    }
                }
            }
            i = i + 1;
        }
        proof {
            old(self).lemma_wf();
            assert forall|c: (int, int, int)| #[trigger] old(self).has_chunk(c) implies meshed(
                self.chunk(c),
                *self,
            ) by {
                let k = choose|k: int|
                    0 <= k < old(self).positions().len() && coords_of(
                        #[trigger] old(self).positions()[k],
                    ) == c;
                assert(meshed(self.chunk(coords_of(self.order@[k])), *old(self)));
                lemma_mesh_same_blocks(*old(self), *self, self.chunk(c).blocks@, self.chunk(c).position);
            }
        }
    }

    /// The block at world coordinates `(x, y, z)`; air where no chunk is
    /// stored.
    pub fn get_block(&self, world_x: i32, world_y: i32, world_z: i32) -> (r: BlockType)
        requires
            self.wf(),
        ensures
            r == self.block_at(world_x as int, world_y as int, world_z as int),
    {
        let chunk_x = world_x.checked_div_euclid(16).unwrap();
        let chunk_y = world_y.checked_div_euclid(16).unwrap();
        let chunk_z = world_z.checked_div_euclid(16).unwrap();
        proof {
            assert(valid_chunk_coord(chunk_x as int));
            assert(valid_chunk_coord(chunk_y as int));
            assert(valid_chunk_coord(chunk_z as int));
        }
        let key = key_of((chunk_x, chunk_y, chunk_z));
        match self.chunks.get(&key) {
            Some(chunk) => {
                let lx = world_x.checked_rem_euclid(16).unwrap() as usize;
                let ly = world_y.checked_rem_euclid(16).unwrap() as usize;
                let lz = world_z.checked_rem_euclid(16).unwrap() as usize;
                chunk.blocks[lx * 256 + ly * 16 + lz]
            },
            None => BlockType::Air,
        }
    }
}

/// `tris` with every index moved up by `offset`.
pub open spec fn shifted(tris: Seq<TriIndexes>, offset: int) -> Seq<TriIndexes> {
    Seq::new(
        tris.len(),
        |j: int|
            (
                (tris[j].0 + offset) as u32,
                (tris[j].1 + offset) as u32,
                (tris[j].2 + offset) as u32,
            ),
    )
}

impl World {
    /// The vertices of the first `n` chunks, in the order they were added.
    pub open spec fn joined_vertices(&self, n: int) -> Seq<Vertex>
        decreases n,
    {
        if n <= 0 {
            seq![]
        } else {
            self.joined_vertices(n - 1) + self.chunk(coords_of(self.positions()[n - 1])).vertices@
        }
    }

    /// The triangles of the first `n` chunks, each chunk's moved up by the
    /// number of vertices of the chunks before it.
    pub open spec fn joined_indices(&self, n: int) -> Seq<TriIndexes>
        decreases n,
    {
        if n <= 0 {
            seq![]
        } else {
            self.joined_indices(n - 1) + shifted(
                self.chunk(coords_of(self.positions()[n - 1])).indices@,
                self.joined_vertices(n - 1).len() as int,
            )
        }
    }

    /// Taking more chunks never gives fewer vertices.
    pub proof fn lemma_joined_grows(&self, m: int, n: int)
        requires
            m <= n,
        ensures
            self.joined_vertices(m).len() <= self.joined_vertices(n).len(),
        decreases n - m,
    {
        if m < n {
            self.lemma_joined_grows(m, n - 1);
        }
    }

    /// One vertex buffer and one triangle buffer for the whole world: the
    /// chunks' vertices one chunk after another, in the order the chunks were
    /// added, and their triangles moved up by the number of vertices before
    /// their chunk. `None` when the vertices are too many for 32-bit indices.
    pub fn collect_mesh(&self) -> (r: Option<(Vec<Vertex>, Vec<TriIndexes>)>)
        requires
            self.wf(),
        ensures
            r is None <==> self.joined_vertices(self.positions().len() as int).len() > 0x1_0000_0000,
            r matches Some(m) ==> m.0@ == self.joined_vertices(self.positions().len() as int)
                && m.1@ == self.joined_indices(self.positions().len() as int),
    {
        let mut vertices: Vec<Vertex> = Vec::new();
        let mut indices: Vec<TriIndexes> = Vec::new();
        let mut i: usize = 0;
        while i < self.order.len()
            invariant
                self.wf(),
                i <= self.order@.len(),
                vertices@ == self.joined_vertices(i as int),
                indices@ == self.joined_indices(i as int),
                vertices@.len() <= 0x1_0000_0000,
            decreases self.order@.len() - i,
        {
            let key = key_of(self.order[i]);
            let chunk = match self.chunks.get(&key) {
                Some(c) => c,
                None => return None,
            };
            proof {
                assert(chunk.wf());
                assert(*chunk == self.chunk(coords_of(self.positions()[i as int])));
            }
            let offset: u64 = vertices.len() as u64;
            if offset + chunk.vertices.len() as u64 > 0x1_0000_0000 {
                proof {
                    self.lemma_joined_grows(i + 1, self.order@.len() as int);
                }
                return None;
            }
            let ghost before_v = vertices@;
            let ghost before_i = indices@;
            let mut k: usize = 0;
            while k < chunk.vertices.len()
                invariant
                    k <= chunk.vertices@.len(),
                    vertices@ == before_v + chunk.vertices@.take(k as int),
                decreases chunk.vertices@.len() - k,
            {
                vertices.push(chunk.vertices[k]);
                proof {
                    assert(chunk.vertices@.take(k + 1) =~= chunk.vertices@.take(k as int).push(
                        chunk.vertices@[k as int],
                    ));
                }
                k = k + 1;
            }
            let mut k: usize = 0;
            while k < chunk.indices.len()
                invariant
                    chunk.wf(),
                    offset + chunk.vertices@.len() <= 0x1_0000_0000,
                    offset == before_v.len(),
                    k <= chunk.indices@.len(),
                    indices@ == before_i + shifted(chunk.indices@, offset as int).take(k as int),
                decreases chunk.indices@.len() - k,
            {
                let t = chunk.indices[k];
                proof {
                    assert(chunk.indices@[k as int] == t);
                }
                indices.push(
                    (
                        (t.0 as u64 + offset) as u32,
                        (t.1 as u64 + offset) as u32,
                        (t.2 as u64 + offset) as u32,
                    ),
                );
                proof {
                    assert(shifted(chunk.indices@, offset as int).take(k + 1) =~= shifted(
                        chunk.indices@,
                        offset as int,
                    ).take(k as int).push(shifted(chunk.indices@, offset as int)[k as int]));
                }
                k = k + 1;
            }
            proof {
                assert(chunk.vertices@.take(chunk.vertices@.len() as int) =~= chunk.vertices@);
                assert(shifted(chunk.indices@, offset as int).take(chunk.indices@.len() as int)
                    =~= shifted(chunk.indices@, offset as int));
            }
            i = i + 1;
        }
        Some((vertices, indices))
    }
}

/// Whether the `face` of the block at world coordinates `(x, y, z)` is drawn,
/// judged from that block and its neighbour across the face, both looked up
/// in `world`.
pub open spec fn face_shown(world: World, x: int, y: int, z: int, face: Face) -> bool {
    is_face_visible(
        world.block_at(x, y, z),
        world.block_at(x + face.delta().0, y + face.delta().1, z + face.delta().2),
    )
}

/// The neighbour across `face` of world coordinate `(x, y, z)`, or `None` where
/// that neighbour lies outside the `i32` range, where no chunk can be stored.
fn neighbor(x: i32, y: i32, z: i32, face: Face) -> (r: Option<(i32, i32, i32)>)
    ensures
        r matches Some(n) ==> n.0 == x + face.delta().0 && n.1 == y + face.delta().1 && n.2 == z
            + face.delta().2,
        r is None ==> !valid_coords(
            (
                (x + face.delta().0) / 16,
                (y + face.delta().1) / 16,
                (z + face.delta().2) / 16,
            ),
        ),
{
    let (dx, dy, dz) = face.step();
    match (x.checked_add(dx), y.checked_add(dy), z.checked_add(dz)) {
        (Some(nx), Some(ny), Some(nz)) => Some((nx, ny, nz)),
        _ => None,
    }
}

/// Decides whether the `face` of the block at world coordinates
/// `(world_x, world_y, world_z)` is drawn; neighbours in chunks that are not
/// stored count as air.
pub fn should_render_face(world: &World, world_x: i32, world_y: i32, world_z: i32, face: Face) -> (r:
    bool)
    requires
        world.wf(),
    ensures
        r == face_shown(*world, world_x as int, world_y as int, world_z as int, face),
{
    let current = world.get_block(world_x, world_y, world_z);
    let next = match neighbor(world_x, world_y, world_z, face) {
        Some((nx, ny, nz)) => world.get_block(nx, ny, nz),
        None => BlockType::Air,
    };
    face_visible(current, next)
}

/// The storage key of the chunk at `p`.
fn key_of(p: (i32, i32, i32)) -> (r: i128)
    ensures
        r as int == chunk_key(coords_of(p)),
{
    (p.0 as i128) * 0x1_0000_0000_0000_0000 + ((p.1 as i128) + 0x8000_0000) * 0x1_0000_0000 + ((
    p.2 as i128) + 0x8000_0000)
}

} // verus!
