use voxel_world::{
    face_visible, generate_cube_vertices, generate_indices_for_vertices, should_render_face,
    texture_layer, BlockType, Chunk, Face, Vertex, World,
};

/// A world holding one chunk at `position` with the given blocks set, meshed.
fn single_chunk_world(position: (i32, i32, i32), blocks: &[((usize, usize, usize), BlockType)]) -> World {
    let mut chunk = Chunk::empty(position);
    for &((x, y, z), b) in blocks {
        chunk.set_block(x, y, z, b);
    }
    let mut world = World::new();
    world.add_chunk(chunk);
    world.update_all();
    world
}

fn mesh_of(world: &World) -> (Vec<Vertex>, Vec<(u32, u32, u32)>) {
    world.collect_mesh().expect("mesh fits 32-bit indices")
}

#[test]
fn indices_two_triangles_per_quad() {
    let tris = generate_indices_for_vertices(10, 8);
    assert_eq!(tris, vec![(10, 11, 12), (12, 13, 10), (14, 15, 16), (16, 17, 14)]);
}

#[test]
fn indices_partial_last_group() {
    let tris = generate_indices_for_vertices(0, 6);
    assert_eq!(tris, vec![(0, 1, 2), (2, 3, 0), (4, 5, 6), (6, 7, 4)]);
    assert!(generate_indices_for_vertices(5, 0).is_empty());
}

#[test]
fn isolated_block_emits_six_quads() {
    let world = single_chunk_world((0, 0, 0), &[((5, 5, 5), BlockType::Stone)]);
    let (vertices, indices) = mesh_of(&world);
    assert_eq!(vertices.len(), 24);
    assert_eq!(indices.len(), 12);
    let corners: Vec<u32> = vertices.iter().map(|v| v.corner).collect();
    assert_eq!(corners, (0..24).collect::<Vec<u32>>());
    assert!(vertices.iter().all(|v| v.layer == 3 && v.size == 1));
    // first corner of the front face: (x - 0.5, y - 0.5, z + 0.5) in tenths
    assert_eq!(
        vertices[0],
        Vertex { x: 45, y: 45, z: 55, u: 0, v: 1, corner: 0, layer: 3, size: 1 }
    );
    assert_eq!(indices[0], (0, 1, 2));
    assert_eq!(indices[1], (2, 3, 0));
    assert_eq!(indices[11], (22, 23, 20));
}

#[test]
fn adjacent_blocks_emit_ten_quads() {
    let world = single_chunk_world(
        (0, 0, 0),
        &[((5, 5, 5), BlockType::Dirt), ((6, 5, 5), BlockType::Dirt)],
    );
    let (vertices, indices) = mesh_of(&world);
    assert_eq!(vertices.len(), 40);
    assert_eq!(indices.len(), 20);
    // neither block shows the face towards the other
    assert!(!should_render_face(&world, 5, 5, 5, Face::Right));
    assert!(!should_render_face(&world, 6, 5, 5, Face::Left));
    assert!(should_render_face(&world, 5, 5, 5, Face::Left));
}

#[test]
fn grass_layers_per_face() {
    let world = single_chunk_world((0, 0, 0), &[((1, 1, 1), BlockType::Grass)]);
    let (vertices, _) = mesh_of(&world);
    let layers: Vec<u32> = vertices.iter().step_by(4).map(|v| v.layer).collect();
    assert_eq!(layers, vec![1, 1, 0, 2, 1, 1]);
}

#[test]
fn water_pair_hides_shared_face() {
    let world = single_chunk_world(
        (0, 0, 0),
        &[((2, 3, 2), BlockType::Water), ((3, 3, 2), BlockType::Water)],
    );
    assert!(!should_render_face(&world, 2, 3, 2, Face::Right));
    assert!(!should_render_face(&world, 3, 3, 2, Face::Left));
    let (vertices, indices) = mesh_of(&world);
    // each water block shows only its top quad
    assert_eq!(vertices.len(), 8);
    assert_eq!(indices.len(), 4);
    assert!(vertices.iter().all(|v| v.y == 34 && v.layer == 4));
    let corners: Vec<u32> = vertices.iter().map(|v| v.corner).collect();
    assert_eq!(corners, vec![8, 9, 10, 11, 8, 9, 10, 11]);
}

#[test]
fn water_under_water_has_no_top() {
    let world = single_chunk_world(
        (0, 0, 0),
        &[((2, 3, 2), BlockType::Water), ((2, 4, 2), BlockType::Water)],
    );
    let (vertices, _) = mesh_of(&world);
    assert_eq!(vertices.len(), 4);
    assert!(vertices.iter().all(|v| v.y == 44));
}

#[test]
fn water_shows_against_solid_and_solid_against_water() {
    let world = single_chunk_world(
        (0, 0, 0),
        &[((2, 3, 2), BlockType::Water), ((2, 4, 2), BlockType::Stone)],
    );
    assert!(should_render_face(&world, 2, 3, 2, Face::Top));
    assert!(should_render_face(&world, 2, 4, 2, Face::Bottom));
    let (vertices, _) = mesh_of(&world);
    assert_eq!(vertices.len(), 4 + 24);
}

#[test]
fn border_neighbor_in_next_chunk() {
    let mut a = Chunk::empty((0, 0, 0));
    a.set_block(15, 4, 4, BlockType::Stone);
    let mut b = Chunk::empty((1, 0, 0));
    b.set_block(0, 4, 4, BlockType::Stone);
    let mut world = World::new();
    world.add_chunk(a);
    assert!(should_render_face(&world, 15, 4, 4, Face::Right));
    world.add_chunk(b);
    assert!(!should_render_face(&world, 15, 4, 4, Face::Right));
    assert!(!should_render_face(&world, 16, 4, 4, Face::Left));
    world.update_all();
    let (vertices, indices) = mesh_of(&world);
    assert_eq!(vertices.len(), 40);
    assert_eq!(indices.len(), 20);
}

#[test]
fn border_neighbor_missing_chunk_is_air() {
    let mut a = Chunk::empty((-1, 0, 0));
    a.set_block(15, 0, 0, BlockType::Stone);
    let mut world = World::new();
    world.add_chunk(a);
    assert!(should_render_face(&world, -1, 0, 0, Face::Right));
    assert!(should_render_face(&world, -1, 0, 0, Face::Bottom));
}

#[test]
fn face_at_edge_of_coordinate_range() {
    let mut a = Chunk::empty((134217727, 0, 0));
    a.set_block(15, 0, 0, BlockType::Stone);
    let mut world = World::new();
    world.add_chunk(a);
    assert_eq!(world.get_block(i32::MAX, 0, 0), BlockType::Stone);
    assert!(should_render_face(&world, i32::MAX, 0, 0, Face::Right));
}

#[test]
fn remeshing_is_identical() {
    let mut chunk = Chunk::empty((0, 0, 0));
    chunk.set_block(1, 1, 1, BlockType::Grass);
    chunk.set_block(1, 2, 1, BlockType::Water);
    chunk.set_block(9, 0, 3, BlockType::Stone);
    let mut world = World::new();
    world.add_chunk(chunk);
    let mut probe = Chunk::empty((0, 0, 0));
    probe.set_block(1, 1, 1, BlockType::Grass);
    probe.set_block(1, 2, 1, BlockType::Water);
    probe.set_block(9, 0, 3, BlockType::Stone);
    probe.update(&world);
    let first = (probe.vertices.clone(), probe.indices.clone(), probe.visible_blocks.clone());
    probe.update(&world);
    assert_eq!(probe.vertices, first.0);
    assert_eq!(probe.indices, first.1);
    assert_eq!(probe.visible_blocks, first.2);
    assert_eq!(probe.vertex_count as usize, probe.vertices.len());
    assert_eq!(probe.visible_blocks.len(), 3);
}

#[test]
fn collected_indices_are_offset_per_chunk() {
    let mut a = Chunk::empty((0, 0, 0));
    a.set_block(0, 0, 0, BlockType::Stone);
    let mut b = Chunk::empty((5, 0, 0));
    b.set_block(0, 0, 0, BlockType::Dirt);
    let mut world = World::new();
    world.add_chunk(a);
    world.add_chunk(b);
    world.update_all();
    let (vertices, indices) = mesh_of(&world);
    assert_eq!(vertices.len(), 48);
    assert_eq!(indices.len(), 24);
    assert_eq!(indices[12], (24, 25, 26));
    assert_eq!(indices[23], (46, 47, 44));
    assert_eq!(vertices[24].layer, 2);
    assert_eq!(vertices[24].x, 795);
}

#[test]
fn flat_terrain_scenario() {
    let heights = vec![8i32; 256];
    let caves = vec![false; 4096];
    let mut chunk = Chunk::empty((0, 0, 0));
    chunk.generate_terrain(&heights, &caves, i32::MIN);
    for x in 0..16 {
        for z in 0..16 {
            for y in 0..16 {
                let expected = match y {
                    7 => BlockType::Grass,
                    5 | 6 => BlockType::Dirt,
                    0..=4 => BlockType::Stone,
                    _ => BlockType::Air,
                };
                assert_eq!(chunk.block(x, y, z), expected);
            }
        }
    }
    let mut world = World::new();
    world.add_chunk(chunk);
    world.update_all();
    let (vertices, indices) = mesh_of(&world);
    // 256 tops, 4 sides of 16 x 8 faces, and 256 bottoms against the missing chunk below
    assert_eq!(vertices.len(), 4 * (256 + 512 + 256));
    assert_eq!(indices.len(), 2 * (256 + 512 + 256));
    let tops = vertices.iter().filter(|v| v.corner == 8).count();
    assert_eq!(tops, 256);
    assert!(vertices.iter().filter(|v| v.corner == 8).all(|v| v.y == 75 && v.layer == 0));
    // no face inside the slab: every vertex lies on the slab's outer surface
    assert!(vertices.iter().all(|v| {
        v.x == -5 || v.x == 155 || v.z == -5 || v.z == 155 || v.y == -5 || v.y == 75
    }));
}

#[test]
fn face_visibility_rule() {
    assert!(!face_visible(BlockType::Water, BlockType::Water));
    assert!(face_visible(BlockType::Water, BlockType::Air));
    assert!(face_visible(BlockType::Water, BlockType::Stone));
    assert!(face_visible(BlockType::Stone, BlockType::Air));
    assert!(face_visible(BlockType::Stone, BlockType::Water));
    assert!(!face_visible(BlockType::Stone, BlockType::Dirt));
    assert!(!face_visible(BlockType::Grass, BlockType::Grass));
}

#[test]
fn texture_layers_by_block() {
    assert_eq!(texture_layer(BlockType::Grass, Face::Top), 0);
    assert_eq!(texture_layer(BlockType::Grass, Face::Bottom), 2);
    assert_eq!(texture_layer(BlockType::Grass, Face::Left), 1);
    assert_eq!(texture_layer(BlockType::Dirt, Face::Top), 2);
    assert_eq!(texture_layer(BlockType::Stone, Face::Front), 3);
    assert_eq!(texture_layer(BlockType::Water, Face::Top), 4);
}

#[test]
fn cube_vertices_of_air_and_hidden_block() {
    let world = single_chunk_world((0, 0, 0), &[((3, 3, 3), BlockType::Stone)]);
    assert!(generate_cube_vertices(&world, 0, 0, 0, BlockType::Air).is_empty());
    let top_only = generate_cube_vertices(&world, 3, 2, 3, BlockType::Dirt);
    // the block below the stone sees air on five sides and stone above
    assert_eq!(top_only.len(), 20);
    assert!(top_only.iter().all(|v| v.layer == 2));
}

#[test]
fn update_chunk_meshes_one_chunk() {
    let mut a = Chunk::empty((0, 0, 0));
    a.set_block(0, 0, 0, BlockType::Stone);
    let mut b = Chunk::empty((0, 0, 1));
    b.set_block(0, 0, 0, BlockType::Stone);
    let mut world = World::new();
    world.add_chunk(a);
    world.add_chunk(b);
    world.update_chunk((0, 0, 1));
    world.update_chunk((7, 7, 7));
    let (vertices, indices) = mesh_of(&world);
    assert_eq!(vertices.len(), 24);
    assert_eq!(indices.len(), 12);
    assert!(vertices.iter().all(|v| v.z >= 155));
}
