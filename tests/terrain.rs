use voxel_world::{block_index, terrain_block, world_coord, BlockType, Chunk, World, WATER_LEVEL};

fn flat_samples(height: i32) -> (Vec<i32>, Vec<bool>) {
    (vec![height; 256], vec![false; 4096])
}

#[test]
fn terrain_layers_below_surface() {
    assert_eq!(terrain_block(69, 70, false, WATER_LEVEL), BlockType::Grass);
    assert_eq!(terrain_block(68, 70, false, WATER_LEVEL), BlockType::Dirt);
    assert_eq!(terrain_block(67, 70, false, WATER_LEVEL), BlockType::Dirt);
    assert_eq!(terrain_block(66, 70, false, WATER_LEVEL), BlockType::Stone);
    assert_eq!(terrain_block(10, 70, false, WATER_LEVEL), BlockType::Stone);
}

#[test]
fn terrain_above_surface_is_water_or_air() {
    assert_eq!(terrain_block(50, 40, false, WATER_LEVEL), BlockType::Water);
    assert_eq!(terrain_block(59, 40, false, WATER_LEVEL), BlockType::Water);
    assert_eq!(terrain_block(60, 40, false, WATER_LEVEL), BlockType::Air);
    assert_eq!(terrain_block(80, 70, false, WATER_LEVEL), BlockType::Air);
}

#[test]
fn cave_empties_only_below_surface() {
    assert_eq!(terrain_block(30, 70, true, WATER_LEVEL), BlockType::Air);
    assert_eq!(terrain_block(69, 70, true, WATER_LEVEL), BlockType::Air);
    // the surface and water decision comes before the cave check
    assert_eq!(terrain_block(50, 40, true, WATER_LEVEL), BlockType::Water);
}

#[test]
fn terrain_extreme_heights_do_not_overflow() {
    assert_eq!(terrain_block(i32::MIN, i32::MIN + 1, false, WATER_LEVEL), BlockType::Grass);
    assert_eq!(terrain_block(i32::MAX, i32::MAX, false, WATER_LEVEL), BlockType::Air);
    assert_eq!(terrain_block(i32::MAX - 1, i32::MAX, false, i32::MAX), BlockType::Grass);
}

#[test]
fn world_coord_of_negative_chunk() {
    assert_eq!(world_coord(-1, 0), -16);
    assert_eq!(world_coord(-1, 15), -1);
    assert_eq!(world_coord(2, 3), 35);
    assert_eq!(block_index(1, 2, 3), 256 + 32 + 3);
}

#[test]
fn generated_chunk_follows_terrain_rule() {
    let mut heights = vec![0i32; 256];
    let mut caves = vec![false; 4096];
    for x in 0..16 {
        for z in 0..16 {
            heights[x * 16 + z] = 20 + (x as i32) - (z as i32);
        }
    }
    caves[block_index(3, 5, 7)] = true;
    let chunk = Chunk::new((0, 1, 0), &heights, &caves);
    for x in 0..16 {
        for y in 0..16 {
            for z in 0..16 {
                let wy = 16 + y as i32;
                let expected = terrain_block(wy, heights[x * 16 + z], caves[block_index(x, y, z)], 60);
                assert_eq!(chunk.block(x, y, z), expected);
            }
        }
    }
}

#[test]
fn lookup_matches_terrain_for_negative_coordinates() {
    let mut world = World::new();
    let (heights, caves) = flat_samples(-20);
    for cx in -2..1 {
        for cy in -2..1 {
            world.add_chunk(Chunk::new((cx, cy, -1), &heights, &caves));
        }
    }
    for x in -32..16 {
        for y in -32..16 {
            for z in [-16, -9, -1] {
                let got = world.get_block(x, y, z);
                let cx = x.div_euclid(16);
                let cy = y.div_euclid(16);
                let expected = if (-2..1).contains(&cx) && (-2..1).contains(&cy) {
                    terrain_block(y, -20, false, WATER_LEVEL)
                } else {
                    BlockType::Air
                };
                assert_eq!(got, expected, "at {} {} {}", x, y, z);
            }
        }
    }
    assert_eq!(world.get_block(-1, -21, -1), BlockType::Grass);
    assert_eq!(world.get_block(-1, -22, -1), BlockType::Dirt);
    assert_eq!(world.get_block(-1, -24, -1), BlockType::Stone);
    assert_eq!(world.get_block(-1, -20, -1), BlockType::Water);
    assert_eq!(world.get_block(-1, -20, 0), BlockType::Air);
}

#[test]
fn lookup_uses_euclidean_local_cell() {
    let mut chunk = Chunk::empty((-1, 0, 0));
    chunk.set_block(15, 0, 0, BlockType::Stone);
    chunk.set_block(0, 1, 2, BlockType::Dirt);
    let mut world = World::new();
    world.add_chunk(chunk);
    assert_eq!(world.get_block(-1, 0, 0), BlockType::Stone);
    assert_eq!(world.get_block(-16, 1, 2), BlockType::Dirt);
    assert_eq!(world.get_block(-15, 1, 2), BlockType::Air);
    assert_eq!(world.get_block(0, 0, 0), BlockType::Air);
    assert_eq!(world.get_block(i32::MIN, i32::MAX, 0), BlockType::Air);
}

#[test]
fn add_chunk_replaces_same_position() {
    let mut world = World::new();
    let mut first = Chunk::empty((3, 0, 0));
    first.set_block(0, 0, 0, BlockType::Stone);
    world.add_chunk(first);
    let mut second = Chunk::empty((3, 0, 0));
    second.set_block(0, 0, 0, BlockType::Grass);
    world.add_chunk(second);
    assert_eq!(world.get_block(48, 0, 0), BlockType::Grass);
}
