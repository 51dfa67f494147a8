use vstd::prelude::*;
use crate::block::BlockType;

verus! {

/// World `y` below which open space above the surface fills with water.
pub const WATER_LEVEL: i32 = 60;

/// How deep below the surface dirt gives way to stone.
pub const DIRT_DEPTH: i32 = 4;

/// The block at height `world_y` in a column whose surface height is `height`.
///
/// Above the surface the cell is water below `water_level` and air otherwise;
/// below it a cave empties the cell, else the top layer is grass, the next
/// layers down to `DIRT_DEPTH` are dirt, and the rest is stone.
pub open spec fn terrain_kind(world_y: int, height: int, cave: bool, water_level: int) -> BlockType {
    if world_y < height {
        if cave {
            BlockType::Air
        } else if world_y == height - 1 {
            BlockType::Grass
        } else if world_y > height - DIRT_DEPTH {
            BlockType::Dirt
        } else {
            BlockType::Stone
        }
    } else if world_y < water_level {
        BlockType::Water
    } else {
        BlockType::Air
    }
}

/// Decides the block at height `world_y` of a column with surface `height`;
/// `cave` says whether the cave field carves this cell.
pub fn terrain_block(world_y: i32, height: i32, cave: bool, water_level: i32) -> (r: BlockType)
    ensures
        r == terrain_kind(world_y as int, height as int, cave, water_level as int),
{
    let wy = world_y as i64;
    let h = height as i64;
    if wy < h {
        if cave {
            BlockType::Air
        } else if wy == h - 1 {
            BlockType::Grass
        } else if wy > h - DIRT_DEPTH as i64 {
            BlockType::Dirt
        } else {
            BlockType::Stone
        }
    } else if world_y < water_level {
        BlockType::Water
    } else {
        BlockType::Air
    }
}

} // verus!
