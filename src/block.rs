use vstd::prelude::*;

verus! {

/// The kind of material that fills one voxel cell.
#[derive(Clone, Copy, PartialEq, Eq, Debug, Structural)]
pub enum BlockType {
    Air,
    Grass,
    Dirt,
    Stone,
    Water,
}

/// One of the six axis-aligned faces of a block, in the order in which the
/// mesher emits them.
#[derive(Clone, Copy, PartialEq, Eq, Debug, Structural)]
pub enum Face {
    /// The `+z` face.
    Front,
    /// The `-z` face.
    Back,
    /// The `+y` face.
    Top,
    /// The `-y` face.
    Bottom,
    /// The `+x` face.
    Right,
    /// The `-x` face.
    Left,
}

impl Face {
    /// Position of the face in emission order.
    pub open spec fn ordinal(self) -> int {
        match self {
            Face::Front => 0,
            Face::Back => 1,
            Face::Top => 2,
            Face::Bottom => 3,
            Face::Right => 4,
            Face::Left => 5,
        }
    }

    /// The face on the other side of the same neighbour pair.
    pub open spec fn opposite(self) -> Face {
        match self {
            Face::Front => Face::Back,
            Face::Back => Face::Front,
            Face::Top => Face::Bottom,
            Face::Bottom => Face::Top,
            Face::Right => Face::Left,
            Face::Left => Face::Right,
        }
    }

    /// The unit step from a block to the neighbour that this face touches.
    pub open spec fn delta(self) -> (int, int, int) {
        match self {
            Face::Front => (0, 0, 1),
            Face::Back => (0, 0, -1),
            Face::Top => (0, 1, 0),
            Face::Bottom => (0, -1, 0),
            Face::Right => (1, 0, 0),
            Face::Left => (-1, 0, 0),
        }
    }

    /// Position of the face in emission order.
    pub fn index(self) -> (r: u32)
        ensures
            r == self.ordinal(),
    {
        match self {
            Face::Front => 0,
            Face::Back => 1,
            Face::Top => 2,
            Face::Bottom => 3,
            Face::Right => 4,
            Face::Left => 5,
        }
    }

    /// The unit step from a block to the neighbour that this face touches.
    pub fn step(self) -> (r: (i32, i32, i32))
        ensures
            r.0 == self.delta().0,
            r.1 == self.delta().1,
            r.2 == self.delta().2,
    {
        match self {
            Face::Front => (0, 0, 1),
            Face::Back => (0, 0, -1),
            Face::Top => (0, 1, 0),
            Face::Bottom => (0, -1, 0),
            Face::Right => (1, 0, 0),
            Face::Left => (-1, 0, 0),
        }
    }
}

/// Whether a face of a `current` block is drawn when `neighbor` lies on its
/// other side. Water hides only against water; any other block shows its face
/// against air or water.
pub open spec fn is_face_visible(current: BlockType, neighbor: BlockType) -> bool {
    if current == BlockType::Water {
        neighbor == BlockType::Air || neighbor != BlockType::Water
    } else {
        neighbor == BlockType::Air || neighbor == BlockType::Water
    }
}

/// Decides whether a face of `current` is drawn against `neighbor`.
pub fn face_visible(current: BlockType, neighbor: BlockType) -> (r: bool)
    ensures
        r == is_face_visible(current, neighbor),
{
    match current {
        BlockType::Water => neighbor == BlockType::Air || neighbor != BlockType::Water,
        _ => neighbor == BlockType::Air || neighbor == BlockType::Water,
    }
}

} // verus!
