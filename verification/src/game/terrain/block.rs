use vstd::prelude::*;

verus! {

/// The six faces of a block.
#[derive(Debug, Clone, Copy, PartialEq, Eq, Structural)]
pub enum Direction {
    East,
    West,
    Top,
    Bottom,
    North,
    South,
}

impl Direction {
    /// Position of this face in a six-entry face table: East 0, West 1, Top 2,
    /// Bottom 3, North 4, South 5.
    pub open spec fn ord(self) -> int {
        match self {
            Direction::East => 0,
            Direction::West => 1,
            Direction::Top => 2,
            Direction::Bottom => 3,
            Direction::North => 4,
            Direction::South => 5,
        }
    }

    /// Position of this face in a six-entry face table.
    pub fn index(self) -> (i: usize)
        ensures
            i == self.ord(),
            i < 6,
    {
        match self {
            Direction::East => 0,
            Direction::West => 1,
            Direction::Top => 2,
            Direction::Bottom => 3,
            Direction::North => 4,
            Direction::South => 5,
        }
    }
}

/// Column and row of a tile in the texture atlas.
pub type AtlasCoord = [u32; 2];

/// A face table showing `c` on all six faces.
pub open spec fn uniform_faces(c: AtlasCoord) -> Seq<AtlasCoord> {
    Seq::new(6, |_i: int| c)
}

/// What the game knows of one kind of block.
#[allow(dead_code)]
pub struct BlockData {
    faces: [AtlasCoord; 6],
    breakable: bool,
    transparent: bool,
}

impl BlockData {
    /// Atlas tiles of the six faces, indexed by `Direction::ord`.
    pub closed spec fn faces(&self) -> Seq<AtlasCoord> {
        self.faces@
    }

    pub closed spec fn is_breakable_spec(&self) -> bool {
        self.breakable
    }

    pub closed spec fn is_transparent_spec(&self) -> bool {
        self.transparent
    }

    /// This block shows `faces`, and is breakable and transparent as given.
    pub open spec fn has(&self, faces: Seq<AtlasCoord>, breakable: bool, transparent: bool) -> bool {
        &&& self.faces() == faces
        &&& self.is_breakable_spec() == breakable
        &&& self.is_transparent_spec() == transparent
    }

    pub fn new(faces: [AtlasCoord; 6], breakable: bool, transparent: bool) -> (b: Self)
        ensures
            b.faces() == faces@,
            b.is_breakable_spec() == breakable,
            b.is_transparent_spec() == transparent,
    {
        Self { faces, breakable, transparent }
    }

    /// Whether blocks behind this one can be seen through it.
    pub fn is_transparent(&self) -> (t: bool)
        ensures
            t == self.is_transparent_spec(),
    {
        self.transparent
    }

    /// The atlas tile drawn on face `dir`.
    pub fn get_face(&self, dir: Direction) -> (c: AtlasCoord)
        ensures
            c == self.faces()[dir.ord()],
    {
        self.faces[dir.index()]
    }
}

} // verus!
