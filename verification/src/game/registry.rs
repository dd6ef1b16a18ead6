//! Block kinds known to the game, built with `BlockDataBuilder` and looked up
//! by name or by id.
pub mod mesh;
use vstd::prelude::*;
use crate::game::terrain::block::{AtlasCoord, BlockData, Direction, uniform_faces};
use crate::utils::shared_map::{NameTable, name_ids, new_name_table, insert_name, lookup_name};

verus! {

/// Collects the properties of a block kind before it is registered.
pub struct BlockDataBuilder {
    faces: Option<[AtlasCoord; 6]>,
    breakable: Option<bool>,
    transparent: Option<bool>,
}

impl BlockDataBuilder {
    pub closed spec fn faces_spec(&self) -> Option<Seq<AtlasCoord>> {
        match self.faces {
            Some(f) => Some(f@),
            None => None,
        }
    }

    pub closed spec fn breakable_spec(&self) -> Option<bool> {
        self.breakable
    }

    pub closed spec fn transparent_spec(&self) -> Option<bool> {
        self.transparent
    }

    /// Every property has been given a value, so `build` succeeds.
    pub open spec fn complete(&self) -> bool {
        &&& self.faces_spec() is Some
        &&& self.faces_spec().unwrap().len() == 6
        &&& self.breakable_spec() is Some
        &&& self.transparent_spec() is Some
    }

    /// A face table, once given, has one tile per face.
    pub proof fn lemma_face_table_has_six_entries(&self)
        ensures
            self.faces_spec() is Some ==> self.faces_spec().unwrap().len() == 6,
    {
    }

    /// Sets the atlas tiles of all six faces.
    pub fn faces(self, faces: [AtlasCoord; 6]) -> (b: Self)
        ensures
            b.faces_spec() == Some(faces@),
            b.breakable_spec() == self.breakable_spec(),
            b.transparent_spec() == self.transparent_spec(),
    {
        let mut this = self;
        this.faces = Some(faces);
        this
    }

    /// Shows the atlas tile `face` on every face.
    pub fn all_faces(self, face: AtlasCoord) -> (b: Self)
        ensures
            b.faces_spec() == Some(uniform_faces(face)),
            b.breakable_spec() == self.breakable_spec(),
            b.transparent_spec() == self.transparent_spec(),
    {
        let table = [face; 6];
        assert(table@ =~= uniform_faces(face));
        self.faces(table)
    }

    /// Shows the atlas tile `face` on face `dir`; the other faces keep their
    /// tiles, or show tile `[0, 0]` when none was set.
    pub fn face(self, dir: Direction, face: AtlasCoord) -> (b: Self)
        ensures
            b.faces_spec() == Some(
                match self.faces_spec() {
                    Some(f) => f,
                    None => uniform_faces([0u32, 0u32]),
                }.update(dir.ord(), face),
            ),
            b.breakable_spec() == self.breakable_spec(),
            b.transparent_spec() == self.transparent_spec(),
    {
        let mut this = self;
        match this.faces {
            Some(faces) => {
                let mut faces = faces;
                faces[dir.index()] = face;
                this.faces = Some(faces);
            },
            None => {
                let mut faces = [[0u32, 0u32]; 6];
                assert(faces@ =~= uniform_faces([0u32, 0u32]));
                faces[dir.index()] = face;
                this.faces = Some(faces);
            },
        }
        this
    }

    pub fn breakable(self, breakable: bool) -> (b: Self)
        ensures
            b.faces_spec() == self.faces_spec(),
            b.breakable_spec() == Some(breakable),
            b.transparent_spec() == self.transparent_spec(),
    {
        let mut this = self;
        this.breakable = Some(breakable);
        this
    }

    pub fn transparent(self, transparent: bool) -> (b: Self)
        ensures
            b.faces_spec() == self.faces_spec(),
            b.breakable_spec() == self.breakable_spec(),
            b.transparent_spec() == Some(transparent),
    {
        let mut this = self;
        this.transparent = Some(transparent);
        this
    }

    /// The block data with the collected properties.
    pub fn build(self) -> (d: BlockData)
        requires
            self.complete(),
        ensures
            d.faces() == self.faces_spec().unwrap(),
            d.is_breakable_spec() == self.breakable_spec().unwrap(),
            d.is_transparent_spec() == self.transparent_spec().unwrap(),
    {
        let faces = match self.faces {
            Some(f) => f,
            None => [[0u32, 0u32]; 6],
        };
        let breakable = match self.breakable {
            Some(b) => b,
            None => true,
        };
        let transparent = match self.transparent {
            Some(t) => t,
            None => false,
        };
        BlockData::new(faces, breakable, transparent)
    }
}

impl Default for BlockDataBuilder {
    /// Tile `[0, 0]` on every face, breakable, opaque.
    fn default() -> (b: Self)
        ensures
            b.faces_spec() == Some(uniform_faces([0u32, 0u32])),
            b.breakable_spec() == Some(true),
            b.transparent_spec() == Some(false),
    {
        let faces = [[0u32, 0u32]; 6];
        assert(faces@ =~= uniform_faces([0u32, 0u32]));
        Self { faces: Some(faces), breakable: Some(true), transparent: Some(false) }
    }
}

/// Block kinds in registration order; a block's id is its position.
pub struct BlockRegistry {
    ids: NameTable,
    blocks: Vec<BlockData>,
}

impl BlockRegistry {
    /// Names with the id they were last registered under.
    pub closed spec fn ids(&self) -> Map<Seq<char>, usize> {
        name_ids(self.ids)
    }

    /// Registered block kinds; the block with id `i` is at position `i`.
    pub closed spec fn blocks(&self) -> Seq<BlockData> {
        self.blocks@
    }

    /// Every registered name refers to a registered block.
    pub open spec fn wf(&self) -> bool {
        forall|n: Seq<char>| #[trigger] self.ids().contains_key(n) ==> self.ids()[n] < self.blocks().len()
    }

    /// The block kind registered under `name`, if any.
    pub open spec fn block_named(&self, name: Seq<char>) -> Option<BlockData> {
        if self.ids().contains_key(name) && self.ids()[name] < self.blocks().len() {
            Some(self.blocks()[self.ids()[name] as int])
        } else {
            None
        }
    }

    pub fn new() -> (r: Self)
        ensures
            r.wf(),
            r.ids() == Map::<Seq<char>, usize>::empty(),
            r.blocks() == Seq::<BlockData>::empty(),
    {
        let ids = new_name_table();
        let blocks = Vec::new();
        Self { ids, blocks }
    }

    /// Registers `data` under `name` with the next free id; a name that was
    /// registered before now refers to the new block.
    pub fn add(&mut self, name: &str, data: BlockData)
        requires
            old(self).wf(),
        ensures
            final(self).wf(),
            final(self).blocks() == old(self).blocks().push(data),
            final(self).ids() == old(self).ids().insert(name@, old(self).blocks().len() as usize),
    {
        self.blocks.push(data);
        let id = self.blocks.len() - 1;
        insert_name(&mut self.ids, name.to_owned(), id);
        assert forall|n: Seq<char>| #[trigger] self.ids().contains_key(n) implies self.ids()[n]
            < self.blocks().len() by {
            if n != name@ {
                assert(old(self).ids().contains_key(n));
            }
        }
    }

    /// The id registered for `name`.
    pub fn id_of(&self, name: &str) -> (r: Option<usize>)
        ensures
            r == if self.ids().contains_key(name@) {
                Some(self.ids()[name@])
            } else {
                None::<usize>
            },
    {
        lookup_name(&self.ids, name)
    }

    /// The block registered with id `id`.
    pub fn by_id(&self, id: usize) -> (r: Option<&BlockData>)
        ensures
            r == if id < self.blocks().len() {
                Some(&self.blocks()[id as int])
            } else {
                None::<&BlockData>
            },
    {
        if id < self.blocks.len() {
            Some(&self.blocks[id])
        } else {
            None
        }
    }

    /// The block registered under `name`.
    pub fn by_name(&self, name: &str) -> (r: Option<&BlockData>)
        ensures
            r == match self.block_named(name@) {
                Some(b) => Some(&b),
                None => None::<&BlockData>,
            },
    {
        match lookup_name(&self.ids, name) {
            Some(id) => self.by_id(id),
            None => None,
        }
    }
}

/// Giving one face its own tile after giving all faces a tile shows the new
/// tile on that face and the common tile on the five others.
pub proof fn law_face_overrides_one_face(common: AtlasCoord, dir: Direction, tile: AtlasCoord, k: int)
    requires
        0 <= k < 6,
    ensures
        uniform_faces(common).update(dir.ord(), tile)[k] == if k == dir.ord() {
            tile
        } else {
            common
        },
{
}

/// Looking a name up right after registering a block kind under it finds that
/// block kind; the lookups of all other names are unchanged.
pub proof fn law_registered_block_found(
    before: BlockRegistry,
    after: BlockRegistry,
    name: Seq<char>,
    data: BlockData,
    other: Seq<char>,
)
    requires
        before.wf(),
        before.blocks().len() < usize::MAX,
        after.blocks() == before.blocks().push(data),
        after.ids() == before.ids().insert(name, before.blocks().len() as usize),
    ensures
        after.wf(),
        after.block_named(name) == Some(data),
        other != name ==> after.block_named(other) == before.block_named(other),
{
    assert forall|n: Seq<char>| #[trigger] after.ids().contains_key(n) implies after.ids()[n]
        < after.blocks().len() by {
        if n != name {
            assert(before.ids().contains_key(n));
        }
    }
    if other != name && before.ids().contains_key(other) {
        assert(before.ids()[other] < before.blocks().len());
    }
}

/// Name of the `i`-th block kind that `Registry::setup` registers.
pub open spec fn standard_name(i: int) -> Seq<char> {
    if i == 0 {
        "air"@
    } else if i == 1 {
        "missing"@
    } else if i == 2 {
        "grass"@
    } else if i == 3 {
        "dirt"@
    } else if i == 4 {
        "stone"@
    } else if i == 5 {
        "bedrock"@
    } else {
        "glass"@
    }
}

/// The `i`-th block kind that `Registry::setup` registers, as its faces,
/// whether it is breakable, and whether it is transparent.
pub open spec fn standard_block(i: int) -> (Seq<AtlasCoord>, bool, bool) {
    if i == 0 {
        (uniform_faces([0u32, 1u32]), true, true)
    } else if i == 1 {
        (uniform_faces([0u32, 1u32]), true, false)
    } else if i == 2 {
        (uniform_faces([3u32, 15u32]).update(2, [0u32, 15u32]).update(3, [2u32, 15u32]), true, false)
    } else if i == 3 {
        (uniform_faces([2u32, 15u32]), true, false)
    } else if i == 4 {
        (uniform_faces([1u32, 15u32]), true, false)
    } else if i == 5 {
        (uniform_faces([1u32, 14u32]), false, false)
    } else {
        (uniform_faces([0u32, 14u32]), false, true)
    }
}

/// Number of block kinds that `Registry::setup` registers.
pub const STANDARD_BLOCKS: usize = 7;

/// Name table after registering the standard block kinds, the first at id `base`.
pub open spec fn standard_ids(ids: Map<Seq<char>, usize>, base: usize) -> Map<Seq<char>, usize> {
    ids.insert(standard_name(0), base)
        .insert(standard_name(1), (base + 1) as usize)
        .insert(standard_name(2), (base + 2) as usize)
        .insert(standard_name(3), (base + 3) as usize)
        .insert(standard_name(4), (base + 4) as usize)
        .insert(standard_name(5), (base + 5) as usize)
        .insert(standard_name(6), (base + 6) as usize)
}

/// Everything the game registers, in one place.
pub struct Registry {
    blocks: BlockRegistry,
}

impl Registry {
    pub closed spec fn blocks_spec(&self) -> BlockRegistry {
        self.blocks
    }

    pub open spec fn wf(&self) -> bool {
        self.blocks_spec().wf()
    }

    pub fn new() -> (r: Self)
        ensures
            r.wf(),
            r.blocks_spec().ids() == Map::<Seq<char>, usize>::empty(),
            r.blocks_spec().blocks() == Seq::<BlockData>::empty(),
    {
        let blocks = BlockRegistry::new();
        Self { blocks }
    }

    /// Registers the standard block kinds: air, missing, grass, dirt, stone,
    /// bedrock and glass, in that order, after the blocks already there.
    pub fn setup(&mut self)
        requires
            old(self).wf(),
        ensures
            final(self).wf(),
            final(self).blocks_spec().blocks().len() <= usize::MAX,
            final(self).blocks_spec().blocks().len() == old(self).blocks_spec().blocks().len()
                + STANDARD_BLOCKS,
            final(self).blocks_spec().blocks().subrange(0, old(self).blocks_spec().blocks().len() as int)
                == old(self).blocks_spec().blocks(),
            forall|i: int|
                0 <= i < STANDARD_BLOCKS ==> {
                    let b = #[trigger] final(self).blocks_spec().blocks()[old(self).blocks_spec().blocks().len() + i];
                    b.has(standard_block(i).0, standard_block(i).1, standard_block(i).2)
                },
            final(self).blocks_spec().ids() == standard_ids(
                old(self).blocks_spec().ids(),
                old(self).blocks_spec().blocks().len() as usize,
            ),
    {
        let ghost before = self.blocks.blocks();
        let ghost base: int = before.len() as int;

        let air = BlockDataBuilder::default().all_faces([0, 1]).transparent(true).build();
        let ghost g_air = air;
        self.blocks.add("air", air);

        let missing = BlockDataBuilder::default().all_faces([0, 1]).build();
        let ghost g_missing = missing;
        self.blocks.add("missing", missing);

        let grass = BlockDataBuilder::default()
            .all_faces([3, 15])
            .face(Direction::Top, [0, 15])
            .face(Direction::Bottom, [2, 15])
            .build();
        let ghost g_grass = grass;
        self.blocks.add("grass", grass);

        let dirt = BlockDataBuilder::default().all_faces([2, 15]).build();
        let ghost g_dirt = dirt;
        self.blocks.add("dirt", dirt);

        let stone = BlockDataBuilder::default().all_faces([1, 15]).build();
        let ghost g_stone = stone;
        self.blocks.add("stone", stone);

        let bedrock = BlockDataBuilder::default().all_faces([1, 14]).breakable(false).build();
        let ghost g_bedrock = bedrock;
        self.blocks.add("bedrock", bedrock);

        let glass = BlockDataBuilder::default()
            .all_faces([0, 14])
            .breakable(false)
            .transparent(true)
            .build();
        let ghost g_glass = glass;
        self.blocks.add("glass", glass);
        // the new length is a `usize`, so the ids handed out fit in one
        let count = self.blocks.blocks.len();

        proof {
            assert(count == base + 7);
            let after = self.blocks.blocks();
            assert(after =~= before.push(g_air).push(g_missing).push(g_grass).push(g_dirt).push(g_stone).push(g_bedrock).push(g_glass));
            assert(after.subrange(0, base) =~= before);
            assert(after[base + 0] == g_air);
            assert(after[base + 1] == g_missing);
            assert(after[base + 2] == g_grass);
            assert(after[base + 3] == g_dirt);
            assert(after[base + 4] == g_stone);
            assert(after[base + 5] == g_bedrock);
            assert(after[base + 6] == g_glass);
        }
    }

    pub fn block_registry(&self) -> (r: &BlockRegistry)
        ensures
            *r == self.blocks_spec(),
    {
        &self.blocks
    }
}

/// `b` shows `side` on its east, west, north and south faces, `top` on top
/// and `bottom` below, and is breakable and transparent as given.
pub open spec fn shows(
    b: BlockData,
    side: AtlasCoord,
    top: AtlasCoord,
    bottom: AtlasCoord,
    breakable: bool,
    transparent: bool,
) -> bool {
    &&& b.faces().len() == 6
    &&& b.faces()[Direction::East.ord()] == side
    &&& b.faces()[Direction::West.ord()] == side
    &&& b.faces()[Direction::North.ord()] == side
    &&& b.faces()[Direction::South.ord()] == side
    &&& b.faces()[Direction::Top.ord()] == top
    &&& b.faces()[Direction::Bottom.ord()] == bottom
    &&& b.is_breakable_spec() == breakable
    &&& b.is_transparent_spec() == transparent
}

/// After `setup`, whatever the registry held before, looking up each
/// standard name finds its block kind: air ([0, 1], transparent), missing
/// ([0, 1]), grass ([3, 15] on the sides, [0, 15] on top, [2, 15] below),
/// dirt ([2, 15]), stone ([1, 15]), bedrock ([1, 14], not breakable) and
/// glass ([0, 14], not breakable, transparent); the others are breakable and
/// opaque.
pub proof fn law_standard_blocks(before: Registry, after: Registry)
    requires
        before.wf(),
        after.blocks_spec().blocks().len() <= usize::MAX,
        after.blocks_spec().blocks().len() == before.blocks_spec().blocks().len() + STANDARD_BLOCKS,
        forall|i: int|
            0 <= i < STANDARD_BLOCKS ==> {
                let b = #[trigger] after.blocks_spec().blocks()[before.blocks_spec().blocks().len() + i];
                b.has(standard_block(i).0, standard_block(i).1, standard_block(i).2)
            },
        after.blocks_spec().ids() == standard_ids(
            before.blocks_spec().ids(),
            before.blocks_spec().blocks().len() as usize,
        ),
    ensures
        after.blocks_spec().block_named("air"@) matches Some(b) && shows(b, [0, 1], [0, 1], [0, 1], true, true),
        after.blocks_spec().block_named("missing"@) matches Some(b) && shows(b, [0, 1], [0, 1], [0, 1], true, false),
        after.blocks_spec().block_named("grass"@) matches Some(b) && shows(b, [3, 15], [0, 15], [2, 15], true, false),
        after.blocks_spec().block_named("dirt"@) matches Some(b) && shows(b, [2, 15], [2, 15], [2, 15], true, false),
        after.blocks_spec().block_named("stone"@) matches Some(b) && shows(b, [1, 15], [1, 15], [1, 15], true, false),
        after.blocks_spec().block_named("bedrock"@) matches Some(b) && shows(b, [1, 14], [1, 14], [1, 14], false, false),
        after.blocks_spec().block_named("glass"@) matches Some(b) && shows(b, [0, 14], [0, 14], [0, 14], false, true),
{
    reveal_strlit("air");
    reveal_strlit("missing");
    reveal_strlit("grass");
    reveal_strlit("dirt");
    reveal_strlit("stone");
    reveal_strlit("bedrock");
    reveal_strlit("glass");
    let base = before.blocks_spec().blocks().len() as int;
    let blocks = after.blocks_spec().blocks();
    let ids = after.blocks_spec().ids();
    assert("air"@.len() == 3 && "missing"@.len() == 7 && "grass"@.len() == 5 && "dirt"@.len() == 4);
    assert("stone"@.len() == 5 && "bedrock"@.len() == 7 && "glass"@.len() == 5);
    assert("missing"@[0] != "bedrock"@[0]);
    assert("air"@ != "missing"@ && "air"@ != "grass"@ && "air"@ != "dirt"@ && "air"@ != "stone"@);
    assert("air"@ != "bedrock"@ && "air"@ != "glass"@);
    assert("missing"@ != "grass"@ && "missing"@ != "dirt"@ && "missing"@ != "stone"@);
    assert("missing"@ != "bedrock"@ && "missing"@ != "glass"@);
    assert("grass"@[1] != "glass"@[1] && "stone"@[0] != "glass"@[0]);
    assert("grass"@ != "dirt"@ && "grass"@ != "stone"@ && "grass"@ != "bedrock"@ && "grass"@ != "glass"@);
    assert("dirt"@ != "stone"@ && "dirt"@ != "bedrock"@ && "dirt"@ != "glass"@);
    assert("stone"@ != "bedrock"@ && "stone"@ != "glass"@ && "bedrock"@ != "glass"@);
    assert(ids["air"@] == base);
    assert(ids["missing"@] == base + 1);
    assert(ids["grass"@] == base + 2);
    assert(ids["dirt"@] == base + 3);
    assert(ids["stone"@] == base + 4);
    assert(ids["bedrock"@] == base + 5);
    assert(ids["glass"@] == base + 6);
    let b0 = blocks[base + 0];
    let b1 = blocks[base + 1];
    let b2 = blocks[base + 2];
    let b3 = blocks[base + 3];
    let b4 = blocks[base + 4];
    let b5 = blocks[base + 5];
    let b6 = blocks[base + 6];
    assert(b0.has(standard_block(0).0, standard_block(0).1, standard_block(0).2));
    assert(b1.has(standard_block(1).0, standard_block(1).1, standard_block(1).2));
    assert(b2.has(standard_block(2).0, standard_block(2).1, standard_block(2).2));
    assert(b3.has(standard_block(3).0, standard_block(3).1, standard_block(3).2));
    assert(b4.has(standard_block(4).0, standard_block(4).1, standard_block(4).2));
    assert(b5.has(standard_block(5).0, standard_block(5).1, standard_block(5).2));
    assert(b6.has(standard_block(6).0, standard_block(6).1, standard_block(6).2));
}

} // verus!
