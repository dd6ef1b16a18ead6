use voxel_game::engine::mesh::MeshData;
use voxel_game::game::registry::mesh::MeshRegistry;
use voxel_game::game::registry::{BlockDataBuilder, BlockRegistry, Registry};
use voxel_game::game::terrain::block::{BlockData, Direction};
use voxel_game::game::terrain::block_registry::{self, BlockId, TextureCoords};
use voxel_game::utils::registry::Registry as NamedItems;

#[test]
fn direction_indices() {
    assert_eq!(Direction::East.index(), 0);
    assert_eq!(Direction::West.index(), 1);
    assert_eq!(Direction::Top.index(), 2);
    assert_eq!(Direction::Bottom.index(), 3);
    assert_eq!(Direction::North.index(), 4);
    assert_eq!(Direction::South.index(), 5);
}

#[test]
fn block_data_faces() {
    let d = BlockData::new([[0, 0], [1, 1], [2, 2], [3, 3], [4, 4], [5, 5]], true, false);
    assert_eq!(d.get_face(Direction::Bottom), [3, 3]);
    assert_eq!(d.get_face(Direction::South), [5, 5]);
    assert!(!d.is_transparent());
}

#[test]
fn builder_defaults() {
    let d = BlockDataBuilder::default().build();
    assert_eq!(d.get_face(Direction::Top), [0, 0]);
    assert!(!d.is_transparent());
}

#[test]
fn builder_face_overrides_one_face() {
    let d = BlockDataBuilder::default()
        .all_faces([3, 15])
        .face(Direction::Top, [0, 15])
        .transparent(true)
        .build();
    assert_eq!(d.get_face(Direction::Top), [0, 15]);
    assert_eq!(d.get_face(Direction::East), [3, 15]);
    assert!(d.is_transparent());
    let e = BlockDataBuilder::default().faces([[1, 2]; 6]).face(Direction::West, [9, 9]).build();
    assert_eq!(e.get_face(Direction::West), [9, 9]);
    assert_eq!(e.get_face(Direction::North), [1, 2]);
}

#[test]
fn block_registry_add_and_lookup() {
    let mut r = BlockRegistry::new();
    assert_eq!(r.id_of("stone"), None);
    assert!(r.by_name("stone").is_none());
    r.add("air", BlockDataBuilder::default().transparent(true).build());
    r.add("stone", BlockDataBuilder::default().all_faces([1, 15]).build());
    assert_eq!(r.id_of("air"), Some(0));
    assert_eq!(r.id_of("stone"), Some(1));
    assert_eq!(r.by_name("stone").unwrap().get_face(Direction::North), [1, 15]);
    assert!(r.by_id(0).unwrap().is_transparent());
    assert!(r.by_id(2).is_none());
}

#[test]
fn block_registry_name_registered_again_refers_to_new_block() {
    let mut r = BlockRegistry::new();
    r.add("stone", BlockDataBuilder::default().all_faces([1, 15]).build());
    r.add("stone", BlockDataBuilder::default().all_faces([7, 7]).build());
    assert_eq!(r.id_of("stone"), Some(1));
    assert_eq!(r.by_name("stone").unwrap().get_face(Direction::Top), [7, 7]);
    assert_eq!(r.by_id(0).unwrap().get_face(Direction::Top), [1, 15]);
}

#[test]
fn registry_setup_registers_standard_blocks() {
    let mut r = Registry::new();
    r.setup();
    let b = r.block_registry();
    let names = ["air", "missing", "grass", "dirt", "stone", "bedrock", "glass"];
    for (i, n) in names.iter().enumerate() {
        assert_eq!(b.id_of(n), Some(i));
    }
    assert!(b.by_name("air").unwrap().is_transparent());
    assert!(!b.by_name("missing").unwrap().is_transparent());
    let grass = b.by_name("grass").unwrap();
    assert_eq!(grass.get_face(Direction::Top), [0, 15]);
    assert_eq!(grass.get_face(Direction::Bottom), [2, 15]);
    assert_eq!(grass.get_face(Direction::East), [3, 15]);
    assert_eq!(b.by_name("dirt").unwrap().get_face(Direction::South), [2, 15]);
    assert_eq!(b.by_name("bedrock").unwrap().get_face(Direction::West), [1, 14]);
    assert!(b.by_name("glass").unwrap().is_transparent());
    assert!(b.by_id(7).is_none());
}

#[test]
fn block_id_is_namespaced() {
    let id = BlockId::new("stone");
    assert!(format!("{:?}", id).contains("\"voxel_game:stone\""));
}

#[test]
fn second_builder_first_face_fills_all_faces() {
    let c: TextureCoords = [4, 2];
    let d = block_registry::BlockDataBuilder::new("log")
        .top_face(c)
        .orientation(Direction::North)
        .build();
    for dir in [Direction::East, Direction::West, Direction::Top, Direction::Bottom, Direction::North, Direction::South] {
        assert_eq!(*d.get_coords(dir), [4, 2]);
    }
    let e = block_registry::BlockDataBuilder::new("log")
        .top_face([1, 1])
        .bottom_face([2, 2])
        .east_face([3, 3])
        .west_face([4, 4])
        .north_face([5, 5])
        .south_face([6, 6])
        .orientation(Direction::Top)
        .build();
    assert_eq!(*e.get_coords(Direction::Top), [1, 1]);
    assert_eq!(*e.get_coords(Direction::Bottom), [2, 2]);
    assert_eq!(*e.get_coords(Direction::East), [3, 3]);
    assert_eq!(*e.get_coords(Direction::West), [4, 4]);
    assert_eq!(*e.get_coords(Direction::North), [5, 5]);
    assert_eq!(*e.get_coords(Direction::South), [6, 6]);
}

#[test]
fn get_coords_falls_back_to_first_entry() {
    let d = block_registry::BlockData::new(BlockId::new("x"), vec![[7, 7], [8, 8]], Direction::East);
    assert_eq!(*d.get_coords(Direction::West), [8, 8]);
    assert_eq!(*d.get_coords(Direction::Bottom), [7, 7]);
}

#[test]
fn block_type_registry() {
    let mut r = block_registry::BlockRegistry::new();
    assert!(r.get_block(3).is_none());
    r.add_block(3, block_registry::BlockData::new(BlockId::new("a"), vec![[1, 1]; 6], Direction::East));
    assert_eq!(*r.get_block(3).unwrap().get_coords(Direction::Top), [1, 1]);
    r.add_block(3, block_registry::BlockData::new(BlockId::new("b"), vec![[2, 2]; 6], Direction::East));
    assert_eq!(*r.get_block(3).unwrap().get_coords(Direction::Top), [2, 2]);
    assert!(r.get_block(4).is_none());
}

#[test]
fn named_items_lookup() {
    let mut r: NamedItems<&str> = NamedItems::default();
    assert_eq!(r.id_of("a"), None);
    r.insert("a", "first");
    r.insert("b", "second");
    r.insert("a", "third");
    assert_eq!(r.id_of("a"), Some(2));
    assert_eq!(r.id_of("b"), Some(1));
    assert_eq!(r.by_name("a"), Some(&"third"));
    assert_eq!(r.by_id(0), Some(&"first"));
    assert_eq!(r.by_id(3), None);
    assert_eq!(r.by_name("c"), None);
}

#[test]
fn mesh_registry_lookup() {
    let mut r: MeshRegistry<u8> = MeshRegistry::new();
    let mut m = MeshData::new();
    m.add(vec![1, 2, 3], vec![0, 1, 2]);
    r.add("block", MeshData::new());
    r.add("half_block", m);
    assert_eq!(r.id_of("half_block"), Some(1));
    assert_eq!(r.by_name("half_block").unwrap().vertices, vec![1, 2, 3]);
    assert!(r.by_name("slab").is_none());
    assert!(r.by_id(0).unwrap().indices.is_empty());
}
