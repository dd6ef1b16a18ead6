//! Meshes known to the game, looked up by name or by id.
use vstd::prelude::*;
use crate::engine::mesh::MeshData;
use crate::utils::shared_map::{NameTable, name_ids, new_name_table, insert_name, lookup_name};

verus! {

/// Meshes in registration order; a mesh's id is its position.
pub struct MeshRegistry<V> {
    ids: NameTable,
    meshes: Vec<MeshData<V>>,
}

#[allow(dead_code)]
impl<V> MeshRegistry<V> {
    /// Names with the id they were last registered under.
    pub closed spec fn ids(&self) -> Map<Seq<char>, usize> {
        name_ids(self.ids)
    }

    /// Registered meshes; the mesh with id `i` is at position `i`.
    pub closed spec fn meshes(&self) -> Seq<MeshData<V>> {
        self.meshes@
    }

    /// Every registered name refers to a registered mesh.
    pub open spec fn wf(&self) -> bool {
        forall|n: Seq<char>| #[trigger] self.ids().contains_key(n) ==> self.ids()[n] < self.meshes().len()
    }

    /// The mesh registered under `name`, if any.
    pub open spec fn mesh_named(&self, name: Seq<char>) -> Option<MeshData<V>> {
        if self.ids().contains_key(name) && self.ids()[name] < self.meshes().len() {
            Some(self.meshes()[self.ids()[name] as int])
        } else {
            None
        }
    }

    pub fn new() -> (r: Self)
        ensures
            r.wf(),
            r.ids() == Map::<Seq<char>, usize>::empty(),
            r.meshes() == Seq::<MeshData<V>>::empty(),
    {
        let ids = new_name_table();
        let meshes = Vec::new();
        Self { ids, meshes }
    }

    /// Registers `data` under `name` with the next free id; a name that was
    /// registered before now refers to the new mesh.
    pub fn add(&mut self, name: &str, data: MeshData<V>)
        requires
            old(self).wf(),
        ensures
            final(self).wf(),
            final(self).meshes() == old(self).meshes().push(data),
            final(self).ids() == old(self).ids().insert(name@, old(self).meshes().len() as usize),
    {
        self.meshes.push(data);
        let id = self.meshes.len() - 1;
        insert_name(&mut self.ids, name.to_owned(), id);
        assert forall|n: Seq<char>| #[trigger] self.ids().contains_key(n) implies self.ids()[n]
            < self.meshes().len() by {
            if n != name@ {
                assert(old(self).ids().contains_key(n));
            }
        }
    }

    /// The id registered for `name`.
    pub fn id_of(&self, name: &str) -> (r: Option<usize>)
        ensures
            r == if self.ids().contains_key(name@) {
                Some(self.ids()[name@])
            } else {
                None::<usize>
            },
    {
        lookup_name(&self.ids, name)
    }

    /// The mesh registered with id `id`.
    pub fn by_id(&self, id: usize) -> (r: Option<&MeshData<V>>)
        ensures
            r == if id < self.meshes().len() {
                Some(&self.meshes()[id as int])
            } else {
                None::<&MeshData<V>>
            },
    {
        if id < self.meshes.len() {
            Some(&self.meshes[id])
        } else {
            None
        }
    }

    /// The mesh registered under `name`.
    pub fn by_name(&self, name: &str) -> (r: Option<&MeshData<V>>)
        ensures
            r == match self.mesh_named(name@) {
                Some(m) => Some(&m),
                None => None::<&MeshData<V>>,
            },
    {
        match lookup_name(&self.ids, name) {
            Some(id) => self.by_id(id),
            None => None,
        }
    }
}

} // verus!
