//! Tables kept in `dashmap::DashMap`, with what their operations do stated
//! over the entries they hold.
use vstd::prelude::*;
use dashmap::DashMap;
use std::sync::Arc;
use crate::game::terrain::chunk::Chunk;

verus! {

#[verifier::external_type_specification]
#[verifier::external_body]
#[verifier::reject_recursive_types(K)]
#[verifier::reject_recursive_types(V)]
#[verifier::reject_recursive_types(S)]
pub struct ExDashMap<K, V, S>(DashMap<K, V, S>);

/// A table from block or mesh names to their ids.
pub type NameTable = DashMap<String, usize>;

/// Grid coordinates of a chunk, as a table key.
pub type ChunkKey = (isize, isize, isize);

/// A table from chunk coordinates to loaded chunks.
pub type ChunkTable = DashMap<ChunkKey, Arc<Chunk>>;

/// A set of chunk coordinates.
pub type KeySet = DashMap<ChunkKey, ()>;

/// The entries of a name table: each name (as characters) with its id.
pub uninterp spec fn name_ids(m: NameTable) -> Map<Seq<char>, usize>;

/// The entries of a chunk table: each key with the blocks of its chunk.
pub uninterp spec fn chunk_entries(m: ChunkTable) -> Map<ChunkKey, Seq<usize>>;

/// The keys of a key set.
pub uninterp spec fn key_set(m: KeySet) -> Set<ChunkKey>;

/// Calls `DashMap::default`; a new table holds no entry.
#[verifier::external_body]
pub(crate) fn new_name_table() -> (m: NameTable)
    ensures
        name_ids(m) =~= Map::empty(),
{
    DashMap::default()
}

/// Calls `DashMap::insert`; afterwards `name` maps to `id` and every other
/// entry is as before (a previous id of `name` is replaced).
#[verifier::external_body]
pub(crate) fn insert_name(m: &mut NameTable, name: String, id: usize)
    ensures
        name_ids(*final(m)) == name_ids(*old(m)).insert(name@, id),
{
    m.insert(name, id);
}

/// Calls `DashMap::get` and copies out the id of the entry it finds:
/// `Some(id)` exactly when the table holds `name`, with its id.
#[verifier::external_body]
pub(crate) fn lookup_name(m: &NameTable, name: &str) -> (r: Option<usize>)
    ensures
        r == if name_ids(*m).contains_key(name@) {
            Some(name_ids(*m)[name@])
        } else {
            None::<usize>
        },
{
    m.get(name).map(|entry| *entry.value())
}

/// Calls `DashMap::default`; a new table holds no chunk.
#[verifier::external_body]
pub(crate) fn new_chunk_table() -> (m: ChunkTable)
    ensures
        chunk_entries(m) =~= Map::empty(),
{
    DashMap::default()
}

/// Calls `DashMap::insert`; afterwards `key` holds `chunk` (replacing any
/// chunk it held) and every other entry is as before.
#[verifier::external_body]
pub(crate) fn insert_chunk_entry(m: &mut ChunkTable, key: ChunkKey, chunk: Arc<Chunk>)
    ensures
        chunk_entries(*final(m)) == chunk_entries(*old(m)).insert(key, chunk@),
{
    m.insert(key, chunk);
}

/// Calls `DashMap::remove`; afterwards `key` holds no chunk and every other
/// entry is as before.
#[verifier::external_body]
pub(crate) fn remove_chunk_entry(m: &mut ChunkTable, key: ChunkKey)
    ensures
        chunk_entries(*final(m)) == chunk_entries(*old(m)).remove(key),
{
    m.remove(&key);
}

/// Calls `DashMap::contains_key`: whether `key` holds a chunk.
#[verifier::external_body]
pub(crate) fn has_chunk_entry(m: &ChunkTable, key: ChunkKey) -> (b: bool)
    ensures
        b == chunk_entries(*m).contains_key(key),
{
    m.contains_key(&key)
}

/// Calls `DashMap::get` and clones the `Arc` of the entry it finds:
/// `Some` exactly when `key` holds a chunk, sharing that chunk.
#[verifier::external_body]
pub(crate) fn chunk_entry(m: &ChunkTable, key: ChunkKey) -> (r: Option<Arc<Chunk>>)
    ensures
        r is Some == chunk_entries(*m).contains_key(key),
        r is Some ==> r.unwrap()@ == chunk_entries(*m)[key],
{
    m.get(&key).map(|entry| entry.value().clone())
}

/// Calls `DashMap::iter` and collects the key of each entry it visits. Each
/// key of the table comes out once; in which order is left open, as the
/// table does not fix it.
#[verifier::external_body]
pub(crate) fn chunk_keys(m: &ChunkTable) -> (keys: Vec<ChunkKey>)
    ensures
        keys@.to_set() == chunk_entries(*m).dom(),
        keys@.no_duplicates(),
{
    m.iter().map(|entry| *entry.key()).collect()
}

/// Calls `DashMap::default`; a new set is empty.
#[verifier::external_body]
pub(crate) fn new_key_set() -> (m: KeySet)
    ensures
        key_set(m) =~= Set::empty(),
{
    DashMap::default()
}

/// Calls `DashMap::insert` with the unit value; afterwards the set also holds `key`.
#[verifier::external_body]
pub(crate) fn insert_key(m: &mut KeySet, key: ChunkKey)
    ensures
        key_set(*final(m)) == key_set(*old(m)).insert(key),
{
    m.insert(key, ());
}

/// Calls `DashMap::remove`; afterwards the set no longer holds `key`.
#[verifier::external_body]
pub(crate) fn remove_key(m: &mut KeySet, key: ChunkKey)
    ensures
        key_set(*final(m)) == key_set(*old(m)).remove(key),
{
    m.remove(&key);
}

/// Calls `DashMap::contains_key`: whether the set holds `key`.
#[verifier::external_body]
pub(crate) fn has_key(m: &KeySet, key: ChunkKey) -> (b: bool)
    ensures
        b == key_set(*m).contains(key),
{
    m.contains_key(&key)
}

} // verus!
