//! A registry of items looked up by name or by id, where an item's id is the
//! order in which it was inserted and a name refers to the item last inserted
//! under it.
use vstd::prelude::*;

verus! {

/// Position of the last occurrence of `name` in `names`.
pub open spec fn last_index_of(names: Seq<Seq<char>>, name: Seq<char>) -> Option<int>
    decreases names.len(),
{
    if names.len() == 0 {
        None
    } else if names.last() == name {
        Some(names.len() - 1)
    } else {
        last_index_of(names.drop_last(), name)
    }
}

proof fn lemma_last_index_found(names: Seq<Seq<char>>, name: Seq<char>, j: int)
    requires
        0 <= j < names.len(),
        names[j] == name,
        forall|k: int| j < k < names.len() ==> names[k] != name,
    ensures
        last_index_of(names, name) == Some(j),
    decreases names.len(),
{
    if j < names.len() - 1 {
        assert forall|k: int| j < k < names.drop_last().len() implies names.drop_last()[k] != name by {
            assert(names.drop_last()[k] == names[k]);
        }
        lemma_last_index_found(names.drop_last(), name, j);
    }
}

proof fn lemma_last_index_absent(names: Seq<Seq<char>>, name: Seq<char>)
    requires
        forall|k: int| 0 <= k < names.len() ==> names[k] != name,
    ensures
        last_index_of(names, name) == None::<int>,
    decreases names.len(),
{
    if names.len() > 0 {
        assert forall|k: int| 0 <= k < names.drop_last().len() implies names.drop_last()[k] != name by {
            assert(names.drop_last()[k] == names[k]);
        }
        lemma_last_index_absent(names.drop_last(), name);
    }
}

/// Items in insertion order, each under a name.
#[derive(Debug)]
pub struct Registry<T> {
    names: Vec<String>,
    items: Vec<T>,
}

impl<T> Registry<T> {
    /// The name each item was inserted under, by id.
    pub closed spec fn names(&self) -> Seq<Seq<char>> {
        self.names@.map_values(|s: String| s@)
    }

    /// The items, by id.
    pub closed spec fn items(&self) -> Seq<T> {
        self.items@
    }

    /// There is one name per item.
    pub open spec fn wf(&self) -> bool {
        self.names().len() == self.items().len()
    }

    /// The id `name` refers to: the last item inserted under it.
    pub open spec fn id_spec(&self, name: Seq<char>) -> Option<usize> {
        match last_index_of(self.names(), name) {
            Some(i) => Some(i as usize),
            None => None,
        }
    }

    /// Puts `item` after the others, with the next id, under `name`.
    pub fn insert(&mut self, name: &str, item: T)
        requires
            old(self).wf(),
        ensures
            final(self).wf(),
            final(self).items() == old(self).items().push(item),
            final(self).names() == old(self).names().push(name@),
    {
        self.items.push(item);
        self.names.push(name.to_owned());
        assert(self.names() =~= old(self).names().push(name@));
    }

    /// The id of the item last inserted under `name`.
    pub fn id_of(&self, name: &str) -> (r: Option<usize>)
        ensures
            r == self.id_spec(name@),
    {
        let key = name.to_owned();
        let mut i = self.names.len();
        while i > 0
            invariant
                i <= self.names@.len(),
                key@ == name@,
                forall|k: int| i <= k < self.names().len() ==> self.names()[k] != name@,
            decreases i,
        {
            if self.names[i - 1] == key {
                proof {
                    assert(self.names()[i - 1] == name@);
                    lemma_last_index_found(self.names(), name@, i - 1);
                }
                return Some(i - 1);
            }
            assert(self.names()[i - 1] != name@);
            i = i - 1;
        }
        proof {
            lemma_last_index_absent(self.names(), name@);
        }
        None
    }

    /// The item with id `id`.
    pub fn by_id(&self, id: usize) -> (r: Option<&T>)
        ensures
            r == if id < self.items().len() {
                Some(&self.items()[id as int])
            } else {
                None::<&T>
            },
    {
        if id < self.items.len() {
            Some(&self.items[id])
        } else {
            None
        }
    }

    /// The item last inserted under `name`.
    pub fn by_name(&self, name: &str) -> (r: Option<&T>)
        ensures
            r == match self.id_spec(name@) {
                Some(i) => if i < self.items().len() {
                    Some(&self.items()[i as int])
                } else {
                    None::<&T>
                },
                None => None::<&T>,
            },
            self.wf() && self.id_spec(name@) is Some ==> r is Some,
    {
        proof {
            lemma_last_index_in_range(self.names(), name@);
        }
        match self.id_of(name) {
            Some(id) => self.by_id(id),
            None => None,
        }
    }
}

proof fn lemma_last_index_in_range(names: Seq<Seq<char>>, name: Seq<char>)
    ensures
        last_index_of(names, name) matches Some(i) ==> 0 <= i < names.len() && names[i] == name,
    decreases names.len(),
{
    if names.len() > 0 && names.last() != name {
        lemma_last_index_in_range(names.drop_last(), name);
    }
}

impl<T> Default for Registry<T> {
    /// An empty registry.
    fn default() -> (r: Self)
        ensures
            r.wf(),
            r.items() == Seq::<T>::empty(),
            r.names() == Seq::<Seq<char>>::empty(),
    {
        let r = Self { names: Vec::new(), items: Vec::new() };
        assert(r.names() =~= Seq::<Seq<char>>::empty());
        r
    }
}

/// Looking a name up right after inserting an item under it finds that item
/// with the id it was given; every other name finds what it found before.
pub proof fn law_insert_then_lookup<T>(before: Registry<T>, after: Registry<T>, name: Seq<char>, item: T, other: Seq<char>)
    requires
        before.wf(),
        before.items().len() < usize::MAX,
        after.items() == before.items().push(item),
        after.names() == before.names().push(name),
    ensures
        after.wf(),
        after.id_spec(name) == Some(before.items().len() as usize),
        after.items()[before.items().len() as int] == item,
        other != name ==> after.id_spec(other) == before.id_spec(other),
{
    lemma_last_index_found(after.names(), name, before.names().len() as int);
    if other != name {
        assert(after.names().drop_last() =~= before.names());
    }
}

} // verus!
