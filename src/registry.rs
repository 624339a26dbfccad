//! Interning of names to small sequential ids, with one item stored per id.

use vstd::prelude::*;

verus! {

/// Why a registration was refused.
#[derive(Clone, Copy, Debug, PartialEq, Eq, Structural)]
pub enum RegistryError {
    /// The name is already registered.
    DuplicateRegistration,
}

/// No name occurs twice.
pub open spec fn unique_names(names: Seq<Seq<char>>) -> bool {
    forall|i: int, j: int| 0 <= i < j < names.len() ==> names[i] != names[j]
}

/// The id under which `name` stands in `names`, if it stands there.
pub open spec fn id_by_name(names: Seq<Seq<char>>, name: Seq<char>) -> Option<int> {
    if names.contains(name) {
        Some(choose|i: int| 0 <= i < names.len() && names[i] == name)
    } else {
        None
    }
}

/// In a list without repeats, the id of the name at `i` is `i`.
pub proof fn lemma_id_by_name_at(names: Seq<Seq<char>>, i: int)
    requires
        unique_names(names),
        0 <= i < names.len(),
    ensures
        id_by_name(names, names[i]) == Some(i),
{
    assert(names.contains(names[i]));
}

/// Registering a name that is not yet present makes it resolve to the next
/// free id, keeps the names unique, and makes a second registration of the
/// same name a duplicate.
pub proof fn lemma_register_then_lookup(names: Seq<Seq<char>>, name: Seq<char>)
    requires
        unique_names(names),
        !names.contains(name),
    ensures
        unique_names(names.push(name)),
        id_by_name(names.push(name), name) == Some(names.len() as int),
        names.push(name).contains(name),
{
    let n = names.push(name);
    assert(n[names.len() as int] == name);
    assert forall|i: int, j: int| 0 <= i < j < n.len() implies n[i] != n[j] by {
        if j == names.len() {
            assert(names[i] == n[i]);
        }
    }
    lemma_id_by_name_at(n, names.len() as int);
}

/// Names mapped to sequential ids starting at 0, with one item per id.
/// Append only: nothing is removed or renamed.
pub struct Registry<T> {
    names_by_id: Vec<String>,
    items_by_id: Vec<T>,
}

impl<T> Registry<T> {
    /// The registered names, indexed by id.
    pub closed spec fn names(&self) -> Seq<Seq<char>> {
        self.names_by_id@.map_values(|s: String| s@)
    }

    /// The registered items, indexed by id.
    pub closed spec fn items(&self) -> Seq<T> {
        self.items_by_id@
    }

    /// Every id has one name and one item, and names are unique.
    pub open spec fn wf(&self) -> bool {
        &&& self.names().len() == self.items().len()
        &&& unique_names(self.names())
    }

    /// An empty registry.
    pub fn new() -> (r: Self)
        ensures
            r.wf(),
            r.names() == Seq::<Seq<char>>::empty(),
            r.items() == Seq::<T>::empty(),
    {
        let r = Registry { names_by_id: Vec::new(), items_by_id: Vec::new() };
        assert(r.names() =~= Seq::<Seq<char>>::empty());
        r
    }

    /// Number of registered ids.
    pub fn len(&self) -> (r: usize)
        requires
            self.wf(),
        ensures
            r == self.items().len(),
    {
        self.items_by_id.len()
    }

    /// Registers `item` under `name` and returns its id, the next free one.
    /// A name that is already registered is refused and the registry is left
    /// as it was.
    pub fn register(&mut self, name: &str, item: T) -> (r: Result<usize, RegistryError>)
        requires
            old(self).wf(),
        ensures
            final(self).wf(),
            r is Err <==> old(self).names().contains(name@),
            r is Err ==> r == Err::<usize, RegistryError>(RegistryError::DuplicateRegistration)
                && final(self).names() == old(self).names()
                && final(self).items() == old(self).items(),
            r is Ok ==> r == Ok::<usize, RegistryError>(old(self).items().len() as usize)
                && final(self).names() == old(self).names().push(name@)
                && final(self).items() == old(self).items().push(item),
    {
        match self.get_item_id(name) {
            Some(_) => Err(RegistryError::DuplicateRegistration),
            None => {
                proof {
                    lemma_register_then_lookup(self.names(), name@);
                }
                let id = self.items_by_id.len();
                self.names_by_id.push(name.to_owned());
                self.items_by_id.push(item);
                assert(self.names() =~= old(self).names().push(name@));
                Ok(id)
            },
        }
    }

    /// The item registered under `id`.
    pub fn get_item(&self, id: usize) -> (r: &T)
        requires
            self.wf(),
            id < self.items().len(),
        ensures
            *r == self.items()[id as int],
    {
        &self.items_by_id[id]
    }

    /// The id registered under `name`, or `None` when the name is unknown.
    pub fn get_item_id(&self, name: &str) -> (r: Option<usize>)
        requires
            self.wf(),
        ensures
            match r {
                Some(i) => id_by_name(self.names(), name@) == Some(i as int),
                None => id_by_name(self.names(), name@) is None,
            },
    {
        let key = name.to_owned();
        let mut i: usize = 0;
        while i < self.names_by_id.len()
            invariant
                self.wf(),
                key@ == name@,
                i <= self.names().len(),
                self.names().len() == self.names_by_id@.len(),
                forall|k: int| 0 <= k < i ==> self.names()[k] != name@,
            decreases self.names().len() - i,
        {
            if self.names_by_id[i] == key {
                proof {
                    lemma_id_by_name_at(self.names(), i as int);
                }
                return Some(i);
            }
            i = i + 1;
        }
        None
    }
}

} // verus!
