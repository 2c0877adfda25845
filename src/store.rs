//! The component store: the registry that owns live component instances,
//! keyed by their identities.
use vstd::prelude::*;
use crate::identity::ComponentId;
use crate::node::{CoreError, Node};

verus! {

/// One live component instance.
pub struct ComponentEntry {
    /// The instance's declared properties, each a name and a value.
    pub properties: Vec<(String, String)>,
    /// The child nodes handed to the instance (its slot content).
    pub children: Vec<Node>,
    /// The subtree that the component produced for these properties.
    pub rendered: Node,
}

/// A keyed mapping from component identities to entries. No identity is
/// held twice.
pub struct ComponentStore {
    items: Vec<(ComponentId, ComponentEntry)>,
    /// The instances whose subtrees are being produced right now, outermost
    /// first.
    building: Vec<ComponentId>,
}

/// The entry held under `id` in a sequence of keyed entries.
pub open spec fn lookup(items: Seq<(ComponentId, ComponentEntry)>, id: ComponentId) -> Option<
    ComponentEntry,
> {
    if exists|i: int| 0 <= i < items.len() && items[i].0 == id {
        Some(items[choose|i: int| 0 <= i < items.len() && items[i].0 == id].1)
    } else {
        None
    }
}

pub open spec fn ids_unique(items: Seq<(ComponentId, ComponentEntry)>) -> bool {
    forall|i: int, j: int|
        0 <= i < items.len() && 0 <= j < items.len() && i != j ==> items[i].0 != items[j].0
}

proof fn lemma_lookup_at(items: Seq<(ComponentId, ComponentEntry)>, i: int)
    requires
        ids_unique(items),
        0 <= i < items.len(),
    ensures
        lookup(items, items[i].0) == Some(items[i].1),
{
}

impl ComponentStore {
    #[verifier::type_invariant]
    spec fn inv(&self) -> bool {
        ids_unique(self.items@)
    }

    /// The entry held under `id`, if any.
    pub closed spec fn spec_get(&self, id: ComponentId) -> Option<ComponentEntry> {
        lookup(self.items@, id)
    }

    /// The number of entries.
    pub closed spec fn spec_len(&self) -> nat {
        self.items@.len()
    }

    pub open spec fn contains(&self, id: ComponentId) -> bool {
        self.spec_get(id) is Some
    }

    /// The instances whose subtrees are being produced, outermost first.
    pub closed spec fn spec_building(&self) -> Seq<ComponentId> {
        self.building@
    }

    /// Tells whether the subtree of `id` is being produced.
    pub fn is_building(&self, id: ComponentId) -> (r: bool)
        ensures
            r == self.spec_building().contains(id),
    {
        let mut i: usize = 0;
        while i < self.building.len()
            invariant
                i <= self.building@.len(),
                forall|j: int| 0 <= j < i ==> self.building@[j] != id,
            decreases self.building@.len() - i,
        {
            if self.building[i] == id {
                proof {
                    assert(self.building@[i as int] == id);
                }
                return true;
            }
            i = i + 1;
        }
        false
    }

    /// Marks `id` as being produced.
    pub(crate) fn begin_building(&mut self, id: ComponentId)
        ensures
            final(self).spec_building() == old(self).spec_building().push(id),
            final(self).spec_len() == old(self).spec_len(),
            forall|k: ComponentId| final(self).spec_get(k) == old(self).spec_get(k),
    {
        proof {
            use_type_invariant(&*self);
        }
        let mut building: Vec<ComponentId> = Vec::new();
        std::mem::swap(&mut building, &mut self.building);
        building.push(id);
        self.building = building;
    }

    /// Marks the innermost instance being produced as done.
    pub(crate) fn end_building(&mut self)
        ensures
            final(self).spec_building() == if old(self).spec_building().len() == 0 {
                old(self).spec_building()
            } else {
                old(self).spec_building().drop_last()
            },
            final(self).spec_len() == old(self).spec_len(),
            forall|k: ComponentId| final(self).spec_get(k) == old(self).spec_get(k),
    {
        proof {
            use_type_invariant(&*self);
        }
        let mut building: Vec<ComponentId> = Vec::new();
        std::mem::swap(&mut building, &mut self.building);
        if building.len() > 0 {
            building.pop();
        }
        self.building = building;
    }

    /// An empty store.
    pub fn new() -> (r: ComponentStore)
        ensures
            forall|id: ComponentId| r.spec_get(id) is None,
            r.spec_len() == 0,
            r.spec_building().len() == 0,
    {
        ComponentStore { items: Vec::new(), building: Vec::new() }
    }

    /// The number of entries.
    pub fn len(&self) -> (r: usize)
        ensures
            r == self.spec_len(),
    {
        self.items.len()
    }

    /// The position of `id`, if held.
    fn position(&self, id: ComponentId) -> (r: Option<usize>)
        ensures
            match r {
                Some(i) => i < self.items@.len() && self.items@[i as int].0 == id,
                None => forall|i: int| 0 <= i < self.items@.len() ==> self.items@[i].0 != id,
            },
    {
        let mut i: usize = 0;
        while i < self.items.len()
            invariant
                i <= self.items@.len(),
                forall|j: int| 0 <= j < i ==> self.items@[j].0 != id,
            decreases self.items@.len() - i,
        {
            if self.items[i].0 == id {
                return Some(i);
            }
            i = i + 1;
        }
        None
    }

    /// Tells whether an entry is held under `id`.
    pub fn contains_id(&self, id: ComponentId) -> (r: bool)
        ensures
            r == self.contains(id),
    {
        match self.position(id) {
            Some(_) => true,
            None => false,
        }
    }

    /// Adds `entry` under `id`, unless `id` is already held: then the store
    /// is left as it was and the duplicate is reported.
    pub fn insert(&mut self, id: ComponentId, entry: ComponentEntry) -> (r: Result<(), CoreError>)
        ensures
            r == insert_outcome(old(self).contains(id), id),
            insert_post(*old(self), *final(self), id, entry),
    {
        proof {
            use_type_invariant(&*self);
        }
        match self.position(id) {
            Some(i) => {
                proof {
                    lemma_lookup_at(self.items@, i as int);
                }
                Err(CoreError::DuplicateComponentId(id))
            },
            None => {
                let mut items: Vec<(ComponentId, ComponentEntry)> = Vec::new();
                std::mem::swap(&mut items, &mut self.items);
                let ghost items0 = items@;
                items.push((id, entry));
                proof {
                    assert(ids_unique(items@));
                    assert forall|k: ComponentId|
                        lookup(items@, k) == if k == id {
                            Some(entry)
                        } else {
                            lookup(items0, k)
                        } by {
                        if k == id {
                            lemma_lookup_at(items@, items0.len() as int);
                        } else if exists|i: int| 0 <= i < items0.len() && items0[i].0 == k {
                            let i = choose|i: int| 0 <= i < items0.len() && items0[i].0 == k;
                            lemma_lookup_at(items0, i);
                            lemma_lookup_at(items@, i);
                        } else {
                            assert(!(exists|i: int| 0 <= i < items@.len() && items@[i].0 == k));
                        }
                    }
                }
                self.items = items;
                Ok(())
            },
        }
    }

    /// The entry held under `id`, or `ComponentNotFound`.
    pub fn get(&self, id: ComponentId) -> (r: Result<&ComponentEntry, CoreError>)
        ensures
            match self.spec_get(id) {
                Some(e) => r == Ok::<&ComponentEntry, CoreError>(&e),
                None => r == Err::<&ComponentEntry, CoreError>(CoreError::ComponentNotFound(id)),
            },
    {
        proof {
            use_type_invariant(self);
        }
        match self.position(id) {
            Some(i) => {
                proof {
                    lemma_lookup_at(self.items@, i as int);
                }
                Ok(&self.items[i].1)
            },
            None => Err(CoreError::ComponentNotFound(id)),
        }
    }

    /// Replaces the entry held under `id`, or reports `ComponentNotFound` and
    /// leaves the store as it was.
    pub fn update(&mut self, id: ComponentId, entry: ComponentEntry) -> (r: Result<(), CoreError>)
        ensures
            !old(self).contains(id) ==> r == Err::<(), CoreError>(CoreError::ComponentNotFound(id))
                && final(self).spec_len() == old(self).spec_len()
                && forall|k: ComponentId| final(self).spec_get(k) == old(self).spec_get(k),
            old(self).contains(id) ==> r is Ok
                && final(self).spec_len() == old(self).spec_len()
                && forall|k: ComponentId|
                final(self).spec_get(k) == if k == id {
                    Some(entry)
                } else {
                    old(self).spec_get(k)
                },
    {
        proof {
            use_type_invariant(&*self);
        }
        match self.position(id) {
            None => Err(CoreError::ComponentNotFound(id)),
            Some(i) => {
                let mut items: Vec<(ComponentId, ComponentEntry)> = Vec::new();
                std::mem::swap(&mut items, &mut self.items);
                let ghost items0 = items@;
                items.set(i, (id, entry));
                proof {
                    assert(ids_unique(items@));
                    assert forall|k: ComponentId|
                        lookup(items@, k) == if k == id {
                            Some(entry)
                        } else {
                            lookup(items0, k)
                        } by {
                        if k == id {
                            lemma_lookup_at(items@, i as int);
                        } else if exists|j: int| 0 <= j < items0.len() && items0[j].0 == k {
                            let j = choose|j: int| 0 <= j < items0.len() && items0[j].0 == k;
                            lemma_lookup_at(items0, j);
                            lemma_lookup_at(items@, j);
                        } else {
                            assert(!(exists|j: int| 0 <= j < items@.len() && items@[j].0 == k));
                        }
                    }
                }
                self.items = items;
                Ok(())
            },
        }
    }

    /// Removes the entry held under `id`; removing an absent identity does
    /// nothing.
    pub fn remove(&mut self, id: ComponentId)
        ensures
            forall|k: ComponentId|
                final(self).spec_get(k) == if k == id {
                    None
                } else {
                    old(self).spec_get(k)
                },
            final(self).spec_len() == if old(self).contains(id) {
                (old(self).spec_len() - 1) as nat
            } else {
                old(self).spec_len()
            },
    {
        proof {
            use_type_invariant(&*self);
        }
        match self.position(id) {
            None => {},
            Some(i) => {
                let mut items: Vec<(ComponentId, ComponentEntry)> = Vec::new();
                std::mem::swap(&mut items, &mut self.items);
                let ghost items0 = items@;
                proof {
                    lemma_lookup_at(items0, i as int);
                }
                items.remove(i);
                proof {
                    assert(forall|j: int|
                        0 <= j < items@.len() ==> #[trigger] items@[j] == if j < i {
                            items0[j]
                        } else {
                            items0[j + 1]
                        });
                    assert(ids_unique(items@));
                    assert forall|k: ComponentId|
                        lookup(items@, k) == if k == id {
                            None
                        } else {
                            lookup(items0, k)
                        } by {
                        if exists|j: int| 0 <= j < items@.len() && items@[j].0 == k {
                            let j = choose|j: int| 0 <= j < items@.len() && items@[j].0 == k;
                            lemma_lookup_at(items@, j);
                            if j < i {
                                lemma_lookup_at(items0, j);
                            } else {
                                lemma_lookup_at(items0, j + 1);
                            }
                        } else if k != id && exists|j: int| 0 <= j < items0.len() && items0[j].0 == k {
                            let j = choose|j: int| 0 <= j < items0.len() && items0[j].0 == k;
                            if j < i {
                                assert(items@[j].0 == k);
                            } else {
                                assert(items@[j - 1].0 == k);
                            }
                        }
                    }
                }
                self.items = items;
            },
        }
    }
}

/// How a non-replacing insert of `entry` under `id` takes `before` to
/// `after`: a held identity leaves the store as it was, a new one is added.
pub open spec fn insert_post(
    before: ComponentStore,
    after: ComponentStore,
    id: ComponentId,
    entry: ComponentEntry,
) -> bool {
    if before.contains(id) {
        &&& after.spec_len() == before.spec_len()
        &&& forall|k: ComponentId| after.spec_get(k) == before.spec_get(k)
    } else {
        &&& after.spec_len() == before.spec_len() + 1
        &&& forall|k: ComponentId|
            after.spec_get(k) == if k == id {
                Some(entry)
            } else {
                before.spec_get(k)
            }
    }
}

/// What a non-replacing insert of `id` returns, given whether the store
/// already held `id`.
pub open spec fn insert_outcome(held: bool, id: ComponentId) -> Result<(), CoreError> {
    if held {
        Err(CoreError::DuplicateComponentId(id))
    } else {
        Ok(())
    }
}

} // verus!
