use vstd::hash_map::{HashMapWithView, StringHashMap};
use vstd::prelude::*;

verus! {

/// An entity handle as the library sees it: the engine entity's stable bit pattern.
pub type EntityBits = u64;

/// The abstract content of an [`ObeliskEntityIndex`]: both directions of the map.
pub struct IndexView {
    pub to_entity: Map<Seq<char>, EntityBits>,
    pub to_id: Map<EntityBits, Seq<char>>,
}

impl IndexView {
    /// The two directions agree: every id maps to an entity that maps back to it, and vice versa.
    pub open spec fn consistent(self) -> bool {
        &&& forall|s: Seq<char>| #[trigger] self.to_entity.contains_key(s) ==> {
            &&& self.to_id.contains_key(self.to_entity[s])
            &&& self.to_id[self.to_entity[s]] == s
        }
        &&& forall|e: EntityBits| #[trigger] self.to_id.contains_key(e) ==> {
            &&& self.to_entity.contains_key(self.to_id[e])
            &&& self.to_entity[self.to_id[e]] == e
        }
    }

    /// The index after registering `e` under `id`.
    pub open spec fn inserted(self, e: EntityBits, id: Seq<char>) -> IndexView {
        IndexView { to_entity: self.to_entity.insert(id, e), to_id: self.to_id.insert(e, id) }
    }

    /// The index after forgetting `e` (and the id it was registered under, if any).
    pub open spec fn removed(self, e: EntityBits) -> IndexView {
        if self.to_id.contains_key(e) {
            IndexView { to_entity: self.to_entity.remove(self.to_id[e]), to_id: self.to_id.remove(e) }
        } else {
            self
        }
    }

    /// `e` and `id` are each either unregistered or registered with each other.
    pub open spec fn compatible(self, e: EntityBits, id: Seq<char>) -> bool {
        &&& (self.to_id.contains_key(e) ==> self.to_id[e] == id)
        &&& (self.to_entity.contains_key(id) ==> self.to_entity[id] == e)
    }
}

/// Bidirectional map between engine entities and stable obelisk string ids.
pub struct ObeliskEntityIndex {
    to_entity: StringHashMap<EntityBits>,
    to_id: HashMapWithView<EntityBits, String>,
}

impl View for ObeliskEntityIndex {
    type V = IndexView;

    closed spec fn view(&self) -> IndexView {
        IndexView {
            to_entity: self.to_entity@,
            to_id: self.to_id@.map_values(|s: String| s@),
        }
    }
}

impl ObeliskEntityIndex {
    /// An empty index.
    pub fn new() -> (r: Self)
        ensures
            r@.to_entity == Map::<Seq<char>, EntityBits>::empty(),
            r@.to_id == Map::<EntityBits, Seq<char>>::empty(),
            r@.consistent(),
    {
        broadcast use vstd::std_specs::hash::group_hash_axioms;
        let r = ObeliskEntityIndex { to_entity: StringHashMap::new(), to_id: HashMapWithView::new() };
        assert(r@.to_id =~= Map::<EntityBits, Seq<char>>::empty());
        r
    }

    /// The entity registered under `id`, if any.
    pub fn entity(&self, id: &str) -> (r: Option<EntityBits>)
        ensures
            r == (if self@.to_entity.contains_key(id@) { Some(self@.to_entity[id@]) } else { None::<EntityBits> }),
    {
        match self.to_entity.get(id) {
            Some(e) => Some(*e),
            None => None,
        }
    }

    /// The id `e` is registered under, if any.
    pub fn id(&self, e: EntityBits) -> (r: Option<&str>)
        ensures
            match r {
                Some(s) => self@.to_id.contains_key(e) && s@ == self@.to_id[e],
                None => !self@.to_id.contains_key(e),
            },
    {
        match self.to_id.get(&e) {
            Some(s) => Some(s.as_str()),
            None => None,
        }
    }

    /// Register `e` under `id` (both directions).
    pub fn insert(&mut self, e: EntityBits, id: String)
        ensures
            final(self)@ == old(self)@.inserted(e, id@),
    {
        self.to_entity.insert(id.clone(), e);
        self.to_id.insert(e, id);
        assert(self@.to_id =~= old(self)@.to_id.insert(e, id@));
    }

    /// Forget `e` and the id it was registered under.
    pub fn remove(&mut self, e: EntityBits)
        ensures
            final(self)@ == old(self)@.removed(e),
    {
        match self.to_id.remove(&e) {
            Some(id) => {
                self.to_entity.remove(id.as_str());
                assert(self@.to_id =~= old(self)@.to_id.remove(e));
            },
            None => {
                assert(self@.to_id =~= old(self)@.to_id);
            },
        }
    }
}

/// Lookups after a registration see it: the id resolves to the entity and the entity to the id.
pub proof fn lemma_lookup_after_insert(v: IndexView, e: EntityBits, id: Seq<char>)
    ensures
        v.inserted(e, id).to_entity.contains_key(id),
        v.inserted(e, id).to_entity[id] == e,
        v.inserted(e, id).to_id.contains_key(e),
        v.inserted(e, id).to_id[e] == id,
{
}

/// After an entity is forgotten, neither it nor the id it had resolves any more.
pub proof fn lemma_lookup_after_remove(v: IndexView, e: EntityBits)
    requires
        v.consistent(),
    ensures
        !v.removed(e).to_id.contains_key(e),
        v.to_id.contains_key(e) ==> !v.removed(e).to_entity.contains_key(v.to_id[e]),
        v.removed(e).consistent(),
{
}

/// Registering a pair that does not conflict with existing entries keeps both directions in sync.
pub proof fn lemma_insert_keeps_consistent(v: IndexView, e: EntityBits, id: Seq<char>)
    requires
        v.consistent(),
        v.compatible(e, id),
    ensures
        v.inserted(e, id).consistent(),
{
}

/// Forgetting a freshly registered entity restores the index it was registered into.
pub proof fn lemma_remove_undoes_insert(v: IndexView, e: EntityBits, id: Seq<char>)
    requires
        !v.to_id.contains_key(e),
        !v.to_entity.contains_key(id),
    ensures
        v.inserted(e, id).removed(e) == v,
{
    assert(v.inserted(e, id).removed(e).to_entity =~= v.to_entity);
    assert(v.inserted(e, id).removed(e).to_id =~= v.to_id);
}


impl Default for ObeliskEntityIndex {
    /// An empty index.
    fn default() -> (r: Self)
        ensures
            r@.to_entity == Map::<Seq<char>, EntityBits>::empty(),
            r@.to_id == Map::<EntityBits, Seq<char>>::empty(),
    {
        ObeliskEntityIndex::new()
    }
}

} // verus!
