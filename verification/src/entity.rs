//! A plain entity store: entities by id and components by kind, where
//! adding a component of a kind that an entity already has replaces it.

use vstd::prelude::*;

use crate::ecs::Ecs;

verus! {

/// An entity, known by its id.
pub struct Entity {
    pub id: usize,
}

impl From<usize> for Entity {
    fn from(value: usize) -> (e: Self) {
        Entity { id: value }
    }
}

impl vstd::std_specs::convert::FromSpecImpl<usize> for Entity {
    open spec fn obeys_from_spec() -> bool {
        true
    }

    open spec fn from_spec(v: usize) -> Self {
        Entity { id: v }
    }
}

/// A store of entities and their components, by kind.
pub struct Scene<C> {
    store: Ecs<C>,
}

impl<C> Scene<C> {
    /// The entities and their components.
    pub closed spec fn ecs(&self) -> Ecs<C> {
        self.store
    }

    pub open spec fn wf(&self) -> bool {
        self.ecs().wf()
    }

    /// An empty store.
    pub fn new() -> (s: Self)
        ensures
            s.wf(),
            s.ecs().count() == 0,
            s.ecs().kinds() == Seq::<u64>::empty(),
    {
        Scene { store: Ecs::new() }
    }

    /// Adds an entity with no component and returns its id, the number of
    /// entities there were before.
    pub fn add_entity(&mut self) -> (id: usize)
        requires
            old(self).wf(),
            old(self).ecs().count() < usize::MAX,
        ensures
            final(self).wf(),
            id == old(self).ecs().count(),
            Ecs::grown(old(self).ecs(), final(self).ecs()),
    {
        let b = self.store.add_entity();
        b.entity_id
    }

    /// Sets the component of kind `kind` of entity `entity` to `component`,
    /// replacing the one it had, and creating the column of `kind` if there
    /// is none yet.
    pub fn add_comp_to_entity(&mut self, entity: usize, kind: u64, component: C)
        requires
            old(self).wf(),
            entity < old(self).ecs().count(),
        ensures
            final(self).wf(),
            Ecs::put(old(self).ecs(), final(self).ecs(), entity as int, kind, component),
    {
        self.store.put_component(entity, kind, component);
    }

    /// The column of `kind`, if there is one.
    pub fn borrow_comp_vecs(&self, kind: u64) -> (r: Option<&Vec<Option<C>>>)
        requires
            self.wf(),
        ensures
            r is Some <==> self.ecs().has_column(kind),
            r matches Some(v) ==> v@ == self.ecs().column(kind),
    {
        self.store.borrow_comp_vec(kind)
    }

    /// Number of entities.
    pub fn entity_count(&self) -> (n: usize)
        ensures
            n == self.ecs().count(),
    {
        self.store.num_entities()
    }
}

} // verus!
