//! A component store keyed by entity id and by component kind.
//!
//! Every kind of component has one column: a slot per entity, which either
//! holds that entity's component of this kind or is empty.  Columns are
//! created lazily, the first time a component of their kind is added.

use vstd::prelude::*;

use crate::text::{default_entity_name, format_entity_name};

verus! {

broadcast use vstd::function::group_function_axioms;

/// The component kinds that the editor offers to add to an entity.
#[derive(Debug, PartialEq, Eq, Clone, Copy, Structural)]
pub enum AddableComponent {
    Transform,
    PointLight,
    SpotLight,
    DirectionalLight,
}

/// The component kinds that the editor offers, in the order it lists them.
pub const ADDABLE_COMPONENTS: [AddableComponent; 4] = [
    AddableComponent::Transform,
    AddableComponent::PointLight,
    AddableComponent::SpotLight,
    AddableComponent::DirectionalLight,
];

impl AddableComponent {
    /// The name the editor shows for this kind.
    pub fn name(&self) -> (s: &'static str)
        ensures
            s@ == match *self {
                AddableComponent::Transform => "Transform"@,
                AddableComponent::PointLight => "PointLight"@,
                AddableComponent::SpotLight => "SpotLight"@,
                AddableComponent::DirectionalLight => "DirectionalLight"@,
            },
    {
        match self {
            AddableComponent::Transform => "Transform",
            AddableComponent::PointLight => "PointLight",
            AddableComponent::SpotLight => "SpotLight",
            AddableComponent::DirectionalLight => "DirectionalLight",
        }
    }
}

/// One column of the store: the component of kind `kind` of every entity.
pub struct Column<C> {
    pub kind: u64,
    pub slots: Vec<Option<C>>,
}

/// The entity-component store.
pub struct Ecs<C> {
    entity_count: usize,
    component_vecs: Vec<Column<C>>,
    component_to_add: AddableComponent,
}

impl<C> Ecs<C> {
    /// The kind that the editor's "add component" button adds.
    pub closed spec fn addable(&self) -> AddableComponent {
        self.component_to_add
    }

    /// Number of entities.
    pub closed spec fn count(&self) -> nat {
        self.entity_count as nat
    }

    /// The kinds that have a column, in the order the columns were created.
    pub closed spec fn kinds(&self) -> Seq<u64> {
        Seq::new(self.component_vecs@.len(), |i: int| self.component_vecs@[i].kind)
    }

    pub open spec fn has_column(&self, kind: u64) -> bool {
        self.kinds().contains(kind)
    }

    /// The column of `kind` (meaningful when `has_column(kind)`).
    pub closed spec fn column(&self, kind: u64) -> Seq<Option<C>> {
        let i = choose|i: int|
            0 <= i < self.component_vecs@.len() && self.component_vecs@[i].kind == kind;
        self.component_vecs@[i].slots@
    }

    /// The component of kind `kind` of entity `e`, if it has one.
    pub open spec fn component(&self, e: int, kind: u64) -> Option<C> {
        if self.has_column(kind) && 0 <= e < self.column(kind).len() {
            self.column(kind)[e]
        } else {
            None
        }
    }

    pub closed spec fn wf(&self) -> bool {
        &&& self.kinds().no_duplicates()
        &&& forall|i: int|
            0 <= i < self.component_vecs@.len() ==> #[trigger] self.component_vecs@[i].slots@.len()
                == self.entity_count
    }

    /// Every column of a well-formed store has one slot per entity.
    pub proof fn lemma_column_len(&self, kind: u64)
        requires
            self.wf(),
            self.has_column(kind),
        ensures
            self.column(kind).len() == self.count(),
    {
        let i = choose|i: int| 0 <= i < self.kinds().len() && self.kinds()[i] == kind;
        self.lemma_column_at(i);
    }

    proof fn lemma_column_at(&self, i: int)
        requires
            self.wf(),
            0 <= i < self.component_vecs@.len(),
        ensures
            self.column(self.component_vecs@[i].kind) == self.component_vecs@[i].slots@,
            self.has_column(self.component_vecs@[i].kind),
    {
        let k = self.component_vecs@[i].kind;
        assert(self.kinds()[i] == k);
        let j = choose|j: int| 0 <= j < self.component_vecs@.len() && self.component_vecs@[j].kind == k;
        assert(self.kinds()[j] == k);
    }

    /// An empty store: no entity, no column.
    pub fn new() -> (ecs: Self)
        ensures
            ecs.wf(),
            ecs.count() == 0,
            ecs.kinds() == Seq::<u64>::empty(),
            ecs.addable() == AddableComponent::Transform,
    {
        let ecs = Ecs {
            entity_count: 0,
            component_vecs: Vec::new(),
            component_to_add: AddableComponent::Transform,
        };
        assert(ecs.kinds() =~= Seq::<u64>::empty());
        ecs
    }

    /// Number of entities.
    pub fn num_entities(&self) -> (n: usize)
        ensures
            n == self.count(),
    {
        self.entity_count
    }

    /// The kind that the editor's "add component" button adds.
    pub fn component_to_add(&self) -> (a: AddableComponent)
        ensures
            a == self.addable(),
    {
        self.component_to_add
    }

    /// Chooses the kind that the editor's "add component" button adds.
    pub fn set_component_to_add(&mut self, a: AddableComponent)
        ensures
            final(self).addable() == a,
            final(self).count() == old(self).count(),
            final(self).kinds() == old(self).kinds(),
            forall|k: u64| final(self).column(k) == old(self).column(k),
            old(self).wf() ==> final(self).wf(),
    {
        self.component_to_add = a;
    }

    /// Index of the column of `kind` in the column list.
    fn column_index(&self, kind: u64) -> (r: Option<usize>)
        requires
            self.wf(),
        ensures
            r is Some <==> self.has_column(kind),
            r matches Some(i) ==> i < self.component_vecs@.len() && self.component_vecs@[i as int].kind
                == kind && self.column(kind) == self.component_vecs@[i as int].slots@,
    {
        let mut i: usize = 0;
        while i < self.component_vecs.len()
            invariant
                self.wf(),
                i <= self.component_vecs@.len(),
                forall|j: int| 0 <= j < i ==> self.kinds()[j] != kind,
            decreases self.component_vecs@.len() - i,
        {
            if self.component_vecs[i].kind == kind {
                proof {
                    self.lemma_column_at(i as int);
                }
                return Some(i);
            }
            assert(self.kinds()[i as int] != kind);
            i = i + 1;
        }
        None
    }
}

impl<C> Ecs<C> {
    /// `post` is `pre` with `c` added as the component of kind `kind` of
    /// entity `e`; an entity never gets a second component of one kind, so
    /// where it already has one, nothing changes.
    pub open spec fn added(pre: Self, post: Self, e: int, kind: u64, c: C) -> bool {
        &&& post.count() == pre.count()
        &&& post.addable() == pre.addable()
        &&& forall|k: u64| k != kind && pre.has_column(k) ==> post.column(k) == pre.column(k)
        &&& if pre.component(e, kind) is Some {
            &&& post.kinds() == pre.kinds()
            &&& post.column(kind) == pre.column(kind)
        } else if pre.has_column(kind) {
            &&& post.kinds() == pre.kinds()
            &&& post.column(kind) == pre.column(kind).update(e, Some(c))
        } else {
            &&& post.kinds() == pre.kinds().push(kind)
            &&& post.column(kind) == Seq::new(pre.count(), |i: int| None::<C>).update(e, Some(c))
        }
    }

    /// `post` is `pre` with one more entity, which has no component.
    pub open spec fn grown(pre: Self, post: Self) -> bool {
        &&& post.count() == pre.count() + 1
        &&& post.addable() == pre.addable()
        &&& post.kinds() == pre.kinds()
        &&& forall|k: u64| pre.has_column(k) ==> post.column(k) == pre.column(k).push(None)
    }

    /// Adds an entity with no component and returns a builder that adds
    /// components to it.  The new entity's id is the number of entities
    /// there were before.
    pub fn add_entity(&mut self) -> (b: EntityBuilder<'_, C>)
        requires
            old(self).wf(),
            old(self).count() < usize::MAX,
        ensures
            b.entity_id == old(self).count(),
            b.ecs.wf(),
            Self::grown(*old(self), *b.ecs),
            *final(self) == *final(b.ecs),
    {
        let e_id = self.entity_count;
        let ghost pre = *self;
        let mut i: usize = 0;
        while i < self.component_vecs.len()
            invariant
                pre.wf(),
                self.entity_count == pre.entity_count,
                self.component_to_add == pre.component_to_add,
                self.component_vecs@.len() == pre.component_vecs@.len(),
                i <= self.component_vecs@.len(),
                forall|j: int|
                    0 <= j < self.component_vecs@.len() ==> #[trigger] self.component_vecs@[j].kind
                        == pre.component_vecs@[j].kind,
                forall|j: int|
                    0 <= j < i ==> #[trigger] self.component_vecs@[j].slots@
                        == pre.component_vecs@[j].slots@.push(None),
                forall|j: int|
                    i <= j < self.component_vecs@.len() ==> #[trigger] self.component_vecs@[j].slots@
                        == pre.component_vecs@[j].slots@,
            decreases self.component_vecs@.len() - i,
        {
            self.component_vecs[i].slots.push(None);
            i = i + 1;
        }
        self.entity_count = self.entity_count + 1;
        proof {
            assert(self.kinds() =~= pre.kinds());
            assert forall|k: u64| pre.has_column(k) implies self.column(k) == pre.column(k).push(
                None,
            ) by {
                let j = choose|j: int| 0 <= j < pre.kinds().len() && pre.kinds()[j] == k;
                pre.lemma_column_at(j);
                self.lemma_column_at(j);
            }
        }
        EntityBuilder { entity_id: e_id, ecs: self }
    }

    /// Whether entity `e` has a component of kind `kind`.
    pub fn has_component(&self, e: usize, kind: u64) -> (r: bool)
        requires
            self.wf(),
        ensures
            r == self.component(e as int, kind) is Some,
    {
        match self.column_index(kind) {
            Some(i) => {
                proof {
                    self.lemma_column_len(kind);
                }
                e < self.component_vecs[i].slots.len() && self.component_vecs[i].slots[e].is_some()
            },
            None => false,
        }
    }

    /// `post` is `pre` with `c` as the component of kind `kind` of entity
    /// `e`, whatever that entity had there before.
    pub open spec fn put(pre: Self, post: Self, e: int, kind: u64, c: C) -> bool {
        &&& post.count() == pre.count()
        &&& post.addable() == pre.addable()
        &&& forall|k: u64| k != kind && pre.has_column(k) ==> post.column(k) == pre.column(k)
        &&& if pre.has_column(kind) {
            &&& post.kinds() == pre.kinds()
            &&& post.column(kind) == pre.column(kind).update(e, Some(c))
        } else {
            &&& post.kinds() == pre.kinds().push(kind)
            &&& post.column(kind) == Seq::new(pre.count(), |i: int| None::<C>).update(e, Some(c))
        }
    }

    /// Sets the component of kind `kind` of entity `entity` to `component`,
    /// creating the column of `kind` if there is none yet.
    pub(crate) fn put_component(&mut self, entity: usize, kind: u64, component: C)
        requires
            old(self).wf(),
            entity < old(self).count(),
        ensures
            final(self).wf(),
            Self::put(*old(self), *final(self), entity as int, kind, component),
    {
        let ghost pre = *self;
        match self.column_index(kind) {
            Some(i) => {
                proof {
                    self.lemma_column_len(kind);
                }
                self.component_vecs[i].slots.set(entity, Some(component));
                proof {
                    assert(self.kinds() =~= pre.kinds());
                    self.lemma_column_at(i as int);
                    assert forall|k: u64| k != kind && pre.has_column(k) implies self.column(k)
                        == pre.column(k) by {
                        let j = choose|j: int| 0 <= j < pre.kinds().len() && pre.kinds()[j] == k;
                        pre.lemma_column_at(j);
                        self.lemma_column_at(j);
                    }
                }
            },
            None => {
                let mut slots: Vec<Option<C>> = Vec::new();
                let mut n: usize = 0;
                while n < self.entity_count
                    invariant
                        n <= self.entity_count,
                        slots@ == Seq::new(n as nat, |i: int| None::<C>),
                    decreases self.entity_count - n,
                {
                    slots.push(None);
                    n = n + 1;
                    assert(slots@ =~= Seq::new(n as nat, |i: int| None::<C>));
                }
                slots.set(entity, Some(component));
                self.component_vecs.push(Column { kind, slots });
                proof {
                    assert(self.kinds() =~= pre.kinds().push(kind));
                    let last = pre.component_vecs@.len() as int;
                    assert forall|a: int, b: int|
                        0 <= a < self.kinds().len() && 0 <= b < self.kinds().len() && a != b
                        implies self.kinds()[a] != self.kinds()[b] by {
                        if a == last {
                            assert(pre.kinds()[b] == self.kinds()[b]);
                        } else if b == last {
                            assert(pre.kinds()[a] == self.kinds()[a]);
                        } else {
                            assert(pre.kinds()[a] == self.kinds()[a]);
                            assert(pre.kinds()[b] == self.kinds()[b]);
                        }
                    }
                    self.lemma_column_at(last);
                    assert forall|k: u64| k != kind && pre.has_column(k) implies self.column(k)
                        == pre.column(k) by {
                        let j = choose|j: int| 0 <= j < pre.kinds().len() && pre.kinds()[j] == k;
                        pre.lemma_column_at(j);
                        self.lemma_column_at(j);
                    }
                }
            },
        }
    }

    /// Adds `component` as the component of kind `kind` of entity `entity`,
    /// creating the column of `kind` if there is none yet.  Where the entity
    /// already has a component of this kind, the store is left as it was.
    pub fn add_comp_to_entity(&mut self, entity: usize, kind: u64, component: C) -> (r: &mut Self)
        requires
            old(self).wf(),
            entity < old(self).count(),
        ensures
            r.wf(),
            Self::added(*old(self), *r, entity as int, kind, component),
            *final(self) == *final(r),
    {
        if self.has_component(entity, kind) {
            return self;
        }
        self.put_component(entity, kind, component);
        self
    }

    /// The column of `kind`, if there is one.
    pub fn borrow_comp_vec(&self, kind: u64) -> (r: Option<&Vec<Option<C>>>)
        requires
            self.wf(),
        ensures
            r is Some <==> self.has_column(kind),
            r matches Some(v) ==> v@ == self.column(kind),
    {
        match self.column_index(kind) {
            Some(i) => Some(&self.component_vecs[i].slots),
            None => None,
        }
    }
}

/// Adds components to one entity of a store, one after another.
pub struct EntityBuilder<'a, C> {
    pub entity_id: usize,
    pub ecs: &'a mut Ecs<C>,
}

impl<'a, C> EntityBuilder<'a, C> {
    /// Adds `comp` as the entity's component of kind `kind` (see
    /// `Ecs::add_comp_to_entity`).
    pub fn with(&mut self, kind: u64, comp: C) -> (r: &mut Self)
        requires
            old(self).ecs.wf(),
            old(self).entity_id < old(self).ecs.count(),
        ensures
            r.entity_id == old(self).entity_id,
            r.ecs.wf(),
            Ecs::added(*old(self).ecs, *r.ecs, old(self).entity_id as int, kind, comp),
            *final(self) == *final(r),
            *final(r.ecs) == *final(old(self).ecs),
    {
        self.ecs.add_comp_to_entity(self.entity_id, kind, comp);
        self
    }
}

/// Whether entity `i` has a component in both columns `a` and `b`.
pub open spec fn both_present<C>(a: Seq<Option<C>>, b: Seq<Option<C>>, i: int) -> bool {
    a[i] is Some && b[i] is Some
}

/// The entities below `upto`, in increasing order, that have a component in
/// both columns `a` and `b`.
pub open spec fn present_pairs<C>(a: Seq<Option<C>>, b: Seq<Option<C>>, upto: nat) -> Seq<int>
    decreases upto,
{
    if upto == 0 {
        Seq::empty()
    } else {
        let prev = present_pairs(a, b, (upto - 1) as nat);
        if both_present(a, b, upto - 1) {
            prev.push(upto - 1)
        } else {
            prev
        }
    }
}

/// The values inside the entries of `s` that are `Some`, in order.
pub open spec fn somes<U>(s: Seq<Option<U>>) -> Seq<U>
    decreases s.len(),
{
    if s.len() == 0 {
        Seq::empty()
    } else {
        match s.last() {
            Some(u) => somes(s.drop_last()).push(u),
            None => somes(s.drop_last()),
        }
    }
}

/// Collecting the `Some` values of two runs of results one after the other
/// gives those of the first run followed by those of the second: a `None`
/// result drops nothing that was collected.  As many values are collected as
/// there are `Some` results, and every `Some` result's value is among them.
pub proof fn law_somes_collects_every_some<U>(a: Seq<Option<U>>, b: Seq<Option<U>>)
    ensures
        somes(a + b) == somes(a) + somes(b),
        somes(a).len() == a.filter(|o: Option<U>| o is Some).len(),
        forall|i: int| 0 <= i < a.len() && (#[trigger] a[i]) is Some ==> somes(a).contains(a[i]->0),
    decreases b.len(),
{
    lemma_somes_count_and_members(a);
    if b.len() == 0 {
        assert(a + b =~= a);
        assert(somes(a) + somes(b) =~= somes(a));
    } else {
        law_somes_collects_every_some(a, b.drop_last());
        assert((a + b).drop_last() =~= a + b.drop_last());
        assert((a + b).last() == b.last());
        match b.last() {
            Some(u) => {
                assert(somes(a + b) == (somes(a) + somes(b.drop_last())).push(u));
                assert((somes(a) + somes(b.drop_last())).push(u) =~= somes(a) + somes(b.drop_last()).push(u));
            },
            None => {},
        }
    }
}

proof fn lemma_somes_count_and_members<U>(a: Seq<Option<U>>)
    ensures
        somes(a).len() == a.filter(|o: Option<U>| o is Some).len(),
        forall|i: int| 0 <= i < a.len() && (#[trigger] a[i]) is Some ==> somes(a).contains(a[i]->0),
    decreases a.len(),
{
    reveal_with_fuel(Seq::<_>::filter, 1);
    if a.len() > 0 {
        let p = a.drop_last();
        lemma_somes_count_and_members(p);
        assert forall|i: int| 0 <= i < a.len() && (#[trigger] a[i]) is Some implies somes(a).contains(a[i]->0) by {
            if i < a.len() - 1 {
                assert(a[i] == p[i]);
                let k = choose|k: int| 0 <= k < somes(p).len() && somes(p)[k] == p[i]->0;
                assert(somes(a)[k] == somes(p)[k]);
            } else {
                assert(somes(a)[somes(a).len() - 1] == a[i]->0);
            }
        }
    }
}

/// The first `n` elements of `s` (all of them where it has fewer).
pub open spec fn first_n<A>(s: Seq<A>, n: nat) -> Seq<A> {
    if n < s.len() {
        s.take(n as int)
    } else {
        s
    }
}

/// The elements of `present_pairs` are increasing entity ids below `upto`
/// at which both columns hold a component, and every such id is there.
pub proof fn lemma_present_pairs<C>(a: Seq<Option<C>>, b: Seq<Option<C>>, upto: nat)
    ensures
        present_pairs(a, b, upto).len() <= upto,
        forall|j: int|
            0 <= j < present_pairs(a, b, upto).len() ==> 0 <= #[trigger] present_pairs(
                a,
                b,
                upto,
            )[j] < upto && both_present(a, b, present_pairs(a, b, upto)[j]),
        forall|j: int, k: int|
            0 <= j < k < present_pairs(a, b, upto).len() ==> #[trigger] present_pairs(a, b, upto)[j]
                < #[trigger] present_pairs(a, b, upto)[k],
        forall|i: int|
            0 <= i < upto && both_present(a, b, i) ==> present_pairs(a, b, upto).contains(i),
    decreases upto,
{
    if upto > 0 {
        let p = (upto - 1) as nat;
        lemma_present_pairs(a, b, p);
        let prev = present_pairs(a, b, p);
        let cur = present_pairs(a, b, upto);
        assert forall|i: int| 0 <= i < upto && both_present(a, b, i) implies cur.contains(i) by {
            if i < p {
                let j = choose|j: int| 0 <= j < prev.len() && prev[j] == i;
                assert(cur[j] == i);
            } else {
                assert(cur[cur.len() - 1] == i);
            }
        }
    }
}

/// A shorter prefix of the entities gives a prefix of `present_pairs`.
pub proof fn lemma_present_pairs_prefix<C>(a: Seq<Option<C>>, b: Seq<Option<C>>, i: nat, k: nat)
    requires
        i <= k,
    ensures
        present_pairs(a, b, i).len() <= present_pairs(a, b, k).len(),
        present_pairs(a, b, k).take(present_pairs(a, b, i).len() as int) == present_pairs(a, b, i),
    decreases k,
{
    if i < k {
        let p = (k - 1) as nat;
        lemma_present_pairs_prefix(a, b, i, p);
        let si = present_pairs(a, b, i);
        let sp = present_pairs(a, b, p);
        let sk = present_pairs(a, b, k);
        assert(sk.take(si.len() as int) =~= sp.take(si.len() as int));
    } else {
        assert(present_pairs(a, b, k).take(present_pairs(a, b, i).len() as int) =~= present_pairs(
            a,
            b,
            i,
        ));
    }
}

/// Once a prefix of the entities has `n` entities with both components,
/// the first `n` of them no longer change.
pub proof fn lemma_first_n_settled<C>(a: Seq<Option<C>>, b: Seq<Option<C>>, i: nat, k: nat, n: nat)
    requires
        i <= k,
        present_pairs(a, b, i).len() >= n,
    ensures
        first_n(present_pairs(a, b, k), n) == first_n(present_pairs(a, b, i), n),
{
    lemma_present_pairs_prefix(a, b, i, k);
    let si = present_pairs(a, b, i);
    let sk = present_pairs(a, b, k);
    if n < si.len() {
        assert(sk.take(n as int) =~= si.take(n as int));
    } else {
        if n < sk.len() {
            assert(sk.take(n as int) =~= si);
        }
    }
}

impl<C> Ecs<C> {
    /// The entities, in increasing order and at most `n` of them, that
    /// have components of both kinds; none where a kind has no column.
    pub open spec fn selected(&self, kind_t: u64, kind_u: u64, n: nat) -> Seq<int> {
        if self.has_column(kind_t) && self.has_column(kind_u) {
            first_n(present_pairs(self.column(kind_t), self.column(kind_u), self.count()), n)
        } else {
            Seq::empty()
        }
    }

    /// The entities that `do_n` visits, as ids.
    fn select_pairs(&self, it: usize, iu: usize, n: usize) -> (ids: Vec<usize>)
        requires
            self.wf(),
            it < self.component_vecs@.len(),
            iu < self.component_vecs@.len(),
        ensures
            ids@.len() == first_n(
                present_pairs(
                    self.component_vecs@[it as int].slots@,
                    self.component_vecs@[iu as int].slots@,
                    self.count(),
                ),
                n as nat,
            ).len(),
            forall|j: int|
                0 <= j < ids@.len() ==> #[trigger] ids@[j] as int == first_n(
                    present_pairs(
                        self.component_vecs@[it as int].slots@,
                        self.component_vecs@[iu as int].slots@,
                        self.count(),
                    ),
                    n as nat,
                )[j],
    {
        let ghost a = self.component_vecs@[it as int].slots@;
        let ghost b = self.component_vecs@[iu as int].slots@;
        let mut ids: Vec<usize> = Vec::new();
        let mut i: usize = 0;
        while i < self.entity_count && ids.len() < n
            invariant
                self.wf(),
                it < self.component_vecs@.len(),
                iu < self.component_vecs@.len(),
                a == self.component_vecs@[it as int].slots@,
                b == self.component_vecs@[iu as int].slots@,
                i <= self.entity_count,
                ids@.len() == first_n(present_pairs(a, b, i as nat), n as nat).len(),
                ids@.len() <= n,
                forall|j: int|
                    0 <= j < ids@.len() ==> #[trigger] ids@[j] as int == first_n(
                        present_pairs(a, b, i as nat),
                        n as nat,
                    )[j],
            decreases self.entity_count - i,
        {
            proof {
                lemma_present_pairs(a, b, i as nat);
                lemma_present_pairs(a, b, (i + 1) as nat);
            }
            let ghost before = present_pairs(a, b, i as nat);
            assert(before.len() < n);
            if self.component_vecs[it].slots[i].is_some() && self.component_vecs[iu].slots[i].is_some() {
                ids.push(i);
            }
            i = i + 1;
        }
        proof {
            if i < self.entity_count {
                lemma_first_n_settled(a, b, i as nat, self.count(), n as nat);
            }
        }
        ids
    }
}

impl<C> Ecs<C> {
    /// The ids of the entities that have components of both kinds, in
    /// increasing order: the entities that `do_all` visits, so that entry `j`
    /// is the entity whose results come `j`-th.
    pub fn entities_with(&self, kind_t: u64, kind_u: u64) -> (ids: Vec<usize>)
        requires
            self.wf(),
        ensures
            ids@.len() == self.selected(kind_t, kind_u, self.count()).len(),
            forall|j: int|
                0 <= j < ids@.len() ==> #[trigger] ids@[j] as int == self.selected(
                    kind_t,
                    kind_u,
                    self.count(),
                )[j],
    {
        match (self.column_index(kind_t), self.column_index(kind_u)) {
            (Some(it), Some(iu)) => self.select_pairs(it, iu, self.entity_count),
            _ => Vec::new(),
        }
    }
}

impl<C> Ecs<C> {
    /// Calls `f` on the components of kinds `kind_t` and `kind_u` of the
    /// first `n` entities that have both, in increasing entity order, and
    /// collects what it returns.  Where a kind has no column, `f` is not
    /// called and the result is empty.
    pub fn do_n<V, F: Fn(&C, &C) -> Option<V>>(
        &self,
        kind_t: u64,
        kind_u: u64,
        f: F,
        n: usize,
    ) -> (r: Vec<Option<V>>)
        requires
            self.wf(),
            !(kind_t == kind_u && self.has_column(kind_t)),
            forall|a: &C, b: &C| call_requires(f, (a, b)),
        ensures
            r@.len() == self.selected(kind_t, kind_u, n as nat).len(),
            forall|j: int|
                0 <= j < r@.len() ==> call_ensures(
                    f,
                    (
                        &self.column(kind_t)[self.selected(kind_t, kind_u, n as nat)[j]]->0,
                        &self.column(kind_u)[self.selected(kind_t, kind_u, n as nat)[j]]->0,
                    ),
                    #[trigger] r@[j],
                ),
    {
        let mut res: Vec<Option<V>> = Vec::new();
        let (it, iu) = match (self.column_index(kind_t), self.column_index(kind_u)) {
            (Some(it), Some(iu)) => (it, iu),
            _ => {
                return res;
            },
        };
        let ids = self.select_pairs(it, iu, n);
        let ghost sel = self.selected(kind_t, kind_u, n as nat);
        let ghost a = self.column(kind_t);
        let ghost b = self.column(kind_u);
        proof {
            self.lemma_column_len(kind_t);
            self.lemma_column_len(kind_u);
            lemma_present_pairs(a, b, self.count());
        }
        let mut j: usize = 0;
        while j < ids.len()
            invariant
                self.wf(),
                it < self.component_vecs@.len(),
                iu < self.component_vecs@.len(),
                a == self.component_vecs@[it as int].slots@,
                b == self.component_vecs@[iu as int].slots@,
                a.len() == self.count(),
                b.len() == self.count(),
                sel == first_n(present_pairs(a, b, self.count()), n as nat),
                ids@.len() == sel.len(),
                forall|q: int| 0 <= q < ids@.len() ==> #[trigger] ids@[q] as int == sel[q],
                forall|q: int|
                    0 <= q < sel.len() ==> 0 <= #[trigger] sel[q] < self.count() && both_present(
                        a,
                        b,
                        sel[q],
                    ),
                forall|x: &C, y: &C| call_requires(f, (x, y)),
                j <= ids@.len(),
                res@.len() == j,
                forall|q: int|
                    0 <= q < j ==> call_ensures(f, (&a[sel[q]]->0, &b[sel[q]]->0), #[trigger] res@[q]),
            decreases ids@.len() - j,
        {
            let id = ids[j];
            assert(sel[j as int] == id);
            match (&self.component_vecs[it].slots[id], &self.component_vecs[iu].slots[id]) {
                (Some(x), Some(y)) => {
                    let v = f(x, y);
                    res.push(v);
                },
                _ => {
                    assert(false);
                },
            }
            j = j + 1;
        }
        res
    }
}

impl<C> Ecs<C> {
    /// In `post`, the column of `kind` (where `pre` has one) has the same
    /// entities with a component as in `pre`, and the same components but
    /// at the entities in `touched`.
    pub open spec fn touched_only(pre: Self, post: Self, kind: u64, touched: Seq<int>) -> bool {
        pre.has_column(kind) ==> {
            &&& post.has_column(kind)
            &&& post.column(kind).len() == pre.column(kind).len()
            &&& forall|e: int|
                0 <= e < pre.column(kind).len() ==> (#[trigger] post.column(kind)[e] is Some
                    <==> pre.column(kind)[e] is Some)
            &&& forall|e: int|
                0 <= e < pre.column(kind).len() && !touched.contains(e) ==> #[trigger] post.column(
                    kind,
                )[e] == pre.column(kind)[e]
        }
    }

    /// `post` is `pre` where only the components of kinds `kind_t` and
    /// `kind_u` of the entities in `touched` may have changed in value.
    pub open spec fn changed_at(pre: Self, post: Self, kind_t: u64, kind_u: u64, touched: Seq<int>) -> bool {
        &&& post.count() == pre.count()
        &&& post.addable() == pre.addable()
        &&& post.kinds() == pre.kinds()
        &&& forall|k: u64|
            k != kind_t && k != kind_u && pre.has_column(k) ==> post.column(k) == pre.column(k)
        &&& Self::touched_only(pre, post, kind_t, touched)
        &&& Self::touched_only(pre, post, kind_u, touched)
    }

    /// Like `do_n`, but `f` may change the two components it is given.
    pub fn do_n_mut<V, F: FnMut(&mut C, &mut C) -> Option<V>>(
        &mut self,
        kind_t: u64,
        kind_u: u64,
        f: F,
        n: usize,
    ) -> (r: Vec<Option<V>>)
        requires
            old(self).wf(),
            !(kind_t == kind_u && old(self).has_column(kind_t)),
            forall|a: &mut C, b: &mut C| call_requires(f, (a, b)),
        ensures
            final(self).wf(),
            r@.len() == old(self).selected(kind_t, kind_u, n as nat).len(),
            Self::changed_at(
                *old(self),
                *final(self),
                kind_t,
                kind_u,
                old(self).selected(kind_t, kind_u, n as nat),
            ),
            forall|q: int|
                #![trigger old(self).selected(kind_t, kind_u, n as nat)[q]]
                0 <= q < r@.len() ==> 0 <= old(self).selected(kind_t, kind_u, n as nat)[q] < old(self).count()
                    && exists|x: &mut C, y: &mut C|
                    *x == old(self).component(old(self).selected(kind_t, kind_u, n as nat)[q], kind_t)->0
                        && *y == old(self).component(old(self).selected(kind_t, kind_u, n as nat)[q], kind_u)->0
                        && *final(x) == final(self).component(
                        old(self).selected(kind_t, kind_u, n as nat)[q],
                        kind_t,
                    )->0
                        && *final(y) == final(self).component(
                        old(self).selected(kind_t, kind_u, n as nat)[q],
                        kind_u,
                    )->0 && call_ensures(f, (x, y), r@[q]),
    {
        let ghost pre = *self;
        let mut f = f;
        let ghost f0 = f;
        let mut res: Vec<Option<V>> = Vec::new();
        let (it, iu) = match (self.column_index(kind_t), self.column_index(kind_u)) {
            (Some(it), Some(iu)) => (it, iu),
            _ => {
                proof {
                    assert forall|k: u64| pre.has_column(k) implies self.column(k) == pre.column(
                        k,
                    ) by {}
                }
                return res;
            },
        };
        let ids = self.select_pairs(it, iu, n);
        let ghost sel = pre.selected(kind_t, kind_u, n as nat);
        let ghost a = pre.column(kind_t);
        let ghost b = pre.column(kind_u);
        proof {
            pre.lemma_column_len(kind_t);
            pre.lemma_column_len(kind_u);
            lemma_present_pairs(a, b, pre.count());
        }
        let mut col_u: Vec<Option<C>> = Vec::new();
        std::mem::swap(&mut col_u, &mut self.component_vecs[iu].slots);
        let mut j: usize = 0;
        while j < ids.len()
            invariant
                pre.wf(),
                it != iu,
                it < pre.component_vecs@.len(),
                iu < pre.component_vecs@.len(),
                a == pre.component_vecs@[it as int].slots@,
                b == pre.component_vecs@[iu as int].slots@,
                a.len() == pre.count(),
                b.len() == pre.count(),
                self.entity_count == pre.entity_count,
                self.component_to_add == pre.component_to_add,
                self.component_vecs@.len() == pre.component_vecs@.len(),
                forall|q: int|
                    0 <= q < pre.component_vecs@.len() ==> #[trigger] self.component_vecs@[q].kind
                        == pre.component_vecs@[q].kind,
                forall|q: int|
                    0 <= q < pre.component_vecs@.len() && q != it && q != iu
                        ==> #[trigger] self.component_vecs@[q].slots@
                        == pre.component_vecs@[q].slots@,
                sel == first_n(present_pairs(a, b, pre.count()), n as nat),
                ids@.len() == sel.len(),
                forall|q: int| 0 <= q < ids@.len() ==> #[trigger] ids@[q] as int == sel[q],
                forall|q: int|
                    0 <= q < sel.len() ==> 0 <= #[trigger] sel[q] < pre.count() && both_present(
                        a,
                        b,
                        sel[q],
                    ),
                forall|x: &mut C, y: &mut C| call_requires(f, (x, y)),
                f == f0,
                j <= ids@.len(),
                res@.len() == j,
                self.component_vecs@[it as int].slots@.len() == a.len(),
                col_u@.len() == b.len(),
                forall|e: int|
                    0 <= e < a.len() ==> (#[trigger] self.component_vecs@[it as int].slots@[e] is Some
                        <==> a[e] is Some),
                forall|e: int|
                    0 <= e < b.len() ==> (#[trigger] col_u@[e] is Some <==> b[e] is Some),
                forall|e: int|
                    0 <= e < a.len() && !sel.contains(e) ==> #[trigger] self.component_vecs@[it as int].slots@[e]
                        == a[e],
                forall|e: int| 0 <= e < b.len() && !sel.contains(e) ==> #[trigger] col_u@[e] == b[e],
                forall|q1: int, q2: int| 0 <= q1 < q2 < sel.len() ==> #[trigger] sel[q1] < #[trigger] sel[q2],
                forall|q: int|
                    j <= q < sel.len() ==> #[trigger] self.component_vecs@[it as int].slots@[sel[q]] == a[sel[q]]
                        && col_u@[sel[q]] == b[sel[q]],
                forall|q: int|
                    #![trigger sel[q]]
                    0 <= q < j ==> 0 <= sel[q] < a.len() && exists|x: &mut C, y: &mut C|
                        *x == a[sel[q]]->0 && *y == b[sel[q]]->0
                            && *final(x) == self.component_vecs@[it as int].slots@[sel[q]]->0
                            && *final(y) == col_u@[sel[q]]->0
                            && call_ensures(f, (x, y), res@[q]),
            decreases ids@.len() - j,
        {
            let id = ids[j];
            assert(sel[j as int] == id);
            assert(sel.contains(id as int));
            let ghost res_before = res@;
            let ghost slots_before = self.component_vecs@[it as int].slots@;
            let ghost col_before = col_u@;
            let mut x = self.component_vecs[it].slots[id].take().unwrap();
            let mut y = col_u[id].take().unwrap();
            let v = f(&mut x, &mut y);
            self.component_vecs[it].slots.set(id, Some(x));
            col_u.set(id, Some(y));
            res.push(v);
            proof {
                assert forall|q: int| j + 1 <= q < sel.len() implies #[trigger] self.component_vecs@[it as int].slots@[sel[q]]
                    == a[sel[q]] && col_u@[sel[q]] == b[sel[q]] by {
                    assert(sel[j as int] < sel[q]);
                    assert(slots_before[sel[q]] == a[sel[q]]);
                    assert(col_before[sel[q]] == b[sel[q]]);
                }
                assert forall|q: int|
                    #![trigger sel[q]]
                    0 <= q < j + 1 implies 0 <= sel[q] < a.len() && exists|x: &mut C, y: &mut C|
                        *x == a[sel[q]]->0 && *y == b[sel[q]]->0
                            && *final(x) == self.component_vecs@[it as int].slots@[sel[q]]->0
                            && *final(y) == col_u@[sel[q]]->0
                            && call_ensures(f, (x, y), res@[q]) by {
                    if q < j {
                        assert(res@[q] == res_before[q]);
                        assert(sel[q] < sel[j as int]);
                        assert(self.component_vecs@[it as int].slots@[sel[q]] == slots_before[sel[q]]);
                        assert(col_u@[sel[q]] == col_before[sel[q]]);
                        assert(res_before[q] == res_before[q]);
                    } else {
                        assert(res@[q] == v);
                        assert(exists|x: &mut C, y: &mut C|
                            *x == a[sel[q]]->0 && *y == b[sel[q]]->0
                                && *final(x) == self.component_vecs@[it as int].slots@[sel[q]]->0
                                && *final(y) == col_u@[sel[q]]->0
                                && call_ensures(f, (x, y), v));
                    }
                }
            }
            j = j + 1;
        }
        let ghost col_final = col_u@;
        std::mem::swap(&mut col_u, &mut self.component_vecs[iu].slots);
        proof {
            assert(self.kinds() =~= pre.kinds());
            assert forall|q: int| 0 <= q < self.component_vecs@.len() implies #[trigger] self.component_vecs@[q].slots@.len()
                == self.entity_count by {
                if q != it && q != iu {
                    assert(pre.component_vecs@[q].slots@.len() == pre.entity_count);
                }
            }
            assert(self.wf());
            self.lemma_column_at(it as int);
            self.lemma_column_at(iu as int);
            assert forall|k: u64| k != kind_t && k != kind_u && pre.has_column(k) implies self.column(k)
                == pre.column(k) by {
                let q = choose|q: int| 0 <= q < pre.kinds().len() && pre.kinds()[q] == k;
                pre.lemma_column_at(q);
                self.lemma_column_at(q);
            }
            assert(self.column(kind_t) == self.component_vecs@[it as int].slots@);
            assert(self.column(kind_u) == col_final);
            assert forall|q: int|
                #![trigger sel[q]]
                0 <= q < res@.len() implies 0 <= sel[q] < pre.count() && exists|x: &mut C, y: &mut C|
                    *x == pre.component(sel[q], kind_t)->0 && *y == pre.component(sel[q], kind_u)->0
                        && *final(x) == self.component(sel[q], kind_t)->0
                        && *final(y) == self.component(sel[q], kind_u)->0
                        && call_ensures(f, (x, y), res@[q]) by {
                assert(0 <= sel[q] < a.len());
            }
        }
        res
    }
}

impl<C> Ecs<C> {
    /// `do_n` over all entities.
    pub fn do_all<V, F: Fn(&C, &C) -> Option<V>>(&self, kind_t: u64, kind_u: u64, f: F) -> (r: Vec<
        Option<V>,
    >)
        requires
            self.wf(),
            !(kind_t == kind_u && self.has_column(kind_t)),
            forall|a: &C, b: &C| call_requires(f, (a, b)),
        ensures
            r@.len() == self.selected(kind_t, kind_u, self.count()).len(),
            forall|j: int|
                0 <= j < r@.len() ==> call_ensures(
                    f,
                    (
                        &self.column(kind_t)[self.selected(kind_t, kind_u, self.count())[j]]->0,
                        &self.column(kind_u)[self.selected(kind_t, kind_u, self.count())[j]]->0,
                    ),
                    #[trigger] r@[j],
                ),
    {
        self.do_n(kind_t, kind_u, f, self.entity_count)
    }

    /// `do_n_mut` over all entities.
    pub fn do_all_mut<V, F: FnMut(&mut C, &mut C) -> Option<V>>(
        &mut self,
        kind_t: u64,
        kind_u: u64,
        f: F,
    ) -> (r: Vec<Option<V>>)
        requires
            old(self).wf(),
            !(kind_t == kind_u && old(self).has_column(kind_t)),
            forall|a: &mut C, b: &mut C| call_requires(f, (a, b)),
        ensures
            final(self).wf(),
            r@.len() == old(self).selected(kind_t, kind_u, old(self).count()).len(),
            Self::changed_at(
                *old(self),
                *final(self),
                kind_t,
                kind_u,
                old(self).selected(kind_t, kind_u, old(self).count()),
            ),
            forall|q: int|
                #![trigger old(self).selected(kind_t, kind_u, old(self).count())[q]]
                0 <= q < r@.len() ==> 0 <= old(self).selected(kind_t, kind_u, old(self).count())[q]
                    < old(self).count() && exists|x: &mut C, y: &mut C|
                    *x == old(self).component(old(self).selected(kind_t, kind_u, old(self).count())[q], kind_t)->0
                        && *y == old(self).component(
                        old(self).selected(kind_t, kind_u, old(self).count())[q],
                        kind_u,
                    )->0 && *final(x) == final(self).component(
                        old(self).selected(kind_t, kind_u, old(self).count())[q],
                        kind_t,
                    )->0 && *final(y) == final(self).component(
                        old(self).selected(kind_t, kind_u, old(self).count())[q],
                        kind_u,
                    )->0 && call_ensures(f, (x, y), r@[q]),
    {
        let n = self.entity_count;
        self.do_n_mut(kind_t, kind_u, f, n)
    }

    /// `do_n_mut` on the first entity that has both components: what `f`
    /// returned there, or `None` where no entity has both.
    pub fn do_one<V, F: FnMut(&mut C, &mut C) -> Option<V>>(
        &mut self,
        kind_t: u64,
        kind_u: u64,
        f: F,
    ) -> (r: Option<V>)
        requires
            old(self).wf(),
            !(kind_t == kind_u && old(self).has_column(kind_t)),
            forall|a: &mut C, b: &mut C| call_requires(f, (a, b)),
        ensures
            final(self).wf(),
            old(self).selected(kind_t, kind_u, 1).len() == 0 ==> r is None,
            Self::changed_at(
                *old(self),
                *final(self),
                kind_t,
                kind_u,
                old(self).selected(kind_t, kind_u, 1),
            ),
            old(self).selected(kind_t, kind_u, 1).len() == 1 ==> exists|x: &mut C, y: &mut C|
                *x == old(self).component(old(self).selected(kind_t, kind_u, 1)[0], kind_t)->0
                    && *y == old(self).component(old(self).selected(kind_t, kind_u, 1)[0], kind_u)->0
                    && *final(x) == final(self).component(old(self).selected(kind_t, kind_u, 1)[0], kind_t)->0
                    && *final(y) == final(self).component(old(self).selected(kind_t, kind_u, 1)[0], kind_u)->0
                    && call_ensures(f, (x, y), r),
    {
        let mut results = self.do_n_mut(kind_t, kind_u, f, 1);
        let ghost all = results@;
        proof {
            if all.len() == 1 {
                assert(0 <= old(self).selected(kind_t, kind_u, 1)[0] < old(self).count());
            }
        }
        match results.pop() {
            Some(v) => {
                assert(v == all[0]);
                v
            },
            None => None,
        }
    }

    /// Calls `f` on the component of kind `kind` of entity `entity_id` and
    /// returns what it returns.
    pub fn do_entity<U, F: FnMut(&mut C) -> U>(&mut self, entity_id: usize, kind: u64, f: F) -> (r: U)
        requires
            old(self).wf(),
            entity_id < old(self).count(),
            old(self).component(entity_id as int, kind) is Some,
            forall|a: &mut C| call_requires(f, (a,)),
        ensures
            final(self).wf(),
            Self::changed_at(*old(self), *final(self), kind, kind, seq![entity_id as int]),
            exists|a: &mut C|
                *a == old(self).component(entity_id as int, kind)->0 && *final(a) == final(self).component(
                    entity_id as int,
                    kind,
                )->0 && call_ensures(f, (a,), r),
    {
        let ghost pre = *self;
        let mut f = f;
        let i = self.column_index(kind).unwrap();
        proof {
            pre.lemma_column_len(kind);
        }
        let x = self.component_vecs[i].slots[entity_id].as_mut().unwrap();
        let r = f(x);
        proof {
            assert(self.kinds() =~= pre.kinds());
            assert forall|q: int| 0 <= q < self.component_vecs@.len() implies #[trigger] self.component_vecs@[q].slots@.len()
                == self.entity_count by {
                assert(pre.component_vecs@[q].slots@.len() == pre.entity_count);
            }
            self.lemma_column_at(i as int);
            assert forall|k: u64| k != kind && pre.has_column(k) implies self.column(k) == pre.column(
                k,
            ) by {
                let q = choose|q: int| 0 <= q < pre.kinds().len() && pre.kinds()[q] == k;
                pre.lemma_column_at(q);
                self.lemma_column_at(q);
            }
            assert forall|e: int|
                0 <= e < pre.column(kind).len() && !seq![entity_id as int].contains(e) implies #[trigger] self.column(
                kind,
            )[e] == pre.column(kind)[e] by {
                assert(seq![entity_id as int][0] == entity_id as int);
            }
        }
        r
    }
}

impl<C> Ecs<C> {
    /// Calls `f` with the id and the component of kind `kind` of every
    /// entity that has one, in increasing id order, and collects the
    /// values it returns in `Some`.
    pub fn do_all_enumerate<U, F: FnMut((usize, &mut C)) -> Option<U>>(&mut self, kind: u64, f: F) -> (r: Vec<U>)
        requires
            old(self).wf(),
            old(self).has_column(kind),
            forall|i: usize, a: &mut C| call_requires(f, ((i, a),)),
        ensures
            final(self).wf(),
            Self::changed_at(
                *old(self),
                *final(self),
                kind,
                kind,
                present_pairs(old(self).column(kind), old(self).column(kind), old(self).count()),
            ),
            exists|outs: Seq<Option<U>>|
                #![trigger somes(outs)]
                {
                    let pp = present_pairs(old(self).column(kind), old(self).column(kind), old(self).count());
                    &&& outs.len() == pp.len()
                    &&& r@ == somes(outs)
                    &&& forall|q: int|
                        #![trigger pp[q]]
                        0 <= q < outs.len() ==> 0 <= pp[q] < old(self).count() && exists|x: &mut C|
                            *x == old(self).component(pp[q], kind)->0 && *final(x) == final(self).component(
                                pp[q],
                                kind,
                            )->0 && call_ensures(f, ((pp[q] as usize, x),), outs[q])
                },
    {
        let ghost pre = *self;
        let mut f = f;
        let ghost f0 = f;
        let i = self.column_index(kind).unwrap();
        let ghost a = pre.column(kind);
        proof {
            pre.lemma_column_len(kind);
            lemma_present_pairs(a, a, pre.count());
        }
        let ids = self.select_pairs(i, i, self.entity_count);
        let ghost pp = present_pairs(a, a, pre.count());
        assert(first_n(pp, pre.count()) == pp);
        let mut res: Vec<U> = Vec::new();
        let ghost mut outs: Seq<Option<U>> = Seq::empty();
        let mut j: usize = 0;
        while j < ids.len()
            invariant
                pre.wf(),
                i < pre.component_vecs@.len(),
                a == pre.component_vecs@[i as int].slots@,
                a.len() == pre.count(),
                pp == present_pairs(a, a, pre.count()),
                self.entity_count == pre.entity_count,
                self.component_to_add == pre.component_to_add,
                self.component_vecs@.len() == pre.component_vecs@.len(),
                forall|q: int|
                    0 <= q < pre.component_vecs@.len() ==> #[trigger] self.component_vecs@[q].kind
                        == pre.component_vecs@[q].kind,
                forall|q: int|
                    0 <= q < pre.component_vecs@.len() && q != i ==> #[trigger] self.component_vecs@[q].slots@
                        == pre.component_vecs@[q].slots@,
                ids@.len() == pp.len(),
                forall|q: int| 0 <= q < ids@.len() ==> #[trigger] ids@[q] as int == pp[q],
                forall|q: int| 0 <= q < pp.len() ==> 0 <= #[trigger] pp[q] < pre.count() && both_present(a, a, pp[q]),
                forall|q1: int, q2: int| 0 <= q1 < q2 < pp.len() ==> #[trigger] pp[q1] < #[trigger] pp[q2],
                forall|x: usize, y: &mut C| call_requires(f, ((x, y),)),
                f == f0,
                j <= ids@.len(),
                outs.len() == j,
                res@ == somes(outs),
                self.component_vecs@[i as int].slots@.len() == a.len(),
                forall|e: int|
                    0 <= e < a.len() ==> (#[trigger] self.component_vecs@[i as int].slots@[e] is Some
                        <==> a[e] is Some),
                forall|e: int|
                    0 <= e < a.len() && !pp.contains(e) ==> #[trigger] self.component_vecs@[i as int].slots@[e]
                        == a[e],
                forall|q: int|
                    j <= q < pp.len() ==> #[trigger] self.component_vecs@[i as int].slots@[pp[q]] == a[pp[q]],
                forall|q: int|
                    #![trigger pp[q]]
                    0 <= q < j ==> 0 <= pp[q] < a.len() && exists|x: &mut C|
                        *x == a[pp[q]]->0 && *final(x) == self.component_vecs@[i as int].slots@[pp[q]]->0
                            && call_ensures(f, ((pp[q] as usize, x),), outs[q]),
            decreases ids@.len() - j,
        {
            let id = ids[j];
            assert(pp[j as int] == id);
            assert(pp.contains(id as int));
            let ghost slots_before = self.component_vecs@[i as int].slots@;
            let ghost outs_before = outs;
            let mut x = self.component_vecs[i].slots[id].take().unwrap();
            let o = f((id, &mut x));
            self.component_vecs[i].slots.set(id, Some(x));
            proof {
                outs = outs.push(o);
                assert(outs.drop_last() =~= outs_before);
            }
            match o {
                Some(u) => {
                    res.push(u);
                },
                None => {},
            }
            proof {
                assert forall|q: int| j + 1 <= q < pp.len() implies #[trigger] self.component_vecs@[i as int].slots@[pp[q]]
                    == a[pp[q]] by {
                    assert(pp[j as int] < pp[q]);
                    assert(slots_before[pp[q]] == a[pp[q]]);
                }
                assert forall|q: int|
                    #![trigger pp[q]]
                    0 <= q < j + 1 implies 0 <= pp[q] < a.len() && exists|x: &mut C|
                        *x == a[pp[q]]->0 && *final(x) == self.component_vecs@[i as int].slots@[pp[q]]->0
                            && call_ensures(f, ((pp[q] as usize, x),), outs[q]) by {
                    if q < j {
                        assert(outs[q] == outs_before[q]);
                        assert(pp[q] < pp[j as int]);
                        assert(self.component_vecs@[i as int].slots@[pp[q]] == slots_before[pp[q]]);
                    } else {
                        assert(outs[q] == o);
                        assert(exists|x: &mut C|
                            *x == a[pp[q]]->0 && *final(x) == self.component_vecs@[i as int].slots@[pp[q]]->0
                                && call_ensures(f, ((pp[q] as usize, x),), o));
                    }
                }
            }
            j = j + 1;
        }
        proof {
            assert(self.kinds() =~= pre.kinds());
            assert forall|q: int| 0 <= q < self.component_vecs@.len() implies #[trigger] self.component_vecs@[q].slots@.len()
                == self.entity_count by {
                assert(pre.component_vecs@[q].slots@.len() == pre.entity_count);
            }
            self.lemma_column_at(i as int);
            assert forall|k: u64| k != kind && pre.has_column(k) implies self.column(k) == pre.column(
                k,
            ) by {
                let q = choose|q: int| 0 <= q < pre.kinds().len() && pre.kinds()[q] == k;
                pre.lemma_column_at(q);
                self.lemma_column_at(q);
            }
            assert(self.column(kind) == self.component_vecs@[i as int].slots@);
            assert forall|q: int|
                #![trigger pp[q]]
                0 <= q < outs.len() implies 0 <= pp[q] < pre.count() && exists|x: &mut C|
                    *x == pre.component(pp[q], kind)->0 && *final(x) == self.component(pp[q], kind)->0
                        && call_ensures(f, ((pp[q] as usize, x),), outs[q]) by {
                assert(0 <= pp[q] < a.len());
            }
        }
        res
    }

    /// Adds an entity whose only component is the one that `named` makes,
    /// as its component of kind `kind`, from the name "Entity <id>".
    pub fn add_empty_entity<F: FnOnce(String) -> C>(&mut self, kind: u64, named: F)
        requires
            old(self).wf(),
            old(self).count() < usize::MAX,
            forall|s: String| call_requires(named, (s,)),
        ensures
            final(self).wf(),
            final(self).count() == old(self).count() + 1,
            final(self).addable() == old(self).addable(),
            final(self).kinds() == if old(self).has_column(kind) {
                old(self).kinds()
            } else {
                old(self).kinds().push(kind)
            },
            forall|k: u64|
                k != kind && old(self).has_column(k) ==> final(self).column(k) == old(self).column(
                    k,
                ).push(None),
            final(self).column(kind).len() == old(self).count() + 1,
            forall|e: int|
                0 <= e < old(self).count() ==> #[trigger] final(self).column(kind)[e] == old(self).component(
                    e,
                    kind,
                ),
            exists|name: String, c: C|
                name@ == default_entity_name(old(self).count()) && call_ensures(named, (name,), c)
                    && final(self).column(kind)[old(self).count() as int] == Some(c),
    {
        let ghost pre = *self;
        let num_entities = self.num_entities();
        let name = format_entity_name(num_entities);
        let ghost name_g = name;
        let c = named(name);
        let ghost mid: Self;
        {
            let mut b = self.add_entity();
            proof {
                mid = *b.ecs;
            }
            b.with(kind, c);
        }
        proof {
            assert(Self::grown(pre, mid));
            if pre.has_column(kind) {
                pre.lemma_column_len(kind);
                assert(mid.has_column(kind));
                assert(mid.component(num_entities as int, kind) is None);
            } else {
                assert(!mid.has_column(kind));
            }
            assert forall|k: u64|
                k != kind && pre.has_column(k) implies self.column(k) == pre.column(k).push(None) by {
                assert(mid.has_column(k));
            }
            assert forall|e: int| 0 <= e < pre.count() implies #[trigger] self.column(kind)[e]
                == pre.component(e, kind) by {
                if pre.has_column(kind) {
                    pre.lemma_column_len(kind);
                }
            }
            assert(self.column(kind)[pre.count() as int] == Some(c));
        }
    }
}

/// The columns of one kind of component, for reading.
pub struct Query1<'a, C> {
    pub refs: (&'a Vec<Option<C>>,),
}

impl<'a, C> Query1<'a, C> {
    /// The slots of every entity, in id order.
    pub fn iter(&self) -> (r: Vec<(&'a Option<C>,)>)
        ensures
            r@.len() == self.refs.0@.len(),
            forall|i: int| 0 <= i < r@.len() ==> *(#[trigger] r@[i]).0 == self.refs.0@[i],
    {
        let mut r: Vec<(&'a Option<C>,)> = Vec::new();
        let mut i: usize = 0;
        while i < self.refs.0.len()
            invariant
                i <= self.refs.0@.len(),
                r@.len() == i,
                forall|j: int| 0 <= j < i ==> *(#[trigger] r@[j]).0 == self.refs.0@[j],
            decreases self.refs.0@.len() - i,
        {
            let x: &'a Vec<Option<C>> = self.refs.0;
            r.push((&x[i],));
            i = i + 1;
        }
        r
    }
}

/// The columns of two kinds of component, for reading side by side.
pub struct Query2<'a, C> {
    pub refs: (&'a Vec<Option<C>>, &'a Vec<Option<C>>),
}

impl<'a, C> Query2<'a, C> {
    /// The pairs of slots of every entity, in id order.
    pub fn iter(&self) -> (r: Vec<(&'a Option<C>, &'a Option<C>)>)
        requires
            self.refs.0@.len() == self.refs.1@.len(),
        ensures
            r@.len() == self.refs.0@.len(),
            forall|i: int|
                0 <= i < r@.len() ==> *(#[trigger] r@[i]).0 == self.refs.0@[i] && *r@[i].1
                    == self.refs.1@[i],
    {
        let mut r: Vec<(&'a Option<C>, &'a Option<C>)> = Vec::new();
        let mut i: usize = 0;
        while i < self.refs.0.len()
            invariant
                self.refs.0@.len() == self.refs.1@.len(),
                i <= self.refs.0@.len(),
                r@.len() == i,
                forall|j: int|
                    0 <= j < i ==> *(#[trigger] r@[j]).0 == self.refs.0@[j] && *r@[j].1
                        == self.refs.1@[j],
            decreases self.refs.0@.len() - i,
        {
            let x: &'a Vec<Option<C>> = self.refs.0;
            let y: &'a Vec<Option<C>> = self.refs.1;
            r.push((&x[i], &y[i]));
            i = i + 1;
        }
        r
    }
}

/// The columns of three kinds of component, for reading side by side.
pub struct Query3<'a, C> {
    pub refs: (&'a Vec<Option<C>>, &'a Vec<Option<C>>, &'a Vec<Option<C>>),
}

impl<'a, C> Query3<'a, C> {
    /// The triples of slots of every entity, in id order.
    pub fn iter(&self) -> (r: Vec<(&'a Option<C>, &'a Option<C>, &'a Option<C>)>)
        requires
            self.refs.0@.len() == self.refs.1@.len(),
            self.refs.0@.len() == self.refs.2@.len(),
        ensures
            r@.len() == self.refs.0@.len(),
            forall|i: int|
                0 <= i < r@.len() ==> *(#[trigger] r@[i]).0 == self.refs.0@[i] && *r@[i].1
                    == self.refs.1@[i] && *r@[i].2 == self.refs.2@[i],
    {
        let mut r: Vec<(&'a Option<C>, &'a Option<C>, &'a Option<C>)> = Vec::new();
        let mut i: usize = 0;
        while i < self.refs.0.len()
            invariant
                self.refs.0@.len() == self.refs.1@.len(),
                self.refs.0@.len() == self.refs.2@.len(),
                i <= self.refs.0@.len(),
                r@.len() == i,
                forall|j: int|
                    0 <= j < i ==> *(#[trigger] r@[j]).0 == self.refs.0@[j] && *r@[j].1
                        == self.refs.1@[j] && *r@[j].2 == self.refs.2@[j],
            decreases self.refs.0@.len() - i,
        {
            let x: &'a Vec<Option<C>> = self.refs.0;
            let y: &'a Vec<Option<C>> = self.refs.1;
            let z: &'a Vec<Option<C>> = self.refs.2;
            r.push((&x[i], &y[i], &z[i]));
            i = i + 1;
        }
        r
    }
}

impl<C> Ecs<C> {
    /// The column of `kind`, as a query.
    pub fn query1(&self, kind: u64) -> (q: Query1<'_, C>)
        requires
            self.wf(),
            self.has_column(kind),
        ensures
            q.refs.0@ == self.column(kind),
            q.refs.0@.len() == self.count(),
    {
        proof {
            self.lemma_column_len(kind);
        }
        Query1 { refs: (self.borrow_comp_vec(kind).unwrap(),) }
    }

    /// The columns of two different kinds, as a query.
    pub fn query2(&self, kind_t: u64, kind_u: u64) -> (q: Query2<'_, C>)
        requires
            self.wf(),
            self.has_column(kind_t),
            self.has_column(kind_u),
            kind_t != kind_u,
        ensures
            q.refs.0@ == self.column(kind_t),
            q.refs.1@ == self.column(kind_u),
            q.refs.0@.len() == self.count(),
            q.refs.1@.len() == self.count(),
    {
        proof {
            self.lemma_column_len(kind_t);
            self.lemma_column_len(kind_u);
        }
        Query2 { refs: (self.borrow_comp_vec(kind_t).unwrap(), self.borrow_comp_vec(kind_u).unwrap()) }
    }

    /// The columns of three different kinds, as a query.
    pub fn query3(&self, kind_t: u64, kind_u: u64, kind_v: u64) -> (q: Query3<'_, C>)
        requires
            self.wf(),
            self.has_column(kind_t),
            self.has_column(kind_u),
            self.has_column(kind_v),
            kind_t != kind_u,
            kind_t != kind_v,
            kind_u != kind_v,
        ensures
            q.refs.0@ == self.column(kind_t),
            q.refs.1@ == self.column(kind_u),
            q.refs.2@ == self.column(kind_v),
            q.refs.0@.len() == self.count(),
            q.refs.1@.len() == self.count(),
            q.refs.2@.len() == self.count(),
    {
        proof {
            self.lemma_column_len(kind_t);
            self.lemma_column_len(kind_u);
            self.lemma_column_len(kind_v);
        }
        Query3 {
            refs: (
                self.borrow_comp_vec(kind_t).unwrap(),
                self.borrow_comp_vec(kind_u).unwrap(),
                self.borrow_comp_vec(kind_v).unwrap(),
            ),
        }
    }
}

impl<'a, C: Default> EntityBuilder<'a, C> {
    /// Adds `C::default()` as the entity's component of kind `kind`.
    pub fn with_default(&mut self, kind: u64) -> (r: &mut Self)
        requires
            old(self).ecs.wf(),
            old(self).entity_id < old(self).ecs.count(),
        ensures
            r.entity_id == old(self).entity_id,
            r.ecs.wf(),
            exists|c: C|
                call_ensures(C::default, (), c) && Ecs::added(
                    *old(self).ecs,
                    *r.ecs,
                    old(self).entity_id as int,
                    kind,
                    c,
                ),
            *final(self) == *final(r),
            *final(r.ecs) == *final(old(self).ecs),
    {
        let c = C::default();
        self.ecs.add_comp_to_entity(self.entity_id, kind, c);
        self
    }
}

impl<'a, C: Clone> EntityBuilder<'a, C> {
    /// Adds a clone of `comp` as the entity's component of kind `kind`.
    pub fn with_clone(&mut self, kind: u64, comp: &C) -> (r: &mut Self)
        requires
            old(self).ecs.wf(),
            old(self).entity_id < old(self).ecs.count(),
        ensures
            r.entity_id == old(self).entity_id,
            r.ecs.wf(),
            exists|c: C|
                cloned(*comp, c) && Ecs::added(
                    *old(self).ecs,
                    *r.ecs,
                    old(self).entity_id as int,
                    kind,
                    c,
                ),
            *final(self) == *final(r),
            *final(r.ecs) == *final(old(self).ecs),
    {
        let c = comp.clone();
        assert(cloned(*comp, c));
        self.ecs.add_comp_to_entity(self.entity_id, kind, c);
        self
    }
}

impl<C> Ecs<C> {
    /// Adding an entity keeps every component of every entity there was,
    /// and the new entity has no component.
    pub proof fn law_new_entity_is_empty(pre: Self, post: Self)
        requires
            pre.wf(),
            Self::grown(pre, post),
        ensures
            forall|e: int, k: u64| 0 <= e < pre.count() ==> #[trigger] post.component(e, k) == pre.component(e, k),
            forall|k: u64| post.component(pre.count() as int, k) is None,
    {
        assert forall|e: int, k: u64| 0 <= e < pre.count() implies #[trigger] post.component(e, k)
            == pre.component(e, k) by {
            if pre.has_column(k) {
                pre.lemma_column_len(k);
            }
        }
        assert forall|k: u64| post.component(pre.count() as int, k) is None by {
            if pre.has_column(k) {
                pre.lemma_column_len(k);
            }
        }
    }

    /// A component added to an entity that has none of its kind is its
    /// component of that kind afterwards, and every other component of
    /// every entity is as it was.
    pub proof fn law_added_component_is_read_back(pre: Self, post: Self, e: int, kind: u64, c: C)
        requires
            pre.wf(),
            0 <= e < pre.count(),
            pre.component(e, kind) is None,
            Self::added(pre, post, e, kind, c),
        ensures
            post.component(e, kind) == Some(c),
            forall|e2: int, k2: u64|
                0 <= e2 < pre.count() && (e2 != e || k2 != kind) ==> #[trigger] post.component(e2, k2)
                    == pre.component(e2, k2),
    {
        if pre.has_column(kind) {
            pre.lemma_column_len(kind);
        }
        assert(post.has_column(kind)) by {
            if !pre.has_column(kind) {
                assert(post.kinds()[post.kinds().len() - 1] == kind);
            }
        }
        assert forall|e2: int, k2: u64|
            0 <= e2 < pre.count() && (e2 != e || k2 != kind) implies #[trigger] post.component(e2, k2)
            == pre.component(e2, k2) by {
            if pre.has_column(k2) {
                pre.lemma_column_len(k2);
                assert(post.has_column(k2)) by {
                    let j = choose|j: int| 0 <= j < pre.kinds().len() && pre.kinds()[j] == k2;
                    assert(post.kinds()[j] == k2);
                }
            } else if k2 != kind {
                assert(!post.has_column(k2)) by {
                    if post.has_column(k2) {
                        let j = choose|j: int| 0 <= j < post.kinds().len() && post.kinds()[j] == k2;
                        if pre.has_column(kind) {
                            assert(pre.kinds()[j] == k2);
                        } else if j < pre.kinds().len() {
                            assert(pre.kinds()[j] == k2);
                        }
                    }
                }
            }
        }
    }

    /// An entity keeps the first component of a kind it was given: adding
    /// another one leaves every component of every entity as it was.
    pub proof fn law_first_component_stays(pre: Self, post: Self, e: int, kind: u64, c: C)
        requires
            pre.wf(),
            0 <= e < pre.count(),
            pre.component(e, kind) is Some,
            Self::added(pre, post, e, kind, c),
        ensures
            forall|e2: int, k2: u64| #[trigger] post.component(e2, k2) == pre.component(e2, k2),
    {
        assert forall|e2: int, k2: u64| #[trigger] post.component(e2, k2) == pre.component(e2, k2) by {
            if pre.has_column(k2) {
                assert(post.column(k2) == pre.column(k2));
            }
        }
    }

    /// A component set on an entity is its component of that kind
    /// afterwards, whatever it had before, and every other component of
    /// every entity is as it was.
    pub proof fn law_put_component_is_read_back(pre: Self, post: Self, e: int, kind: u64, c: C)
        requires
            pre.wf(),
            0 <= e < pre.count(),
            Self::put(pre, post, e, kind, c),
        ensures
            post.component(e, kind) == Some(c),
            forall|e2: int, k2: u64|
                0 <= e2 < pre.count() && (e2 != e || k2 != kind) ==> #[trigger] post.component(e2, k2)
                    == pre.component(e2, k2),
    {
        if pre.has_column(kind) {
            pre.lemma_column_len(kind);
        }
        assert(post.has_column(kind)) by {
            if !pre.has_column(kind) {
                assert(post.kinds()[post.kinds().len() - 1] == kind);
            } else {
                let j = choose|j: int| 0 <= j < pre.kinds().len() && pre.kinds()[j] == kind;
                assert(post.kinds()[j] == kind);
            }
        }
        assert forall|e2: int, k2: u64|
            0 <= e2 < pre.count() && (e2 != e || k2 != kind) implies #[trigger] post.component(e2, k2)
            == pre.component(e2, k2) by {
            if pre.has_column(k2) {
                pre.lemma_column_len(k2);
                assert(post.has_column(k2)) by {
                    let j = choose|j: int| 0 <= j < pre.kinds().len() && pre.kinds()[j] == k2;
                    assert(post.kinds()[j] == k2);
                }
            } else if k2 != kind {
                assert(!post.has_column(k2)) by {
                    if post.has_column(k2) {
                        let j = choose|j: int| 0 <= j < post.kinds().len() && post.kinds()[j] == k2;
                        if pre.has_column(kind) {
                            assert(pre.kinds()[j] == k2);
                        } else if j < pre.kinds().len() {
                            assert(pre.kinds()[j] == k2);
                        }
                    }
                }
            }
        }
    }

    /// The entities that `do_n` visits are at most `n`, in increasing
    /// order, and each has components of both kinds; where there are fewer
    /// than `n`, they are all the entities with both.
    pub proof fn law_selection(ecs: Self, kind_t: u64, kind_u: u64, n: nat)
        requires
            ecs.wf(),
        ensures
            ecs.selected(kind_t, kind_u, n).len() <= n,
            forall|j: int, k: int|
                0 <= j < k < ecs.selected(kind_t, kind_u, n).len() ==> #[trigger] ecs.selected(
                    kind_t,
                    kind_u,
                    n,
                )[j] < #[trigger] ecs.selected(kind_t, kind_u, n)[k],
            forall|j: int|
                0 <= j < ecs.selected(kind_t, kind_u, n).len() ==> {
                    let e = #[trigger] ecs.selected(kind_t, kind_u, n)[j];
                    &&& 0 <= e < ecs.count()
                    &&& ecs.component(e, kind_t) is Some
                    &&& ecs.component(e, kind_u) is Some
                },
            ecs.selected(kind_t, kind_u, n).len() < n ==> forall|e: int|
                0 <= e < ecs.count() && ecs.component(e, kind_t) is Some && ecs.component(e, kind_u) is Some
                    ==> #[trigger] ecs.selected(kind_t, kind_u, n).contains(e),
    {
        if ecs.has_column(kind_t) && ecs.has_column(kind_u) {
            ecs.lemma_column_len(kind_t);
            ecs.lemma_column_len(kind_u);
            let a = ecs.column(kind_t);
            let b = ecs.column(kind_u);
            lemma_present_pairs(a, b, ecs.count());
            let pp = present_pairs(a, b, ecs.count());
            let sel = ecs.selected(kind_t, kind_u, n);
            assert forall|j: int, k: int| 0 <= j < k < sel.len() implies #[trigger] sel[j] < #[trigger] sel[k] by {
                assert(sel[j] == pp[j] && sel[k] == pp[k]);
            }
            assert forall|j: int| 0 <= j < sel.len() implies {
                let e = #[trigger] sel[j];
                &&& 0 <= e < ecs.count()
                &&& ecs.component(e, kind_t) is Some
                &&& ecs.component(e, kind_u) is Some
            } by {
                assert(sel[j] == pp[j]);
            }
            if sel.len() < n {
                assert(sel == pp);
                assert forall|e: int|
                    0 <= e < ecs.count() && ecs.component(e, kind_t) is Some && ecs.component(e, kind_u) is Some
                    implies #[trigger] sel.contains(e) by {
                    assert(both_present(a, b, e));
                }
            }
        }
    }
}

} // verus!
