use vstd::prelude::*;
use crate::component::Component;
use crate::component::TypeKey;
use crate::entity::lemma_holds_has_slot;
use crate::entity::lemma_slot;
use crate::entity::Entity;
use crate::entity::EntityView;
use crate::error::Error;

verus! {

/// Selects the entities that hold a component of type `key`.
pub open spec fn holding<P>(key: TypeKey) -> spec_fn(EntityView<P>) -> bool {
    |entity: EntityView<P>| entity.holds(key)
}

/// Selects the entities whose identifier is not `id`.
pub open spec fn other_than<P>(id: u64) -> spec_fn(EntityView<P>) -> bool {
    |entity: EntityView<P>| entity.id != id
}

/// Reads the identifier of an entity.
pub open spec fn id_of<P>() -> spec_fn(EntityView<P>) -> u64 {
    |entity: EntityView<P>| entity.id
}

/// The identifiers of the entities, in their order.
pub open spec fn ids<P>(entities: Seq<EntityView<P>>) -> Seq<u64> {
    entities.map_values(id_of())
}

/// The identifiers of the entities that hold a component of type `key`, in
/// the order of the entities.
pub open spec fn ids_with<P>(entities: Seq<EntityView<P>>, key: TypeKey) -> Seq<u64> {
    ids(entities.filter(holding(key)))
}

/// The entities but those with the identifier `id`, in the same order.
pub open spec fn without<P>(entities: Seq<EntityView<P>>, id: u64) -> Seq<EntityView<P>> {
    entities.filter(other_than(id))
}

/// Whether the identifiers grow strictly along the sequence; none occurs
/// twice then.
pub open spec fn increasing<P>(entities: Seq<EntityView<P>>) -> bool {
    forall|i: int, j: int|
        0 <= i < j < entities.len() ==> (#[trigger] entities[i]).id < (#[trigger] entities[j]).id
}

/// Whether every identifier is smaller than `limit`.
pub open spec fn below<P>(entities: Seq<EntityView<P>>, limit: u64) -> bool {
    forall|i: int| 0 <= i < entities.len() ==> (#[trigger] entities[i]).id < limit
}

/// Whether an entity with the identifier `id` is among the entities.
pub open spec fn contains_id<P>(entities: Seq<EntityView<P>>, id: u64) -> bool {
    exists|i: int| 0 <= i < entities.len() && (#[trigger] entities[i]).id == id
}

/// Whether `i` is the place of the first entity with the identifier `id`.
pub open spec fn is_position<P>(entities: Seq<EntityView<P>>, id: u64, i: int) -> bool {
    &&& 0 <= i < entities.len()
    &&& entities[i].id == id
    &&& forall|k: int| 0 <= k < i ==> (#[trigger] entities[k]).id != id
}

/// The place of the first entity with the identifier `id`, where there is
/// one.
pub open spec fn position<P>(entities: Seq<EntityView<P>>, id: u64) -> int {
    choose|i: int| is_position(entities, id, i)
}

/// Whether the entity `id` is there and holds a component of type `key`.
pub open spec fn has_component<P>(entities: Seq<EntityView<P>>, id: u64, key: TypeKey) -> bool {
    contains_id(entities, id) && entities[position(entities, id)].holds(key)
}

/// The state of the component of type `key` of the entity `id`.
pub open spec fn payload<P>(entities: Seq<EntityView<P>>, id: u64, key: TypeKey) -> P {
    let entity = entities[position(entities, id)];
    entity.components[entity.slot(key)].payload
}

/// The entities after the state of the component of type `key` of the entity
/// `id` became `state`.
pub open spec fn with_payload<P>(
    entities: Seq<EntityView<P>>,
    id: u64,
    key: TypeKey,
    state: P,
) -> Seq<EntityView<P>> {
    let i = position(entities, id);
    entities.update(i, entities[i].with_payload(entities[i].slot(key), state))
}

/// The first entity with an identifier is at one place only, and `position`
/// names it.
pub proof fn lemma_position<P>(entities: Seq<EntityView<P>>, id: u64, i: int)
    requires
        is_position(entities, id, i),
    ensures
        contains_id(entities, id),
        position(entities, id) == i,
{
    let chosen = position(entities, id);
    assert(is_position(entities, id, chosen));
    if chosen < i {
        assert(entities[chosen].id != id);
    } else if i < chosen {
        assert(entities[i].id != id);
    }
}

/// Among entities whose identifiers grow, an identifier is found at the one
/// place where it stands.
pub proof fn lemma_position_unique<P>(entities: Seq<EntityView<P>>, i: int)
    requires
        increasing(entities),
        0 <= i < entities.len(),
    ensures
        position(entities, entities[i].id) == i,
        contains_id(entities, entities[i].id),
{
    assert forall|k: int| 0 <= k < i implies (#[trigger] entities[k]).id != entities[i].id by {}
    lemma_position(entities, entities[i].id, i);
}

/// An identifier that is among the entities has a first place.
pub proof fn lemma_contains_has_position<P>(entities: Seq<EntityView<P>>, id: u64)
    requires
        contains_id(entities, id),
    ensures
        is_position(entities, id, position(entities, id)),
{
    let i = choose|i: int| 0 <= i < entities.len() && (#[trigger] entities[i]).id == id;
    lemma_first_position(entities, id, i);
}

proof fn lemma_first_position<P>(entities: Seq<EntityView<P>>, id: u64, i: int)
    requires
        0 <= i < entities.len(),
        entities[i].id == id,
    ensures
        exists|f: int| is_position(entities, id, f),
    decreases i,
{
    if exists|k: int| 0 <= k < i && (#[trigger] entities[k]).id == id {
        let k = choose|k: int| 0 <= k < i && (#[trigger] entities[k]).id == id;
        lemma_first_position(entities, id, k);
    } else {
        assert(is_position(entities, id, i));
    }
}

/// What a filter keeps: the members that the predicate selects, in their
/// order, so that growing identifiers still grow.
pub proof fn lemma_filter_entities<P>(
    entities: Seq<EntityView<P>>,
    pred: spec_fn(EntityView<P>) -> bool,
)
    ensures
        forall|k: int|
            0 <= k < entities.filter(pred).len() ==> pred(#[trigger] entities.filter(pred)[k])
                && entities.contains(entities.filter(pred)[k]),
        forall|i: int|
            0 <= i < entities.len() && pred(entities[i]) ==> entities.filter(pred).contains(
                #[trigger] entities[i],
            ),
        increasing(entities) ==> increasing(entities.filter(pred)),
        (forall|i: int| 0 <= i < entities.len() ==> pred(#[trigger] entities[i]))
            ==> entities.filter(pred) == entities,
    decreases entities.len(),
{
    reveal(Seq::filter);
    let kept = entities.filter(pred);
    if entities.len() == 0 {
        assert(kept =~= entities);
    } else {
        let init = entities.drop_last();
        let last = entities.last();
        let init_kept = init.filter(pred);
        lemma_filter_entities(init, pred);
        assert forall|k: int| 0 <= k < kept.len() implies pred(#[trigger] kept[k])
            && entities.contains(kept[k]) by {
            if k < init_kept.len() {
                assert(kept[k] == init_kept[k]);
                let at = choose|at: int| 0 <= at < init.len() && init[at] == init_kept[k];
                assert(entities[at] == kept[k]);
            } else {
                assert(kept[k] == last);
                assert(entities[entities.len() - 1] == last);
            }
        }
        assert forall|i: int| 0 <= i < entities.len() && pred(entities[i]) implies kept.contains(
            #[trigger] entities[i],
        ) by {
            if i < init.len() {
                assert(init[i] == entities[i]);
                assert(init_kept.contains(init[i]));
                let at = choose|at: int| 0 <= at < init_kept.len() && init_kept[at] == init[i];
                assert(kept[at] == entities[i]);
            } else {
                assert(kept[kept.len() - 1] == entities[i]);
            }
        }
        if increasing(entities) {
            assert(increasing(init)) by {
                assert forall|i: int, j: int| 0 <= i < j < init.len() implies (#[trigger] init[i]).id
                    < (#[trigger] init[j]).id by {
                    assert(init[i] == entities[i] && init[j] == entities[j]);
                }
            }
            assert forall|i: int, j: int| 0 <= i < j < kept.len() implies (#[trigger] kept[i]).id < (
            #[trigger] kept[j]).id by {
                if j < init_kept.len() {
                    assert(kept[i] == init_kept[i] && kept[j] == init_kept[j]);
                } else {
                    assert(kept[j] == last);
                    assert(kept[i] == init_kept[i]);
                    let at = choose|at: int| 0 <= at < init.len() && init[at] == init_kept[i];
                    assert(entities[at] == kept[i]);
                    assert(entities[entities.len() - 1] == last);
                }
            }
        }
        if forall|i: int| 0 <= i < entities.len() ==> pred(#[trigger] entities[i]) {
            assert forall|i: int| 0 <= i < init.len() implies pred(#[trigger] init[i]) by {
                assert(init[i] == entities[i]);
            }
            assert(pred(entities[entities.len() - 1]));
            assert(kept =~= entities);
        }
    }
}

/// What is left when an identifier is taken out: the order and the growth of
/// the identifiers stay, the identifier is gone, every other entity is where
/// a search finds it, and nothing changes if the identifier was not there.
pub proof fn lemma_without<P>(entities: Seq<EntityView<P>>, id: u64)
    ensures
        !contains_id(without(entities, id), id),
        increasing(entities) ==> increasing(without(entities, id)),
        forall|limit: u64| below(entities, limit) ==> below(without(entities, id), limit),
        !contains_id(entities, id) ==> without(entities, id) == entities,
        forall|other: u64|
            other != id ==> (contains_id(without(entities, id), other) <==> contains_id(
                entities,
                other,
            )),
        increasing(entities) ==> forall|other: u64|
            other != id && contains_id(entities, other) ==> without(entities, id)[#[trigger] position(
                without(entities, id),
                other,
            )] == entities[position(entities, other)],
{
    let left = without(entities, id);
    lemma_filter_entities(entities, other_than(id));
    if contains_id(left, id) {
        let k = choose|k: int| 0 <= k < left.len() && (#[trigger] left[k]).id == id;
        assert(other_than::<P>(id)(left[k]));
    }
    assert forall|limit: u64| below(entities, limit) implies below(left, limit) by {
        assert forall|k: int| 0 <= k < left.len() implies (#[trigger] left[k]).id < limit by {
            assert(entities.contains(left[k]));
        }
    }
    if !contains_id(entities, id) {
        assert forall|i: int| 0 <= i < entities.len() implies other_than::<P>(id)(
            #[trigger] entities[i],
        ) by {}
    }
    assert forall|other: u64| other != id implies (contains_id(left, other) <==> contains_id(
        entities,
        other,
    )) by {
        if contains_id(left, other) {
            let k = choose|k: int| 0 <= k < left.len() && (#[trigger] left[k]).id == other;
            assert(entities.contains(left[k]));
        }
        if contains_id(entities, other) {
            let i = choose|i: int| 0 <= i < entities.len() && (#[trigger] entities[i]).id == other;
            assert(other_than::<P>(id)(entities[i]));
            assert(left.contains(entities[i]));
        }
    }
    if increasing(entities) {
        assert forall|other: u64| other != id && contains_id(entities, other) implies left[#[trigger] position(
            left,
            other,
        )] == entities[position(entities, other)] by {
            lemma_contains_has_position(entities, other);
            lemma_contains_has_position(left, other);
            let i = position(entities, other);
            let k = position(left, other);
            assert(entities.contains(left[k]));
            let at = choose|at: int| 0 <= at < entities.len() && entities[at] == left[k];
            if at < i {
                assert(entities[at].id < entities[i].id);
            } else if i < at {
                assert(entities[i].id < entities[at].id);
            }
        }
    }
}

/// How the identifiers of the holders of a type grow when one entity is
/// added at the end.
pub proof fn lemma_ids_with_push<P>(entities: Seq<EntityView<P>>, entity: EntityView<P>, key: TypeKey)
    ensures
        ids_with(entities.push(entity), key) == if entity.holds(key) {
            ids_with(entities, key).push(entity.id)
        } else {
            ids_with(entities, key)
        },
{
    entities.lemma_filter_push(entity, holding(key));
    entities.filter(holding(key)).lemma_push_map_commute(id_of(), entity);
}

/// Among no entities, no type has a holder.
pub proof fn lemma_ids_with_empty<P>(key: TypeKey)
    ensures
        ids_with(Seq::<EntityView<P>>::empty(), key) == Seq::<u64>::empty(),
{
    Seq::<EntityView<P>>::empty().lemma_filter_len(holding(key));
    assert(ids_with(Seq::<EntityView<P>>::empty(), key) =~= Seq::<u64>::empty());
}

/// Writing the state of a component moves no entity and changes no
/// identifier and no type key.
pub proof fn lemma_with_payload<P>(entities: Seq<EntityView<P>>, id: u64, key: TypeKey, state: P)
    requires
        has_component(entities, id, key),
    ensures
        with_payload(entities, id, key, state).len() == entities.len(),
        forall|i: int|
            0 <= i < entities.len() ==> (#[trigger] with_payload(entities, id, key, state)[i]).id
                == entities[i].id,
        forall|i: int, other: TypeKey|
            0 <= i < entities.len() ==> (#[trigger] with_payload(entities, id, key, state)[i].holds(
                other,
            ) <==> entities[i].holds(other)),
        increasing(entities) ==> increasing(with_payload(entities, id, key, state)),
        forall|limit: u64|
            below(entities, limit) ==> below(with_payload(entities, id, key, state), limit),
        has_component(with_payload(entities, id, key, state), id, key),
        payload(with_payload(entities, id, key, state), id, key) == state,
{
    let after = with_payload(entities, id, key, state);
    lemma_contains_has_position(entities, id);
    let at = position(entities, id);
    lemma_holds_has_slot(entities[at], key);
    let slot = entities[at].slot(key);
    assert forall|i: int, other: TypeKey| 0 <= i < entities.len() implies (#[trigger] after[i].holds(
        other,
    ) <==> entities[i].holds(other)) by {
        if i == at {
            if after[i].holds(other) {
                let j = choose|j: int|
                    0 <= j < after[i].components.len() && (#[trigger] after[i].components[j]).key
                        == other;
                assert(entities[i].components[j].key == other);
            }
            if entities[i].holds(other) {
                let j = choose|j: int|
                    0 <= j < entities[i].components.len() && (
                    #[trigger] entities[i].components[j]).key == other;
                assert(after[i].components[j].key == other);
            }
        }
    }
    assert(is_position(after, id, at)) by {
        assert forall|k: int| 0 <= k < at implies (#[trigger] after[k]).id != id by {
            assert(entities[k].id != id);
        }
    }
    lemma_position(after, id, at);
    assert(after[at].is_slot(key, slot)) by {
        assert forall|k: int| 0 <= k < slot implies (#[trigger] after[at].components[k]).key
            != key by {
            assert(entities[at].components[k].key != key);
        }
    }
    lemma_slot(after[at], key, slot);
    assert forall|limit: u64| below(entities, limit) implies below(after, limit) by {
        assert forall|i: int| 0 <= i < after.len() implies (#[trigger] after[i]).id < limit by {
            assert(entities[i].id < limit);
        }
    }
    if increasing(entities) {
        assert forall|i: int, j: int| 0 <= i < j < after.len() implies (#[trigger] after[i]).id < (
        #[trigger] after[j]).id by {
            assert(entities[i].id < entities[j].id);
        }
    }
}

/// The entities of a world, in the order in which they were added.
pub struct EntityStore<P> {
    entities: Vec<Entity<P>>,
}

impl<P> EntityStore<P> {
    /// The entities in the order in which they were added.
    pub closed spec fn view(&self) -> Seq<EntityView<P>> {
        self.entities@.map_values(|entity: Entity<P>| entity@)
    }

    /// The identifiers grow in the order of insertion, so that none occurs
    /// twice.
    pub open spec fn wf(&self) -> bool {
        increasing(self@)
    }

    /// A store without entities.
    pub fn new() -> (store: Self)
        ensures
            store@ == Seq::<EntityView<P>>::empty(),
            store.wf(),
    {
        let store = EntityStore { entities: Vec::new() };
        assert(store@ =~= Seq::<EntityView<P>>::empty());
        store
    }

    /// The number of entities.
    pub fn len(&self) -> (n: usize)
        ensures
            n == self@.len(),
    {
        self.entities.len()
    }

    /// Adds an entity at the end. Its identifier is larger than any in the
    /// store.
    pub fn insert(&mut self, id: u64, components: Vec<Component<P>>)
        requires
            old(self).wf(),
            below(old(self)@, id),
        ensures
            final(self)@ == old(self)@.push(EntityView { id, components: components@ }),
            final(self).wf(),
    {
        let entity = Entity::new(id, components);
        self.entities.push(entity);
        assert(self@ =~= old(self)@.push(EntityView { id, components: components@ }));
    }

    /// Takes the entity `id` out, with all its components. Nothing happens
    /// if no entity has that identifier.
    pub fn despawn(&mut self, id: u64)
        ensures
            final(self)@ == without(old(self)@, id),
            old(self).wf() ==> final(self).wf(),
            !contains_id(old(self)@, id) ==> final(self)@ == old(self)@,
            !contains_id(final(self)@, id),
    {
        let mut i: usize = 0;
        let ghost mut seen: int = 0;
        proof {
            old(self)@.take(0).lemma_filter_len(other_than(id));
        }
        while i < self.entities.len()
            invariant
                0 <= i <= self@.len(),
                0 <= seen <= old(self)@.len(),
                self@.len() - i == old(self)@.len() - seen,
                self@.take(i as int) == without(old(self)@.take(seen), id),
                self@.skip(i as int) == old(self)@.skip(seen),
            decreases self@.len() - i,
        {
            proof {
                assert(self@[i as int] == self@.skip(i as int)[0]);
                assert(old(self)@[seen] == old(self)@.skip(seen)[0]);
                old(self)@.lemma_take_succ_push(seen);
                old(self)@.take(seen).lemma_filter_push(old(self)@[seen], other_than(id));
            }
            if self.entities[i].id() == id {
                let ghost before = self@;
                self.entities.remove(i);
                proof {
                    assert(self@ =~= before.remove(i as int));
                    assert(self@.take(i as int) =~= before.take(i as int));
                    assert(self@.skip(i as int) =~= before.skip(i as int).skip(1));
                    assert(old(self)@.skip(seen + 1) =~= old(self)@.skip(seen).skip(1));
                    seen = seen + 1;
                }
            } else {
                proof {
                    self@.lemma_take_succ_push(i as int);
                    assert(self@.skip(i as int + 1) =~= self@.skip(i as int).skip(1));
                    assert(old(self)@.skip(seen + 1) =~= old(self)@.skip(seen).skip(1));
                    seen = seen + 1;
                }
                i += 1;
            }
        }
        proof {
            assert(self@.take(i as int) =~= self@);
            assert(old(self)@.take(seen) =~= old(self)@);
            lemma_without(old(self)@, id);
        }
    }

    /// The identifiers of the entities that hold a component of type `key`,
    /// in the order of the store.
    pub fn entities_with(&self, key: TypeKey) -> (found: Vec<u64>)
        ensures
            found@ == ids_with(self@, key),
    {
        let mut found: Vec<u64> = Vec::new();
        let mut i: usize = 0;
        proof {
            lemma_ids_with_empty::<P>(key);
            assert(self@.take(0) =~= Seq::<EntityView<P>>::empty());
        }
        while i < self.entities.len()
            invariant
                i <= self@.len(),
                self@.len() == self.entities@.len(),
                found@ == ids_with(self@.take(i as int), key),
            decreases self@.len() - i,
        {
            proof {
                self@.lemma_take_succ_push(i as int);
                lemma_ids_with_push(self@.take(i as int), self@[i as int], key);
            }
            let entity = &self.entities[i];
            if entity.has(key) {
                found.push(entity.id());
            }
            i += 1;
        }
        proof {
            assert(self@.take(i as int) =~= self@);
        }
        found
    }

    /// The place of the first entity with the identifier `id`, if there is
    /// one.
    pub fn locate(&self, id: u64) -> (place: Option<usize>)
        ensures
            place is Some <==> contains_id(self@, id),
            place is Some ==> is_position(self@, id, place->Some_0 as int) && position(self@, id)
                == place->Some_0,
    {
        let mut i: usize = 0;
        while i < self.entities.len()
            invariant
                i <= self@.len(),
                self@.len() == self.entities@.len(),
                forall|k: int| 0 <= k < i ==> (#[trigger] self@[k]).id != id,
            decreases self@.len() - i,
        {
            if self.entities[i].id() == id {
                proof {
                    lemma_position(self@, id, i as int);
                }
                return Some(i);
            }
            i += 1;
        }
        None
    }

    /// Whether an entity with the identifier `id` is in the store.
    pub fn contains(&self, id: u64) -> (found: bool)
        ensures
            found == contains_id(self@, id),
    {
        self.locate(id).is_some()
    }

    /// The state of the component of type `key` of the entity `id`.
    pub fn component(&self, id: u64, key: TypeKey) -> (state: Result<&P, Error>)
        ensures
            state is Ok <==> has_component(self@, id, key),
            match state {
                Ok(found) => *found == payload(self@, id, key),
                Err(error) => error == Error::MissingEntityOrComponent,
            },
    {
        match self.locate(id) {
            Some(i) => match self.entities[i].component(key) {
                Some(found) => Ok(found),
                None => Err(Error::MissingEntityOrComponent),
            },
            None => Err(Error::MissingEntityOrComponent),
        }
    }

    /// The state of the component of type `key` of the entity `id`, for
    /// writing. Nothing but that state can change through the result.
    pub fn component_mut(&mut self, id: u64, key: TypeKey) -> (state: Result<&mut P, Error>)
        ensures
            state is Ok <==> has_component(old(self)@, id, key),
            match state {
                Ok(found) => {
                    &&& *found == payload(old(self)@, id, key)
                    &&& final(self)@ == with_payload(old(self)@, id, key, *final(found))
                },
                Err(error) => error == Error::MissingEntityOrComponent && final(self)@ == old(
                    self,
                )@,
            },
    {
        match self.locate(id) {
            Some(i) => {
                if !self.entities[i].has(key) {
                    return Err(Error::MissingEntityOrComponent);
                }
                let entity = &mut self.entities[i];
                match entity.component_mut(key) {
                    Some(found) => {
                        proof {
                            let ghost after = after_borrow(self.entities);
                            assert(after@.map_values(|entity: Entity<P>| entity@) =~= with_payload(
                                old(self)@,
                                id,
                                key,
                                *final(found),
                            ));
                        }
                        Ok(found)
                    },
                    None => Err(Error::MissingEntityOrComponent),
                }
            },
            None => Err(Error::MissingEntityOrComponent),
        }
    }

    /// The state of the one component of type `key` in the store. It is an
    /// error if no entity holds one, or more than one does.
    pub fn select_one(&self, key: TypeKey) -> (state: Result<&P, Error>)
        requires
            self.wf(),
        ensures
            state is Ok <==> ids_with(self@, key).len() == 1,
            match state {
                Ok(found) => *found == payload(self@, ids_with(self@, key)[0], key),
                Err(error) => error == Error::MissingEntityOrComponent,
            },
    {
        let holders = self.entities_with(key);
        if holders.len() == 1 {
            proof {
                lemma_holder(self@, key, 0);
            }
            self.component(holders[0], key)
        } else {
            Err(Error::MissingEntityOrComponent)
        }
    }
}

/// Each identifier that `ids_with` lists belongs to an entity of the store
/// that holds the type.
pub proof fn lemma_holder<P>(entities: Seq<EntityView<P>>, key: TypeKey, k: int)
    requires
        increasing(entities),
        0 <= k < ids_with(entities, key).len(),
    ensures
        has_component(entities, ids_with(entities, key)[k], key),
{
    let holders = entities.filter(holding(key));
    lemma_filter_entities(entities, holding(key));
    assert(holding::<P>(key)(holders[k]));
    assert(entities.contains(holders[k]));
    let at = choose|at: int| 0 <= at < entities.len() && entities[at] == holders[k];
    lemma_position_unique(entities, at);
}

} // verus!
