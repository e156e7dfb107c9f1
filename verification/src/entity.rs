use vstd::prelude::*;
use crate::component::Component;
use crate::component::TypeKey;

verus! {

/// An identifier and the components that belong to it.
pub struct Entity<P> {
    id: u64,
    components: Vec<Component<P>>,
}

/// What an entity is: its identifier and its components in the order in
/// which they were given.
pub ghost struct EntityView<P> {
    pub id: u64,
    pub components: Seq<Component<P>>,
}

impl<P> EntityView<P> {
    /// Whether one of the components is of type `key`.
    pub open spec fn holds(self, key: TypeKey) -> bool {
        exists|j: int| 0 <= j < self.components.len() && (#[trigger] self.components[j]).key == key
    }

    /// Whether `j` is the place of the first component of type `key`.
    pub open spec fn is_slot(self, key: TypeKey, j: int) -> bool {
        &&& 0 <= j < self.components.len()
        &&& self.components[j].key == key
        &&& forall|k: int| 0 <= k < j ==> (#[trigger] self.components[k]).key != key
    }

    /// The place of the first component of type `key`, where the entity
    /// holds one.
    pub open spec fn slot(self, key: TypeKey) -> int {
        choose|j: int| self.is_slot(key, j)
    }

    /// The entity with the state of the component at place `j` replaced.
    pub open spec fn with_payload(self, j: int, payload: P) -> Self {
        EntityView {
            id: self.id,
            components: self.components.update(
                j,
                Component { key: self.components[j].key, payload },
            ),
        }
    }
}

/// The first component of a type is at one place only, and `slot` names it.
pub proof fn lemma_slot<P>(entity: EntityView<P>, key: TypeKey, j: int)
    requires
        entity.is_slot(key, j),
    ensures
        entity.holds(key),
        entity.slot(key) == j,
{
    let chosen = entity.slot(key);
    assert(entity.is_slot(key, chosen));
    if chosen < j {
        assert(entity.components[chosen].key != key);
    } else if j < chosen {
        assert(entity.components[j].key != key);
    }
}

/// An entity that holds a type has a first component of it.
pub proof fn lemma_holds_has_slot<P>(entity: EntityView<P>, key: TypeKey)
    requires
        entity.holds(key),
    ensures
        entity.is_slot(key, entity.slot(key)),
{
    let j = choose|j: int| 0 <= j < entity.components.len() && (#[trigger] entity.components[j]).key == key;
    lemma_first_before(entity, key, j);
}

proof fn lemma_first_before<P>(entity: EntityView<P>, key: TypeKey, j: int)
    requires
        0 <= j < entity.components.len(),
        entity.components[j].key == key,
    ensures
        exists|f: int| entity.is_slot(key, f),
    decreases j,
{
    if exists|k: int| 0 <= k < j && (#[trigger] entity.components[k]).key == key {
        let k = choose|k: int| 0 <= k < j && (#[trigger] entity.components[k]).key == key;
        lemma_first_before(entity, key, k);
    } else {
        assert(entity.is_slot(key, j));
    }
}

impl<P> Entity<P> {
    pub closed spec fn view(&self) -> EntityView<P> {
        EntityView { id: self.id, components: self.components@ }
    }

    /// The entity `id` with the given components.
    pub fn new(id: u64, components: Vec<Component<P>>) -> (entity: Self)
        ensures
            entity@ == (EntityView { id, components: components@ }),
    {
        Entity { id, components }
    }

    /// The entity's identifier.
    pub fn id(&self) -> (id: u64)
        ensures
            id == self@.id,
    {
        self.id
    }

    /// The place of the first component of type `key`, if there is one.
    pub fn find(&self, key: TypeKey) -> (place: Option<usize>)
        ensures
            place is Some <==> self@.holds(key),
            place is Some ==> self@.is_slot(key, place->Some_0 as int) && self@.slot(key)
                == place->Some_0,
    {
        let mut j: usize = 0;
        while j < self.components.len()
            invariant
                j <= self.components@.len(),
                forall|k: int| 0 <= k < j ==> (#[trigger] self.components@[k]).key != key,
            decreases self.components@.len() - j,
        {
            if self.components[j].key == key {
                proof {
                    lemma_slot(self@, key, j as int);
                }
                return Some(j);
            }
            j += 1;
        }
        None
    }

    /// Whether the entity holds a component of type `key`.
    pub fn has(&self, key: TypeKey) -> (held: bool)
        ensures
            held == self@.holds(key),
    {
        self.find(key).is_some()
    }

    /// The state of the first component of type `key`, if there is one.
    pub fn component(&self, key: TypeKey) -> (state: Option<&P>)
        ensures
            state is Some <==> self@.holds(key),
            state is Some ==> *state->Some_0 == self@.components[self@.slot(key)].payload,
    {
        match self.find(key) {
            Some(j) => Some(&self.components[j].payload),
            None => None,
        }
    }

    /// The state of the first component of type `key` for writing, if there
    /// is one. Nothing but that state can change through the result.
    pub fn component_mut(&mut self, key: TypeKey) -> (state: Option<&mut P>)
        ensures
            state is Some <==> old(self)@.holds(key),
            match state {
                Some(payload) => {
                    &&& *payload == old(self)@.components[old(self)@.slot(key)].payload
                    &&& final(self)@ == old(self)@.with_payload(old(self)@.slot(key), *final(payload))
                },
                None => final(self)@ == old(self)@,
            },
    {
        match self.find(key) {
            Some(j) => {
                let payload = &mut self.components[j].payload;
                proof {
                    let ghost after = after_borrow(self.components);
                    assert(after@ =~= old(self)@.with_payload(j as int, *final(payload)).components);
                }
                Some(payload)
            },
            None => None,
        }
    }
}

} // verus!
