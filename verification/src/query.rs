use vstd::prelude::*;
use crate::component::TypeKey;
use crate::context::Context;
use crate::entity::EntityView;
use crate::store::holding;
use crate::store::id_of;
use crate::store::ids;
use crate::store::ids_with;
use crate::store::increasing;
use crate::store::lemma_filter_entities;

verus! {

/// Selects the entities that hold a component of each type in `keys`.
pub open spec fn holding_all<P>(keys: Seq<TypeKey>) -> spec_fn(EntityView<P>) -> bool {
    |entity: EntityView<P>| forall|k: int| 0 <= k < keys.len() ==> entity.holds(#[trigger] keys[k])
}

/// The identifiers of the entities that hold a component of each type in
/// `keys`, in the order of the entities.
pub open spec fn matching<P>(entities: Seq<EntityView<P>>, keys: Seq<TypeKey>) -> Seq<u64> {
    ids(entities.filter(holding_all(keys)))
}

/// Selects the identifiers that occur in `list`.
pub open spec fn member_of(list: Seq<u64>) -> spec_fn(u64) -> bool {
    |id: u64| list.contains(id)
}

/// Two predicates that agree on the members of a sequence keep the same
/// members.
pub proof fn lemma_filter_agree<A>(s: Seq<A>, p: spec_fn(A) -> bool, q: spec_fn(A) -> bool)
    requires
        forall|i: int| 0 <= i < s.len() ==> p(#[trigger] s[i]) == q(s[i]),
    ensures
        s.filter(p) == s.filter(q),
    decreases s.len(),
{
    reveal(Seq::filter);
    if s.len() > 0 {
        let init = s.drop_last();
        assert forall|i: int| 0 <= i < init.len() implies p(#[trigger] init[i]) == q(init[i]) by {
            assert(init[i] == s[i]);
        }
        lemma_filter_agree(init, p, q);
        assert(p(s[s.len() - 1]) == q(s[s.len() - 1]));
    }
}

/// Filtering twice keeps what a filter by both predicates keeps.
pub proof fn lemma_filter_twice<A>(
    s: Seq<A>,
    p: spec_fn(A) -> bool,
    q: spec_fn(A) -> bool,
    both: spec_fn(A) -> bool,
)
    requires
        forall|i: int| 0 <= i < s.len() ==> both(#[trigger] s[i]) == (p(s[i]) && q(s[i])),
    ensures
        s.filter(p).filter(q) == s.filter(both),
    decreases s.len(),
{
    reveal(Seq::filter);
    if s.len() == 0 {
        assert(s.filter(p).filter(q) =~= s.filter(both));
    } else {
        let init = s.drop_last();
        let last = s.last();
        assert forall|i: int| 0 <= i < init.len() implies both(#[trigger] init[i]) == (p(init[i])
            && q(init[i])) by {
            assert(init[i] == s[i]);
        }
        lemma_filter_twice(init, p, q, both);
        assert(both(s[s.len() - 1]) == (p(last) && q(last)));
        if p(last) {
            init.filter(p).lemma_filter_push(last, q);
        }
    }
}

/// A filter and a map change places where the predicate before the map and
/// the predicate after it agree on the members.
pub proof fn lemma_filter_then_map<A, B>(
    s: Seq<A>,
    p: spec_fn(A) -> bool,
    f: spec_fn(A) -> B,
    q: spec_fn(B) -> bool,
)
    requires
        forall|i: int| 0 <= i < s.len() ==> p(#[trigger] s[i]) == q(f(s[i])),
    ensures
        s.filter(p).map_values(f) == s.map_values(f).filter(q),
    decreases s.len(),
{
    reveal(Seq::filter);
    if s.len() == 0 {
        assert(s.filter(p).map_values(f) =~= s.map_values(f).filter(q));
    } else {
        let init = s.drop_last();
        let last = s.last();
        assert forall|i: int| 0 <= i < init.len() implies p(#[trigger] init[i]) == q(f(init[i])) by {
            assert(init[i] == s[i]);
        }
        lemma_filter_then_map(init, p, f, q);
        assert(p(s[s.len() - 1]) == q(f(last)));
        assert(s =~= init.push(last));
        init.lemma_push_map_commute(f, last);
        init.map_values(f).lemma_filter_push(f(last), q);
        init.filter(p).lemma_push_map_commute(f, last);
    }
}

/// A query for one type lists the holders of that type.
pub proof fn lemma_matching_one<P>(entities: Seq<EntityView<P>>, key: TypeKey)
    ensures
        matching(entities, seq![key]) == ids_with(entities, key),
{
    assert forall|i: int| 0 <= i < entities.len() implies holding_all::<P>(seq![key])(
        #[trigger] entities[i],
    ) == holding::<P>(key)(entities[i]) by {
        assert(seq![key][0] == key);
    }
    lemma_filter_agree(entities, holding_all(seq![key]), holding(key));
}

/// A query for one type more lists those of the query so far that are also
/// among the holders of the new type.
pub proof fn lemma_matching_push<P>(entities: Seq<EntityView<P>>, keys: Seq<TypeKey>, key: TypeKey)
    requires
        increasing(entities),
    ensures
        matching(entities, keys.push(key)) == matching(entities, keys).filter(
            member_of(ids_with(entities, key)),
        ),
{
    let so_far = entities.filter(holding_all(keys));
    let holders = entities.filter(holding(key));
    lemma_filter_entities(entities, holding_all(keys));
    lemma_filter_entities(entities, holding(key));
    assert forall|i: int| 0 <= i < entities.len() implies holding_all::<P>(keys.push(key))(
        #[trigger] entities[i],
    ) == (holding_all::<P>(keys)(entities[i]) && holding::<P>(key)(entities[i])) by {
        let entity = entities[i];
        let longer = keys.push(key);
        if holding_all::<P>(longer)(entity) {
            assert(entity.holds(longer[keys.len() as int]));
            assert forall|k: int| 0 <= k < keys.len() implies entity.holds(#[trigger] keys[k]) by {
                assert(entity.holds(longer[k]));
            }
        }
        if holding_all::<P>(keys)(entity) && entity.holds(key) {
            assert forall|k: int| 0 <= k < longer.len() implies entity.holds(
                #[trigger] longer[k],
            ) by {
                if k < keys.len() {
                    assert(entity.holds(keys[k]));
                }
            }
        }
    }
    lemma_filter_twice(entities, holding_all(keys), holding(key), holding_all(keys.push(key)));
    assert forall|i: int| 0 <= i < so_far.len() implies holding::<P>(key)(#[trigger] so_far[i])
        == member_of(ids_with(entities, key))(id_of::<P>()(so_far[i])) by {
        let entity = so_far[i];
        assert(entities.contains(entity));
        let at = choose|at: int| 0 <= at < entities.len() && entities[at] == entity;
        if entity.holds(key) {
            assert(holders.contains(entities[at]));
            let h = choose|h: int| 0 <= h < holders.len() && holders[h] == entity;
            assert(ids_with(entities, key)[h] == entity.id);
        }
        if ids_with(entities, key).contains(entity.id) {
            let h = choose|h: int|
                0 <= h < ids_with(entities, key).len() && ids_with(entities, key)[h] == entity.id;
            assert(holders[h].id == entity.id);
            assert(entities.contains(holders[h]));
            let other = choose|other: int| 0 <= other < entities.len() && entities[other] == holders[h];
            if other < at {
                assert(entities[other].id < entities[at].id);
            } else if at < other {
                assert(entities[at].id < entities[other].id);
            }
            assert(holding::<P>(key)(holders[h]));
        }
    }
    lemma_filter_then_map(so_far, holding(key), id_of(), member_of(ids_with(entities, key)));
}

/// What a query lists: an identifier is in the result exactly when an
/// entity with that identifier holds a component of each type asked for.
pub proof fn lemma_matching_contains<P>(entities: Seq<EntityView<P>>, keys: Seq<TypeKey>, id: u64)
    ensures
        matching(entities, keys).contains(id) <==> exists|i: int|
            0 <= i < entities.len() && (#[trigger] entities[i]).id == id && holding_all::<P>(keys)(
                entities[i],
            ),
{
    let kept = entities.filter(holding_all(keys));
    lemma_filter_entities(entities, holding_all(keys));
    if matching(entities, keys).contains(id) {
        let k = choose|k: int| 0 <= k < matching(entities, keys).len() && matching(entities, keys)[k]
            == id;
        assert(kept[k].id == id);
        assert(entities.contains(kept[k]));
        let at = choose|at: int| 0 <= at < entities.len() && entities[at] == kept[k];
        assert(entities[at].id == id && holding_all::<P>(keys)(entities[at]));
    }
    if exists|i: int|
        0 <= i < entities.len() && (#[trigger] entities[i]).id == id && holding_all::<P>(keys)(
            entities[i],
        ) {
        let i = choose|i: int|
            0 <= i < entities.len() && (#[trigger] entities[i]).id == id && holding_all::<P>(keys)(
                entities[i],
            );
        assert(kept.contains(entities[i]));
        let k = choose|k: int| 0 <= k < kept.len() && kept[k] == entities[i];
        assert(matching(entities, keys)[k] == id);
    }
}

/// Whether `id` occurs in `list`.
pub fn is_member(list: &Vec<u64>, id: u64) -> (found: bool)
    ensures
        found == list@.contains(id),
{
    let mut i: usize = 0;
    while i < list.len()
        invariant
            i <= list@.len(),
            forall|k: int| 0 <= k < i ==> list@[k] != id,
        decreases list@.len() - i,
    {
        if list[i] == id {
            return true;
        }
        i += 1;
    }
    false
}

/// Those of `list` that also occur in `members`, in the order of `list`.
pub fn retain_members(list: &Vec<u64>, members: &Vec<u64>) -> (kept: Vec<u64>)
    ensures
        kept@ == list@.filter(member_of(members@)),
{
    let mut kept: Vec<u64> = Vec::new();
    let mut i: usize = 0;
    proof {
        list@.take(0).lemma_filter_len(member_of(members@));
    }
    while i < list.len()
        invariant
            i <= list@.len(),
            kept@ == list@.take(i as int).filter(member_of(members@)),
        decreases list@.len() - i,
    {
        proof {
            list@.lemma_take_succ_push(i as int);
            list@.take(i as int).lemma_filter_push(list@[i as int], member_of(members@));
        }
        if is_member(members, list[i]) {
            kept.push(list[i]);
        }
        i += 1;
    }
    proof {
        assert(list@.take(i as int) =~= list@);
    }
    kept
}

/// A request for the entities that hold a component of each of one or more
/// types. It is resolved anew on each run and keeps no result.
pub struct ComponentQuery {
    first: TypeKey,
    rest: Vec<TypeKey>,
}

/// What can be run against a context to list entities.
pub trait QueryRunner {
    /// The types that an entity has to hold to be listed.
    spec fn keys(&self) -> Seq<TypeKey>;

    /// The identifiers of the entities that hold a component of each type
    /// asked for, in the order in which the entities were spawned.
    fn run<P, T, F>(&self, context: &Context<P, T, F>) -> (found: Vec<u64>)
        requires
            context.wf(),
        ensures
            found@ == matching(context@.entities, self.keys()),
    ;
}

impl ComponentQuery {
    /// The types asked for, in the order in which they were given.
    pub closed spec fn view(&self) -> Seq<TypeKey> {
        seq![self.first] + self.rest@
    }

    /// A query for the entities that hold a component of type `first`.
    pub fn new(first: TypeKey) -> (query: Self)
        ensures
            query@ == seq![first],
    {
        let query = ComponentQuery { first, rest: Vec::new() };
        assert(query@ =~= seq![first]);
        query
    }

    /// The same query, narrowed to the entities that hold a component of
    /// type `key` too.
    pub fn and(self, key: TypeKey) -> (query: Self)
        ensures
            query@ == self@.push(key),
    {
        let mut rest = self.rest;
        rest.push(key);
        let query = ComponentQuery { first: self.first, rest };
        assert(query@ =~= self@.push(key));
        query
    }
}

impl QueryRunner for ComponentQuery {
    open spec fn keys(&self) -> Seq<TypeKey> {
        self@
    }

    /// Lists the holders of the first type, then keeps, for each further
    /// type, those that are among its holders too.
    fn run<P, T, F>(&self, context: &Context<P, T, F>) -> (found: Vec<u64>) {
        let mut found = context.entities_with_component(self.first);
        let mut n: usize = 0;
        proof {
            lemma_matching_one(context@.entities, self.first);
            assert(self@.take(1) =~= seq![self.first]);
        }
        while n < self.rest.len()
            invariant
                n <= self.rest@.len(),
                context.wf(),
                found@ == matching(context@.entities, self@.take(n + 1)),
            decreases self.rest@.len() - n,
        {
            let key = self.rest[n];
            let holders = context.entities_with_component(key);
            proof {
                assert(self@[n + 1] == key);
                self@.lemma_take_succ_push(n + 1);
                lemma_matching_push(context@.entities, self@.take(n + 1), key);
            }
            found = retain_members(&found, &holders);
            n += 1;
        }
        proof {
            assert(self@.take(n + 1) =~= self@);
        }
        found
    }
}

} // verus!
