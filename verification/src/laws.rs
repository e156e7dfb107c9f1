use vstd::prelude::*;
use crate::component::Component;
use crate::component::TypeKey;
use crate::context::ContextView;
use crate::entity::EntityView;
use crate::query::holding_all;
use crate::query::lemma_matching_contains;
use crate::query::matching;
use crate::store::contains_id;
use crate::store::has_component;
use crate::store::increasing;
use crate::store::lemma_without;
use crate::store::payload;
use crate::store::without;

verus! {

/// The context after one entity was spawned for each of `batches`, in turn.
pub open spec fn spawned_all<P, T, F>(
    start: ContextView<P, T, F>,
    batches: Seq<Seq<Component<P>>>,
) -> ContextView<P, T, F>
    decreases batches.len(),
{
    if batches.len() == 0 {
        start
    } else {
        spawned_all(start, batches.drop_last()).spawned(batches.last())
    }
}

/// The identifier that the spawn for the batch at place `i` returns.
pub open spec fn spawned_id<P, T, F>(
    start: ContextView<P, T, F>,
    batches: Seq<Seq<Component<P>>>,
    i: int,
) -> u64 {
    spawned_all(start, batches.take(i)).next_id
}

/// Spawning one entity after the other yields identifiers that grow by one
/// each time, so that they are strictly increasing and pairwise distinct,
/// and a valid context stays valid.
pub proof fn lemma_spawned_identifiers_increase<P, T, F>(
    start: ContextView<P, T, F>,
    batches: Seq<Seq<Component<P>>>,
)
    requires
        start.valid(),
        start.next_id + batches.len() <= u64::MAX,
    ensures
        spawned_all(start, batches).valid(),
        spawned_all(start, batches).next_id == start.next_id + batches.len(),
        forall|i: int|
            0 <= i < batches.len() ==> #[trigger] spawned_id(start, batches, i) == start.next_id + i,
        forall|i: int, j: int|
            0 <= i < j < batches.len() ==> #[trigger] spawned_id(start, batches, i)
                < #[trigger] spawned_id(start, batches, j),
    decreases batches.len(),
{
    if batches.len() > 0 {
        let before = batches.drop_last();
        lemma_spawned_identifiers_increase(start, before);
        assert forall|i: int| 0 <= i < batches.len() implies #[trigger] spawned_id(
            start,
            batches,
            i,
        ) == start.next_id + i by {
            if i < before.len() {
                assert(batches.take(i) =~= before.take(i));
                assert(spawned_id(start, before, i) == start.next_id + i);
            } else {
                assert(batches.take(i) =~= before);
            }
        }
    }
}

/// A query lists an entity exactly when the entity holds a component of
/// each type that the query names: one that lacks any of them is in no
/// result, one that holds them all is in every result.
pub proof fn lemma_query_lists_the_holders<P>(
    entities: Seq<EntityView<P>>,
    keys: Seq<TypeKey>,
    i: int,
)
    requires
        increasing(entities),
        0 <= i < entities.len(),
    ensures
        matching(entities, keys).contains(entities[i].id) <==> (forall|k: int|
            0 <= k < keys.len() ==> entities[i].holds(#[trigger] keys[k])),
{
    lemma_matching_contains(entities, keys, entities[i].id);
    if matching(entities, keys).contains(entities[i].id) {
        let at = choose|at: int|
            0 <= at < entities.len() && (#[trigger] entities[at]).id == entities[i].id
                && holding_all::<P>(keys)(entities[at]);
        if at < i {
            assert(entities[at].id < entities[i].id);
        } else if i < at {
            assert(entities[i].id < entities[at].id);
        }
    }
    if forall|k: int| 0 <= k < keys.len() ==> entities[i].holds(#[trigger] keys[k]) {
        assert(holding_all::<P>(keys)(entities[i]));
    }
}

/// Despawning twice is despawning once, and despawning an entity that is
/// not there changes nothing.
pub proof fn lemma_despawn_is_idempotent<P>(entities: Seq<EntityView<P>>, id: u64)
    ensures
        !contains_id(entities, id) ==> without(entities, id) == entities,
        without(without(entities, id), id) == without(entities, id),
{
    lemma_without(entities, id);
    lemma_without(without(entities, id), id);
}

/// After an entity was despawned, no component of it can be reached, while
/// every component of every other entity is reached as before and has the
/// state it had.
pub proof fn lemma_despawn_spares_others<P>(
    entities: Seq<EntityView<P>>,
    gone: u64,
    other: u64,
    key: TypeKey,
)
    requires
        increasing(entities),
        other != gone,
    ensures
        !has_component(without(entities, gone), gone, key),
        has_component(without(entities, gone), other, key) <==> has_component(
            entities,
            other,
            key,
        ),
        has_component(entities, other, key) ==> payload(without(entities, gone), other, key)
            == payload(entities, other, key),
{
    lemma_without(entities, gone);
}

} // verus!
