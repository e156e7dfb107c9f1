use engine::component::Component;
use engine::component::TypeKey;
use engine::context::Context;
use engine::entity::Entity;
use engine::error::Error;
use engine::store::EntityStore;

const A: TypeKey = TypeKey(1);
const B: TypeKey = TypeKey(2);
const C: TypeKey = TypeKey(3);

#[test]
fn component_reports_its_type_key() {
    let component = Component::new(B, 5);
    assert_eq!(component.type_key(), B);
    assert_eq!(component.key, B);
    assert_eq!(component.payload, 5);
}

#[test]
fn downcast_succeeds_for_the_own_type_only() {
    let mut component = Component::new(A, 5);
    assert_eq!(component.downcast_ref(A), Some(&5));
    assert_eq!(component.downcast_ref(B), None);
    assert_eq!(component.downcast_mut(B), None);
    match component.downcast_mut(A) {
        Some(state) => *state = 6,
        None => panic!("the component is of type A"),
    }
    assert_eq!(component.payload, 6);
    assert_eq!(component.key, A);
}

#[test]
fn entity_finds_the_first_component_of_a_type() {
    let entity = Entity::new(
        4,
        vec![Component::new(A, 10), Component::new(B, 20), Component::new(A, 30)],
    );
    assert_eq!(entity.id(), 4);
    assert_eq!(entity.find(A), Some(0));
    assert_eq!(entity.find(B), Some(1));
    assert_eq!(entity.find(C), None);
    assert!(entity.has(A));
    assert!(!entity.has(C));
    assert_eq!(entity.component(A), Some(&10));
    assert_eq!(entity.component(C), None);
}

#[test]
fn entity_component_mut_changes_that_state_only() {
    let mut entity = Entity::new(4, vec![Component::new(A, 10), Component::new(B, 20)]);
    match entity.component_mut(B) {
        Some(state) => *state += 1,
        None => panic!("the entity holds B"),
    }
    assert_eq!(entity.component(A), Some(&10));
    assert_eq!(entity.component(B), Some(&21));
    assert!(entity.component_mut(C).is_none());
}

#[test]
fn entities_with_component_lists_holders_in_spawn_order() {
    let mut ctx: Context<i32, (), ()> = Context::new();
    let e0 = ctx.spawn(vec![Component::new(A, 0)]);
    let _e1 = ctx.spawn(vec![Component::new(B, 0)]);
    let e2 = ctx.spawn(vec![Component::new(B, 0), Component::new(A, 0)]);
    let _e3 = ctx.spawn(vec![]);
    let e4 = ctx.spawn(vec![Component::new(A, 0)]);
    assert_eq!(ctx.entities_with_component(A), vec![e0, e2, e4]);
    assert_eq!(ctx.entities_with_component(C), Vec::<u64>::new());
}

#[test]
fn entity_component_gives_write_access() {
    let mut ctx: Context<i32, (), ()> = Context::new();
    let id = ctx.spawn(vec![Component::new(A, 1), Component::new(B, 2)]);
    let other = ctx.spawn(vec![Component::new(B, 7)]);
    match ctx.entity_component(id, B) {
        Ok(state) => *state = 40,
        Err(error) => panic!("{}", error.message()),
    }
    assert_eq!(ctx.select(id, B), Ok(&40));
    assert_eq!(ctx.select(id, A), Ok(&1));
    assert_eq!(ctx.select(other, B), Ok(&7));
}

#[test]
fn entity_component_fails_on_absent_entity() {
    let mut ctx: Context<i32, (), ()> = Context::new();
    ctx.spawn(vec![Component::new(A, 1)]);
    assert_eq!(ctx.entity_component(17, A), Err(Error::MissingEntityOrComponent));
    assert_eq!(ctx.select(17, A), Err(Error::MissingEntityOrComponent));
}

#[test]
fn entity_component_fails_on_absent_component_type() {
    let mut ctx: Context<i32, (), ()> = Context::new();
    let id = ctx.spawn(vec![Component::new(A, 1)]);
    assert_eq!(ctx.entity_component(id, B), Err(Error::MissingEntityOrComponent));
    assert_eq!(ctx.select(id, B), Err(Error::MissingEntityOrComponent));
}

#[test]
fn despawn_removes_the_entity_and_keeps_the_order() {
    let mut ctx: Context<i32, (), ()> = Context::new();
    let e0 = ctx.spawn(vec![Component::new(A, 0)]);
    let e1 = ctx.spawn(vec![Component::new(A, 1)]);
    let e2 = ctx.spawn(vec![Component::new(A, 2)]);
    ctx.despawn(e1);
    assert_eq!(ctx.entities_with_component(A), vec![e0, e2]);
    assert_eq!(ctx.select(e1, A), Err(Error::MissingEntityOrComponent));
    assert_eq!(ctx.select(e0, A), Ok(&0));
    assert_eq!(ctx.select(e2, A), Ok(&2));
}

#[test]
fn despawn_of_absent_identifier_is_a_no_op() {
    let mut ctx: Context<i32, (), ()> = Context::new();
    let e0 = ctx.spawn(vec![Component::new(A, 0)]);
    let e1 = ctx.spawn(vec![Component::new(A, 1)]);
    ctx.despawn(99);
    assert_eq!(ctx.entities_with_component(A), vec![e0, e1]);
    ctx.despawn(e0);
    ctx.despawn(e0);
    assert_eq!(ctx.entities_with_component(A), vec![e1]);
    assert_eq!(ctx.select(e1, A), Ok(&1));
}

#[test]
fn despawn_on_empty_world_is_a_no_op() {
    let mut ctx: Context<i32, (), ()> = Context::new();
    ctx.despawn(0);
    assert_eq!(ctx.entities_with_component(A), Vec::<u64>::new());
    assert_eq!(ctx.spawn(vec![]), 0);
}

#[test]
fn despawn_during_iteration_fails_cleanly_for_the_despawned() {
    let mut ctx: Context<i32, (), ()> = Context::new();
    let e1 = ctx.spawn(vec![Component::new(A, 1)]);
    let e2 = ctx.spawn(vec![Component::new(A, 2)]);
    let pass = ctx.entities_with_component(A);
    assert_eq!(pass, vec![e1, e2]);
    let mut processed = Vec::new();
    for id in pass {
        if id == e1 {
            ctx.despawn(e1);
            assert_eq!(ctx.entity_component(e1, A), Err(Error::MissingEntityOrComponent));
            continue;
        }
        match ctx.entity_component(id, A) {
            Ok(state) => {
                *state += 10;
                processed.push(id);
            },
            Err(error) => panic!("{}", error.message()),
        }
    }
    assert_eq!(processed, vec![e2]);
    assert_eq!(ctx.select(e2, A), Ok(&12));
}

#[test]
fn despawn_of_a_later_entity_makes_its_access_fail() {
    let mut ctx: Context<i32, (), ()> = Context::new();
    let e1 = ctx.spawn(vec![Component::new(A, 1)]);
    let e2 = ctx.spawn(vec![Component::new(A, 2)]);
    let pass = ctx.entities_with_component(A);
    ctx.despawn(e2);
    let results: Vec<bool> = pass.iter().map(|id| ctx.select(*id, A).is_ok()).collect();
    assert_eq!(results, vec![true, false]);
    assert_eq!(ctx.select(e1, A), Ok(&1));
}

#[test]
fn select_one_needs_exactly_one_holder() {
    let mut ctx: Context<i32, (), ()> = Context::new();
    assert_eq!(ctx.select_one(A), Err(Error::MissingEntityOrComponent));
    let first = ctx.spawn(vec![Component::new(B, 0), Component::new(A, 5)]);
    assert_eq!(ctx.select_one(A), Ok(&5));
    let second = ctx.spawn(vec![Component::new(A, 6)]);
    assert_eq!(ctx.select_one(A), Err(Error::MissingEntityOrComponent));
    ctx.despawn(first);
    assert_eq!(ctx.select_one(A), Ok(&6));
    ctx.despawn(second);
    assert_eq!(ctx.select_one(A), Err(Error::MissingEntityOrComponent));
}

#[test]
fn clone_one_copies_the_single_state() {
    let mut ctx: Context<String, (), ()> = Context::new();
    assert_eq!(ctx.clone_one(A), Err(Error::MissingEntityOrComponent));
    let id = ctx.spawn(vec![Component::new(A, String::from("heroes"))]);
    let mut copy = ctx.clone_one(A).unwrap();
    copy.push_str(" on board");
    assert_eq!(copy, "heroes on board");
    assert_eq!(ctx.select(id, A), Ok(&String::from("heroes")));
    ctx.spawn(vec![Component::new(A, String::from("more"))]);
    assert_eq!(ctx.clone_one(A), Err(Error::MissingEntityOrComponent));
}

#[test]
fn store_keeps_entities_in_insertion_order() {
    let mut store: EntityStore<i32> = EntityStore::new();
    assert_eq!(store.len(), 0);
    store.insert(3, vec![Component::new(A, 1)]);
    store.insert(8, vec![Component::new(A, 2), Component::new(B, 3)]);
    assert_eq!(store.len(), 2);
    assert_eq!(store.entities_with(A), vec![3, 8]);
    assert_eq!(store.entities_with(B), vec![8]);
    assert_eq!(store.locate(8), Some(1));
    assert_eq!(store.locate(4), None);
    assert!(store.contains(3));
    assert!(!store.contains(4));
    assert_eq!(store.component(8, B), Ok(&3));
    match store.component_mut(3, A) {
        Ok(state) => *state = 50,
        Err(error) => panic!("{}", error.message()),
    }
    assert_eq!(store.component(3, A), Ok(&50));
    assert_eq!(store.select_one(B), Ok(&3));
    store.despawn(3);
    assert_eq!(store.len(), 1);
    assert_eq!(store.locate(8), Some(0));
}

#[test]
fn components_may_hold_floating_point_state() {
    let mut ctx: Context<(f64, f64), (), ()> = Context::new();
    let id = ctx.spawn(vec![Component::new(A, (1.5, -2.0))]);
    match ctx.entity_component(id, A) {
        Ok(state) => state.0 += 0.25,
        Err(error) => panic!("{}", error.message()),
    }
    assert_eq!(ctx.select(id, A), Ok(&(1.75, -2.0)));
}
