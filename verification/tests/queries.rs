use engine::component::Component;
use engine::component::TypeKey;
use engine::context::Context;
use engine::query::is_member;
use engine::query::retain_members;
use engine::query::ComponentQuery;
use engine::query::QueryRunner;
use engine::rigid_body::rigid_bodies;
use engine::rigid_body::rigid_body_key;
use engine::rigid_body::DragSystem;
use engine::rigid_body::GravitySystem;
use engine::rigid_body::VelocitySystem;
use engine::rigid_body::RIGID_BODY;

const A: TypeKey = TypeKey(1);
const B: TypeKey = TypeKey(2);
const C: TypeKey = TypeKey(3);
const D: TypeKey = TypeKey(4);

fn world() -> (Context<i32, (), ()>, u64, u64) {
    let mut ctx: Context<i32, (), ()> = Context::new();
    let abc = ctx.spawn(vec![Component::new(A, 0), Component::new(B, 0), Component::new(C, 0)]);
    let ab = ctx.spawn(vec![Component::new(A, 0), Component::new(B, 0)]);
    (ctx, abc, ab)
}

#[test]
fn entity_with_three_types_matches_every_query_over_them() {
    let (ctx, abc, _) = world();
    assert!(ComponentQuery::new(A).run(&ctx).contains(&abc));
    assert!(ComponentQuery::new(A).and(B).run(&ctx).contains(&abc));
    assert!(ComponentQuery::new(B).and(C).run(&ctx).contains(&abc));
    assert!(ComponentQuery::new(A).and(B).and(C).run(&ctx).contains(&abc));
}

#[test]
fn entity_with_two_types_matches_no_query_that_names_a_third() {
    let (ctx, _, ab) = world();
    assert!(ComponentQuery::new(A).run(&ctx).contains(&ab));
    assert!(ComponentQuery::new(B).run(&ctx).contains(&ab));
    assert!(ComponentQuery::new(A).and(B).run(&ctx).contains(&ab));
    assert!(!ComponentQuery::new(C).run(&ctx).contains(&ab));
    assert!(!ComponentQuery::new(A).and(C).run(&ctx).contains(&ab));
    assert!(!ComponentQuery::new(C).and(A).run(&ctx).contains(&ab));
    assert!(!ComponentQuery::new(B).and(C).run(&ctx).contains(&ab));
    assert!(!ComponentQuery::new(A).and(B).and(C).run(&ctx).contains(&ab));
    assert!(!ComponentQuery::new(C).and(B).and(A).run(&ctx).contains(&ab));
}

#[test]
fn query_results_are_exact_and_in_spawn_order() {
    let (mut ctx, abc, ab) = world();
    let c = ctx.spawn(vec![Component::new(C, 0)]);
    let ca = ctx.spawn(vec![Component::new(C, 0), Component::new(A, 0)]);
    assert_eq!(ComponentQuery::new(A).run(&ctx), vec![abc, ab, ca]);
    assert_eq!(ComponentQuery::new(C).run(&ctx), vec![abc, c, ca]);
    assert_eq!(ComponentQuery::new(A).and(C).run(&ctx), vec![abc, ca]);
    assert_eq!(ComponentQuery::new(C).and(A).run(&ctx), vec![abc, ca]);
    assert_eq!(ComponentQuery::new(A).and(B).and(C).run(&ctx), vec![abc]);
    assert_eq!(ComponentQuery::new(D).run(&ctx), Vec::<u64>::new());
    assert_eq!(ComponentQuery::new(A).and(D).run(&ctx), Vec::<u64>::new());
}

#[test]
fn query_over_more_than_three_types() {
    let mut ctx: Context<i32, (), ()> = Context::new();
    let _abc = ctx.spawn(vec![Component::new(A, 0), Component::new(B, 0), Component::new(C, 0)]);
    let abcd = ctx.spawn(vec![
        Component::new(D, 0),
        Component::new(C, 0),
        Component::new(B, 0),
        Component::new(A, 0),
    ]);
    assert_eq!(ComponentQuery::new(A).and(B).and(C).and(D).run(&ctx), vec![abcd]);
}

#[test]
fn query_that_names_a_type_twice() {
    let (ctx, abc, ab) = world();
    assert_eq!(ComponentQuery::new(A).and(A).run(&ctx), vec![abc, ab]);
}

#[test]
fn query_on_empty_world_is_empty() {
    let ctx: Context<i32, (), ()> = Context::new();
    assert_eq!(ComponentQuery::new(A).run(&ctx), Vec::<u64>::new());
    assert_eq!(ComponentQuery::new(A).and(B).run(&ctx), Vec::<u64>::new());
}

#[test]
fn query_is_resolved_anew_on_each_run() {
    let (mut ctx, abc, ab) = world();
    let query = ComponentQuery::new(A).and(B);
    assert_eq!(query.run(&ctx), vec![abc, ab]);
    ctx.despawn(abc);
    assert_eq!(query.run(&ctx), vec![ab]);
    let fresh = ctx.spawn(vec![Component::new(B, 0), Component::new(A, 0)]);
    assert_eq!(query.run(&ctx), vec![ab, fresh]);
}

#[test]
fn membership_and_retain() {
    let list = vec![5, 1, 9, 1, 3];
    assert!(is_member(&list, 9));
    assert!(!is_member(&list, 2));
    assert!(!is_member(&Vec::new(), 2));
    assert_eq!(retain_members(&list, &vec![1, 3, 7]), vec![1, 1, 3]);
    assert_eq!(retain_members(&list, &Vec::new()), Vec::<u64>::new());
    assert_eq!(retain_members(&Vec::new(), &list), Vec::<u64>::new());
}

#[test]
fn physics_systems_visit_the_rigid_bodies_in_spawn_order() {
    let mut ctx: Context<i32, (), ()> = Context::new();
    assert_eq!(rigid_body_key(), TypeKey(RIGID_BODY));
    let body = ctx.spawn(vec![Component::new(rigid_body_key(), 0)]);
    let _other = ctx.spawn(vec![Component::new(A, 0)]);
    let both = ctx.spawn(vec![Component::new(A, 0), Component::new(rigid_body_key(), 0)]);
    let velocity = VelocitySystem(ctx.add_system());
    let gravity = GravitySystem(ctx.add_system());
    let drag = DragSystem(ctx.add_system());
    assert_eq!((velocity.0, gravity.0, drag.0), (3, 4, 5));
    assert_eq!(rigid_bodies(&ctx), vec![body, both]);
    assert_eq!(velocity.targets(&ctx), vec![body, both]);
    assert_eq!(gravity.targets(&ctx), vec![body, both]);
    assert_eq!(drag.targets(&ctx), vec![body, both]);
}
