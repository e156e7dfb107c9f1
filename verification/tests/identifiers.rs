use engine::component::Component;
use engine::component::TypeKey;
use engine::context::Context;
use engine::id::IdAllocator;
use engine::resource::Font;
use engine::resource::Loaded;
use engine::resource::Texture;

const A: TypeKey = TypeKey(1);

#[test]
fn allocator_starts_at_zero_and_counts_up() {
    let mut ids = IdAllocator::new();
    assert_eq!(ids.peek(), 0);
    assert_eq!(ids.allocate(), 0);
    assert_eq!(ids.allocate(), 1);
    assert_eq!(ids.allocate(), 2);
    assert_eq!(ids.peek(), 3);
    assert!(!ids.is_exhausted());
}

#[test]
fn peek_does_not_allocate() {
    let mut ids = IdAllocator::new();
    assert_eq!(ids.peek(), 0);
    assert_eq!(ids.peek(), 0);
    assert_eq!(ids.allocate(), 0);
}

#[test]
fn spawned_identifiers_are_strictly_increasing() {
    let mut ctx: Context<i32, (), ()> = Context::new();
    let mut ids = Vec::new();
    for n in 0..50 {
        assert!(ctx.can_allocate());
        ids.push(ctx.spawn(vec![Component::new(A, n)]));
    }
    for pair in ids.windows(2) {
        assert!(pair[0] < pair[1]);
    }
    for (i, a) in ids.iter().enumerate() {
        for b in ids.iter().skip(i + 1) {
            assert_ne!(a, b);
        }
    }
    assert_eq!(ids[0], 0);
    assert_eq!(ids[49], 49);
}

#[test]
fn identifiers_are_not_reused_after_despawn() {
    let mut ctx: Context<i32, (), ()> = Context::new();
    let first = ctx.spawn(vec![Component::new(A, 1)]);
    ctx.despawn(first);
    let second = ctx.spawn(vec![Component::new(A, 2)]);
    assert_eq!(first, 0);
    assert_eq!(second, 1);
}

#[test]
fn entities_systems_and_resources_share_one_counter() {
    let mut ctx: Context<i32, u8, u8> = Context::new();
    let entity = ctx.spawn(vec![]);
    let system = ctx.add_system();
    let texture = ctx.load_texture(Ok(Loaded { texture: 9, width: 2, height: 3 }));
    let font = ctx.load_font(Ok(4));
    let later = ctx.spawn(vec![]);
    assert_eq!(entity, 0);
    assert_eq!(system, 1);
    assert_eq!(texture, Ok(Texture(2)));
    assert_eq!(font, Ok(Font(3)));
    assert_eq!(later, 4);
}

#[test]
fn failed_load_allocates_nothing() {
    let mut ctx: Context<i32, u8, u8> = Context::new();
    let failed = ctx.load_texture(Err(String::from("no such file")));
    assert!(failed.is_err());
    assert_eq!(ctx.spawn(vec![]), 0);
}
