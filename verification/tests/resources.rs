use engine::context::Context;
use engine::context::Text;
use engine::draw::Color;
use engine::draw::DrawTextureOpts;
use engine::draw::Fill;
use engine::draw::Rect;
use engine::error::Error;
use engine::resource::Font;
use engine::resource::Loaded;
use engine::resource::ResourceCache;
use engine::resource::Texture;
use engine::shared_ptr::SharedPtr;

fn context() -> (Context<i32, String, u16>, Texture, Texture) {
    let mut ctx: Context<i32, String, u16> = Context::new();
    let wide = ctx.load_texture(Ok(Loaded { texture: String::from("wide"), width: 64, height: 16 }));
    let tall = ctx.load_texture(Ok(Loaded { texture: String::from("tall"), width: 8, height: 32 }));
    (ctx, wide.unwrap(), tall.unwrap())
}

#[test]
fn loaded_textures_get_consecutive_handles() {
    let (_, wide, tall) = context();
    assert_eq!(wide, Texture(0));
    assert_eq!(tall, Texture(1));
}

#[test]
fn load_failure_is_handed_on() {
    let (mut ctx, _, _) = context();
    let failed = ctx.load_texture(Err(String::from("textures/none.png: not found")));
    assert_eq!(failed, Err(Error::ResourceLoad(String::from("textures/none.png: not found"))));
    let next = ctx.load_texture(Ok(Loaded { texture: String::from("next"), width: 1, height: 1 }));
    assert_eq!(next, Ok(Texture(2)));
}

#[test]
fn texture_size_is_the_size_it_was_loaded_with() {
    let (ctx, wide, tall) = context();
    assert_eq!(ctx.texture_size(wide), Ok((64, 16)));
    assert_eq!(ctx.texture_size(tall), Ok((8, 32)));
    assert_eq!(ctx.texture_size(Texture(5)), Err(Error::InvalidResourceHandle));
}

#[test]
fn draw_texture_uses_the_own_size_by_default() {
    let (ctx, wide, _) = context();
    match ctx.draw_texture(wide, 10, -20, DrawTextureOpts::new()) {
        Ok(blit) => {
            assert_eq!(blit.texture, "wide");
            assert_eq!(blit.target, Rect { x: 10, y: -20, width: 64, height: 16 });
            assert_eq!(blit.color_mod, None);
        },
        Err(error) => panic!("{}", error.message()),
    }
}

#[test]
fn draw_texture_takes_size_and_colour_from_the_options() {
    let (ctx, _, tall) = context();
    let opts = DrawTextureOpts::new().size((100, 88)).color_mod((255, 127, 0));
    assert_eq!(opts, DrawTextureOpts { size: Some((100, 88)), color_mod: Some((255, 127, 0)) });
    match ctx.draw_texture(tall, 1, 2, opts) {
        Ok(blit) => {
            assert_eq!(blit.texture, "tall");
            assert_eq!(blit.target, Rect { x: 1, y: 2, width: 100, height: 88 });
            assert_eq!(blit.color_mod, Some((255, 127, 0)));
        },
        Err(error) => panic!("{}", error.message()),
    }
}

#[test]
fn draw_texture_with_unknown_handle_is_an_error() {
    let (ctx, _, _) = context();
    match ctx.draw_texture(Texture(2), 0, 0, DrawTextureOpts::new()) {
        Ok(_) => panic!("no texture has the identifier 2"),
        Err(error) => {
            assert_eq!(error, Error::InvalidResourceHandle);
            assert_eq!(error.message(), "invalid sprite id");
        },
    }
}

#[test]
fn draw_rect_is_opaque() {
    let (ctx, _, _) = context();
    assert_eq!(
        ctx.draw_rect((0, 125, 255), 3, 4, 50, 2),
        Fill {
            color: Color { r: 0, g: 125, b: 255, a: 255 },
            target: Rect { x: 3, y: 4, width: 50, height: 2 },
        }
    );
    assert_eq!(Color::opaque((1, 2, 3)), Color { r: 1, g: 2, b: 3, a: 255 });
}

#[test]
fn rendered_text_is_cached_with_its_size() {
    let (mut ctx, _, _) = context();
    let text = ctx.render_text(Ok(Loaded { texture: String::from("hello"), width: 120, height: 24 }));
    assert_eq!(text, Ok(Text { texture: Texture(2), size: (120, 24) }));
    assert_eq!(ctx.texture_size(Texture(2)), Ok((120, 24)));
    let failed = ctx.render_text(Err(String::from("empty text")));
    assert_eq!(failed, Err(Error::ResourceLoad(String::from("empty text"))));
}

#[test]
fn fonts_are_cached_by_identifier() {
    let (mut ctx, _, _) = context();
    let small = ctx.load_font(Ok(24));
    let large = ctx.load_font(Ok(48));
    assert_eq!(small, Ok(Font(2)));
    assert_eq!(large, Ok(Font(3)));
    assert_eq!(ctx.font(Font(2)), Ok(&24));
    assert_eq!(ctx.font(Font(3)), Ok(&48));
    assert_eq!(ctx.font(Font(0)), Err(Error::InvalidResourceHandle));
    assert_eq!(
        ctx.load_font(Err(String::from("no font"))),
        Err(Error::ResourceLoad(String::from("no font")))
    );
    assert_eq!(ctx.texture_size(Texture(2)), Err(Error::InvalidResourceHandle));
}

#[test]
fn cache_is_append_only_and_finds_by_identifier() {
    let mut cache: ResourceCache<char> = ResourceCache::new();
    assert_eq!(cache.len(), 0);
    assert_eq!(cache.get(0), Err(Error::InvalidResourceHandle));
    cache.insert(2, 'a');
    cache.insert(5, 'b');
    assert_eq!(cache.len(), 2);
    assert_eq!(cache.get(2), Ok(&'a'));
    assert_eq!(cache.get(5), Ok(&'b'));
    assert_eq!(cache.get(3), Err(Error::InvalidResourceHandle));
}

#[test]
fn error_messages() {
    assert_eq!(Error::MissingEntityOrComponent.message(), "missing entity or component");
    assert_eq!(Error::InvalidResourceHandle.message(), "invalid sprite id");
    assert_eq!(Error::ResourceLoad(String::from("bad file")).message(), "bad file");
}

#[test]
fn shared_pointer_shares_one_value() {
    let shared = SharedPtr::new(5);
    let other = shared.clone();
    match shared.lock() {
        Some(mut guard) => *guard += 1,
        None => panic!("nobody holds the lock"),
    }
    let seen = match other.lock() {
        Some(guard) => *guard,
        None => panic!("nobody holds the lock"),
    };
    assert_eq!(seen, 6);
}

#[test]
fn shared_pointer_has_one_guard_at_a_time() {
    let shared = SharedPtr::new(String::from("dom"));
    let other = shared.clone();
    let guard = shared.lock();
    assert!(guard.is_some());
    assert!(other.lock().is_none());
    drop(guard);
    assert!(other.lock().is_some());
}
