use vstd::prelude::*;
use crate::component::Component;
use crate::component::TypeKey;
use crate::draw::Blit;
use crate::draw::Color;
use crate::draw::DrawTextureOpts;
use crate::draw::Fill;
use crate::draw::Rect;
use crate::entity::EntityView;
use crate::error::Error;
use crate::frame::Frame;
use crate::frame::FrameView;
use crate::id::IdAllocator;
use crate::input::InputSnapshot;
use crate::input::InputView;
use crate::input::Keycode;
use crate::input::MouseButton;
use crate::resource::entries_below;
use crate::resource::entries_increase;
use crate::resource::entry_of;
use crate::resource::is_cached;
use crate::resource::Cached;
use crate::resource::Font;
use crate::resource::Loaded;
use crate::resource::ResourceCache;
use crate::resource::Texture;
use crate::store::below;
use crate::store::contains_id;
use crate::store::has_component;
use crate::store::ids_with;
use crate::store::increasing;
use crate::store::lemma_with_payload;
use crate::store::lemma_without;
use crate::store::payload;
use crate::store::with_payload;
use crate::store::without;
use crate::store::EntityStore;
use crate::system::all_below;
use crate::system::ascending;
use crate::system::not_system;
use crate::system::SystemRegistry;

verus! {

/// A rendered text: the handle to its texture and the size of that texture
/// in pixels.
#[derive(Clone, Copy, PartialEq, Eq, Debug)]
pub struct Text {
    pub texture: Texture,
    pub size: (u32, u32),
}

/// What the systems work on: the entities, the registered systems, the
/// cached textures and fonts, the input of the current frame, and the
/// allocator that numbers all of them.
pub struct Context<P, T, F> {
    ids: IdAllocator,
    entities: EntityStore<P>,
    systems: SystemRegistry,
    textures: ResourceCache<Loaded<T>>,
    fonts: ResourceCache<F>,
    input: InputSnapshot,
}

/// What a context holds.
pub ghost struct ContextView<P, T, F> {
    /// The identifier that is allocated next.
    pub next_id: u64,
    /// The entities, first spawned first.
    pub entities: Seq<EntityView<P>>,
    /// The registered systems, first registered first.
    pub systems: Seq<u64>,
    /// The cached textures, first cached first.
    pub textures: Seq<Cached<Loaded<T>>>,
    /// The cached fonts, first cached first.
    pub fonts: Seq<Cached<F>>,
    /// The input of the current frame.
    pub input: InputView,
}

impl<P, T, F> ContextView<P, T, F> {
    /// Every identifier in use was allocated, and within the entities, the
    /// systems, the textures and the fonts the identifiers grow, so that
    /// none occurs twice.
    pub open spec fn ordered(self) -> bool {
        &&& increasing(self.entities)
        &&& below(self.entities, self.next_id)
        &&& ascending(self.systems)
        &&& all_below(self.systems, self.next_id)
        &&& entries_increase(self.textures)
        &&& entries_below(self.textures, self.next_id)
        &&& entries_increase(self.fonts)
        &&& entries_below(self.fonts, self.next_id)
    }

    /// No identifier names two things of different sorts: an entity and a
    /// system, say, or a texture and a font.
    pub open spec fn distinct(self) -> bool {
        &&& forall|j: int|
            0 <= j < self.systems.len() ==> !contains_id(self.entities, #[trigger] self.systems[j])
        &&& forall|j: int|
            0 <= j < self.textures.len() ==> !contains_id(
                self.entities,
                (#[trigger] self.textures[j]).id,
            ) && !self.systems.contains(self.textures[j].id)
        &&& forall|j: int|
            0 <= j < self.fonts.len() ==> !contains_id(self.entities, (#[trigger] self.fonts[j]).id)
                && !self.systems.contains(self.fonts[j].id) && !is_cached(
                self.textures,
                self.fonts[j].id,
            )
    }

    /// The invariant of a context: an identifier in use was allocated, and
    /// it names one thing only.
    pub open spec fn valid(self) -> bool {
        self.ordered() && self.distinct()
    }

    /// The context after an entity with the given components was spawned:
    /// the entity stands last, under the identifier that was next.
    pub open spec fn spawned(self, components: Seq<Component<P>>) -> Self {
        ContextView {
            next_id: (self.next_id + 1) as u64,
            entities: self.entities.push(EntityView { id: self.next_id, components }),
            ..self
        }
    }

    /// The context after the entity `id` was despawned.
    pub open spec fn despawned(self, id: u64) -> Self {
        ContextView { entities: without(self.entities, id), ..self }
    }
}

/// Where a texture is drawn: at `(x, y)`, in the size that the options give
/// or else in its own.
pub open spec fn target_of(width: u32, height: u32, x: i32, y: i32, opts: DrawTextureOpts) -> Rect {
    match opts.size {
        Some(size) => Rect { x, y, width: size.0, height: size.1 },
        None => Rect { x, y, width, height },
    }
}

impl<P, T, F> Context<P, T, F> {
    pub closed spec fn view(&self) -> ContextView<P, T, F> {
        ContextView {
            next_id: self.ids@,
            entities: self.entities@,
            systems: self.systems@,
            textures: self.textures@,
            fonts: self.fonts@,
            input: self.input@,
        }
    }

    /// The invariant of a context; see `ContextView::valid`.
    pub open spec fn wf(&self) -> bool {
        self@.valid()
    }

    /// A context without entities, systems or cached resources, with no key
    /// or button down. It allocates identifiers from 0 on.
    pub fn new() -> (context: Self)
        ensures
            context.wf(),
            context@.next_id == 0,
            context@.entities == Seq::<EntityView<P>>::empty(),
            context@.systems == Seq::<u64>::empty(),
            context@.textures == Seq::<Cached<Loaded<T>>>::empty(),
            context@.fonts == Seq::<Cached<F>>::empty(),
            context@.input == (InputView {
                keys: Set::<Keycode>::empty(),
                previous_keys: Set::<Keycode>::empty(),
                buttons: Set::<MouseButton>::empty(),
                mouse: (0, 0),
            }),
    {
        Context {
            ids: IdAllocator::new(),
            entities: EntityStore::new(),
            systems: SystemRegistry::new(),
            textures: ResourceCache::new(),
            fonts: ResourceCache::new(),
            input: InputSnapshot::new(),
        }
    }

    /// Whether an identifier is left to allocate. Spawning, registering a
    /// system and caching a resource each take one.
    pub fn can_allocate(&self) -> (free: bool)
        ensures
            free == (self@.next_id < u64::MAX),
    {
        !self.ids.is_exhausted()
    }

    /// The identifiers of the entities that hold a component of type `key`,
    /// in the order in which the entities were spawned.
    pub fn entities_with_component(&self, key: TypeKey) -> (found: Vec<u64>)
        ensures
            found@ == ids_with(self@.entities, key),
    {
        self.entities.entities_with(key)
    }

    /// The state of the component of type `key` of the entity `id`, for
    /// writing. Nothing but that state can change through the result.
    pub fn entity_component(&mut self, id: u64, key: TypeKey) -> (state: Result<&mut P, Error>)
        requires
            old(self).wf(),
        ensures
            state is Ok <==> has_component(old(self)@.entities, id, key),
            match state {
                Ok(found) => {
                    &&& *found == payload(old(self)@.entities, id, key)
                    &&& final(self)@ == (ContextView {
                        entities: with_payload(old(self)@.entities, id, key, *final(found)),
                        ..old(self)@
                    })
                },
                Err(error) => error == Error::MissingEntityOrComponent && final(self)@ == old(
                    self,
                )@,
            },
            final(self).wf(),
    {
        match self.entities.component_mut(id, key) {
            Ok(found) => {
                proof {
                    lemma_with_payload(old(self)@.entities, id, key, *final(found));
                }
                Ok(found)
            },
            Err(error) => Err(error),
        }
    }

    /// The state of the component of type `key` of the entity `id`.
    pub fn select(&self, id: u64, key: TypeKey) -> (state: Result<&P, Error>)
        ensures
            state is Ok <==> has_component(self@.entities, id, key),
            match state {
                Ok(found) => *found == payload(self@.entities, id, key),
                Err(error) => error == Error::MissingEntityOrComponent,
            },
    {
        self.entities.component(id, key)
    }

    /// The state of the one component of type `key` in the world. It is an
    /// error if no entity holds one, or more than one does.
    pub fn select_one(&self, key: TypeKey) -> (state: Result<&P, Error>)
        requires
            self.wf(),
        ensures
            state is Ok <==> ids_with(self@.entities, key).len() == 1,
            match state {
                Ok(found) => *found == payload(
                    self@.entities,
                    ids_with(self@.entities, key)[0],
                    key,
                ),
                Err(error) => error == Error::MissingEntityOrComponent,
            },
    {
        self.entities.select_one(key)
    }

    /// A copy of the state of the one component of type `key` in the world.
    /// It is an error if no entity holds one, or more than one does.
    pub fn clone_one(&self, key: TypeKey) -> (state: Result<P, Error>) where P: Clone
        requires
            self.wf(),
        ensures
            state is Ok <==> ids_with(self@.entities, key).len() == 1,
            match state {
                Ok(copy) => cloned(
                    payload(self@.entities, ids_with(self@.entities, key)[0], key),
                    copy,
                ),
                Err(error) => error == Error::MissingEntityOrComponent,
            },
    {
        match self.entities.select_one(key) {
            Ok(found) => Ok(found.clone()),
            Err(error) => Err(error),
        }
    }

    /// Creates an entity with the given components and returns its
    /// identifier, which no entity, system or resource had before.
    pub fn spawn(&mut self, components: Vec<Component<P>>) -> (id: u64)
        requires
            old(self).wf(),
            old(self)@.next_id < u64::MAX,
        ensures
            id == old(self)@.next_id,
            !contains_id(old(self)@.entities, id),
            final(self)@ == old(self)@.spawned(components@),
            final(self).wf(),
    {
        let id: u64 = self.ids.allocate();
        self.entities.insert(id, components);
        id
    }

    /// Destroys the entity `id` with all its components. Nothing happens if
    /// there is no such entity.
    pub fn despawn(&mut self, id: u64)
        requires
            old(self).wf(),
        ensures
            final(self)@ == old(self)@.despawned(id),
            !contains_id(old(self)@.entities, id) ==> final(self)@ == old(self)@,
            !contains_id(final(self)@.entities, id),
            final(self).wf(),
    {
        proof {
            lemma_without(self@.entities, id);
        }
        self.entities.despawn(id);
    }

    /// Registers a system behind those that are registered already, and
    /// returns the identifier allocated for it. The caller runs the system's
    /// initialize hook next; whatever the hook returns, the system stays
    /// registered.
    pub fn add_system(&mut self) -> (id: u64)
        requires
            old(self).wf(),
            old(self)@.next_id < u64::MAX,
        ensures
            id == old(self)@.next_id,
            final(self)@ == (ContextView {
                next_id: (id + 1) as u64,
                systems: old(self)@.systems.push(id),
                ..old(self)@
            }),
            final(self).wf(),
    {
        let id: u64 = self.ids.allocate();
        self.systems.register(id);
        id
    }

    /// Takes the system `id` out of the registry. The result says whether it
    /// was registered: the caller then runs the system's finalize hook, once.
    pub fn remove_system(&mut self, id: u64) -> (removed: bool)
        requires
            old(self).wf(),
        ensures
            removed == old(self)@.systems.contains(id),
            final(self)@ == (ContextView {
                systems: old(self)@.systems.filter(not_system(id)),
                ..old(self)@
            }),
            !final(self)@.systems.contains(id),
            final(self).wf(),
    {
        let removed = self.systems.remove(id);
        proof {
            assert forall|j: int| 0 <= j < self@.systems.len() implies !contains_id(
                self@.entities,
                #[trigger] self@.systems[j],
            ) by {
                assert(self@.systems.contains(self@.systems[j]));
                let k = choose|k: int|
                    0 <= k < old(self)@.systems.len() && old(self)@.systems[k] == self@.systems[j];
                assert(!contains_id(old(self)@.entities, old(self)@.systems[k]));
            }
        }
        removed
    }

    /// Caches a texture that the rendering side has loaded and returns the
    /// handle to it. Where loading failed, the failure is handed on and
    /// nothing is cached or allocated.
    pub fn load_texture(&mut self, loaded: Result<Loaded<T>, String>) -> (texture: Result<
        Texture,
        Error,
    >)
        requires
            old(self).wf(),
            loaded is Ok ==> old(self)@.next_id < u64::MAX,
        ensures
            match loaded {
                Ok(fresh) => {
                    &&& texture == Ok::<Texture, Error>(Texture(old(self)@.next_id))
                    &&& final(self)@ == (ContextView {
                        next_id: (old(self)@.next_id + 1) as u64,
                        textures: old(self)@.textures.push(
                            Cached { id: old(self)@.next_id, resource: fresh },
                        ),
                        ..old(self)@
                    })
                },
                Err(reason) => {
                    &&& texture == Err::<Texture, Error>(Error::ResourceLoad(reason))
                    &&& final(self)@ == old(self)@
                },
            },
            final(self).wf(),
    {
        match loaded {
            Ok(fresh) => {
                let id: u64 = self.ids.allocate();
                self.textures.insert(id, fresh);
                Ok(Texture(id))
            },
            Err(reason) => Err(Error::ResourceLoad(reason)),
        }
    }

    /// Caches a font that the rendering side has loaded and returns the
    /// handle to it. Where loading failed, the failure is handed on and
    /// nothing is cached or allocated.
    pub fn load_font(&mut self, loaded: Result<F, String>) -> (font: Result<Font, Error>)
        requires
            old(self).wf(),
            loaded is Ok ==> old(self)@.next_id < u64::MAX,
        ensures
            match loaded {
                Ok(fresh) => {
                    &&& font == Ok::<Font, Error>(Font(old(self)@.next_id))
                    &&& final(self)@ == (ContextView {
                        next_id: (old(self)@.next_id + 1) as u64,
                        fonts: old(self)@.fonts.push(
                            Cached { id: old(self)@.next_id, resource: fresh },
                        ),
                        ..old(self)@
                    })
                },
                Err(reason) => {
                    &&& font == Err::<Font, Error>(Error::ResourceLoad(reason))
                    &&& final(self)@ == old(self)@
                },
            },
            final(self).wf(),
    {
        match loaded {
            Ok(fresh) => {
                let id: u64 = self.ids.allocate();
                self.fonts.insert(id, fresh);
                Ok(Font(id))
            },
            Err(reason) => Err(Error::ResourceLoad(reason)),
        }
    }

    /// The cached font that the handle refers to.
    pub fn font(&self, font: Font) -> (cached: Result<&F, Error>)
        ensures
            cached is Ok <==> is_cached(self@.fonts, font.0),
            match cached {
                Ok(found) => *found == self@.fonts[entry_of(self@.fonts, font.0)].resource,
                Err(error) => error == Error::InvalidResourceHandle,
            },
    {
        self.fonts.get(font.0)
    }

    /// Caches the texture of a text that the rendering side has rendered,
    /// and returns the handle to it with its size. Where rendering failed,
    /// the failure is handed on and nothing is cached or allocated.
    pub fn render_text(&mut self, rendered: Result<Loaded<T>, String>) -> (text: Result<
        Text,
        Error,
    >)
        requires
            old(self).wf(),
            rendered is Ok ==> old(self)@.next_id < u64::MAX,
        ensures
            match rendered {
                Ok(fresh) => {
                    &&& text == Ok::<Text, Error>(
                        Text {
                            texture: Texture(old(self)@.next_id),
                            size: (fresh.width, fresh.height),
                        },
                    )
                    &&& final(self)@ == (ContextView {
                        next_id: (old(self)@.next_id + 1) as u64,
                        textures: old(self)@.textures.push(
                            Cached { id: old(self)@.next_id, resource: fresh },
                        ),
                        ..old(self)@
                    })
                },
                Err(reason) => {
                    &&& text == Err::<Text, Error>(Error::ResourceLoad(reason))
                    &&& final(self)@ == old(self)@
                },
            },
            final(self).wf(),
    {
        match rendered {
            Ok(fresh) => {
                let size = (fresh.width, fresh.height);
                let id: u64 = self.ids.allocate();
                self.textures.insert(id, fresh);
                Ok(Text { texture: Texture(id), size })
            },
            Err(reason) => Err(Error::ResourceLoad(reason)),
        }
    }

    /// The size in pixels of the cached texture that the handle refers to.
    pub fn texture_size(&self, texture: Texture) -> (size: Result<(u32, u32), Error>)
        ensures
            size is Ok <==> is_cached(self@.textures, texture.0),
            match size {
                Ok(found) => {
                    let cached = self@.textures[entry_of(self@.textures, texture.0)].resource;
                    found == (cached.width, cached.height)
                },
                Err(error) => error == Error::InvalidResourceHandle,
            },
    {
        match self.textures.get(texture.0) {
            Ok(cached) => Ok((cached.width, cached.height)),
            Err(error) => Err(error),
        }
    }

    /// What to copy onto the canvas to draw the texture with its upper left
    /// corner at `(x, y)`.
    pub fn draw_texture(&self, texture: Texture, x: i32, y: i32, opts: DrawTextureOpts) -> (blit:
        Result<Blit<'_, T>, Error>)
        ensures
            blit is Ok <==> is_cached(self@.textures, texture.0),
            match blit {
                Ok(request) => {
                    let cached = self@.textures[entry_of(self@.textures, texture.0)].resource;
                    &&& *request.texture == cached.texture
                    &&& request.target == target_of(cached.width, cached.height, x, y, opts)
                    &&& request.color_mod == opts.color_mod
                },
                Err(error) => error == Error::InvalidResourceHandle,
            },
    {
        match self.textures.get(texture.0) {
            Ok(cached) => {
                let target = match opts.size {
                    Some(size) => Rect { x, y, width: size.0, height: size.1 },
                    None => Rect { x, y, width: cached.width, height: cached.height },
                };
                Ok(Blit { texture: &cached.texture, target, color_mod: opts.color_mod })
            },
            Err(error) => Err(error),
        }
    }

    /// What to fill to draw a rectangle of the colour `rgb`, fully opaque,
    /// with its upper left corner at `(x, y)`.
    pub fn draw_rect(&self, rgb: (u8, u8, u8), x: i32, y: i32, w: u32, h: u32) -> (fill: Fill)
        ensures
            fill == (Fill {
                color: Color { r: rgb.0, g: rgb.1, b: rgb.2, a: 255 },
                target: Rect { x, y, width: w, height: h },
            }),
    {
        Fill { color: Color::opaque(rgb), target: Rect { x, y, width: w, height: h } }
    }

    /// Starts a frame: takes the state of the input devices, which stays as
    /// it is until the next frame starts, and returns the frame over the
    /// systems that are registered now.
    pub fn begin_frame(
        &mut self,
        keys: &Vec<Keycode>,
        buttons: &Vec<MouseButton>,
        mouse: (i32, i32),
    ) -> (frame: Frame)
        requires
            old(self).wf(),
        ensures
            final(self)@ == (ContextView {
                input: InputView {
                    keys: keys@.to_set(),
                    previous_keys: old(self)@.input.keys,
                    buttons: buttons@.to_set(),
                    mouse,
                },
                ..old(self)@
            }),
            final(self).wf(),
            frame@ == (FrameView { order: old(self)@.systems, cursor: 0, finished: false }),
            frame.wf(),
    {
        self.input.advance(keys, buttons, mouse);
        Frame::begin(&self.systems)
    }

    /// Whether the key is down in this frame.
    pub fn key_pressed(&self, keycode: Keycode) -> (down: bool)
        ensures
            down == self@.input.keys.contains(keycode),
    {
        self.input.key_pressed(keycode)
    }

    /// Whether the key is down in this frame and was not in the frame
    /// before.
    pub fn key_just_pressed(&self, keycode: Keycode) -> (pressed: bool)
        ensures
            pressed == (self@.input.keys.contains(keycode) && !self@.input.previous_keys.contains(
                keycode,
            )),
    {
        self.input.key_just_pressed(keycode)
    }

    /// Whether the button is down in this frame.
    pub fn mouse_button_pressed(&self, button: MouseButton) -> (down: bool)
        ensures
            down == self@.input.buttons.contains(button),
    {
        self.input.mouse_button_pressed(button)
    }

    /// Where the pointer is in this frame.
    pub fn mouse_position(&self) -> (at: (i32, i32))
        ensures
            at == self@.input.mouse,
    {
        self.input.mouse_position()
    }
}

} // verus!
