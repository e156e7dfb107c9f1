use vstd::prelude::*;
use crate::error::Error;

verus! {

/// A handle to a cached texture: the identifier under which the cache holds
/// it. Small, and free to copy and to keep.
#[derive(Clone, Copy, PartialEq, Eq, Structural, Debug, Hash)]
pub struct Texture(pub u64);

/// A handle to a cached font: the identifier under which the cache holds it.
#[derive(Clone, Copy, PartialEq, Eq, Structural, Debug, Hash)]
pub struct Font(pub u64);

/// A texture as the rendering side hands it over after loading or drawing
/// it: the texture itself and its size in pixels.
pub struct Loaded<T> {
    pub texture: T,
    pub width: u32,
    pub height: u32,
}

/// A cached resource with the identifier that was allocated for it.
pub struct Cached<R> {
    pub id: u64,
    pub resource: R,
}

/// Whether a resource with the identifier `id` is among the entries.
pub open spec fn is_cached<R>(entries: Seq<Cached<R>>, id: u64) -> bool {
    exists|i: int| 0 <= i < entries.len() && (#[trigger] entries[i]).id == id
}

/// Whether `i` is the place of the first entry with the identifier `id`.
pub open spec fn is_entry<R>(entries: Seq<Cached<R>>, id: u64, i: int) -> bool {
    &&& 0 <= i < entries.len()
    &&& entries[i].id == id
    &&& forall|k: int| 0 <= k < i ==> (#[trigger] entries[k]).id != id
}

/// The place of the first entry with the identifier `id`, where there is
/// one.
pub open spec fn entry_of<R>(entries: Seq<Cached<R>>, id: u64) -> int {
    choose|i: int| is_entry(entries, id, i)
}

/// Whether the identifiers grow strictly along the entries.
pub open spec fn entries_increase<R>(entries: Seq<Cached<R>>) -> bool {
    forall|i: int, j: int|
        0 <= i < j < entries.len() ==> (#[trigger] entries[i]).id < (#[trigger] entries[j]).id
}

/// Whether every identifier among the entries is smaller than `limit`.
pub open spec fn entries_below<R>(entries: Seq<Cached<R>>, limit: u64) -> bool {
    forall|i: int| 0 <= i < entries.len() ==> (#[trigger] entries[i]).id < limit
}

/// The first entry with an identifier is at one place only, and `entry_of`
/// names it.
pub proof fn lemma_entry<R>(entries: Seq<Cached<R>>, id: u64, i: int)
    requires
        is_entry(entries, id, i),
    ensures
        is_cached(entries, id),
        entry_of(entries, id) == i,
{
    let chosen = entry_of(entries, id);
    assert(is_entry(entries, id, chosen));
    if chosen < i {
        assert(entries[chosen].id != id);
    } else if i < chosen {
        assert(entries[i].id != id);
    }
}

/// The resources loaded in a session, each under its identifier. Entries
/// are added at the end and never taken out or changed.
pub struct ResourceCache<R> {
    entries: Vec<Cached<R>>,
}

impl<R> ResourceCache<R> {
    /// The entries, first cached first.
    pub closed spec fn view(&self) -> Seq<Cached<R>> {
        self.entries@
    }

    /// The identifiers grow in the order of caching, so that none occurs
    /// twice.
    pub open spec fn wf(&self) -> bool {
        entries_increase(self@)
    }

    /// A cache without entries.
    pub fn new() -> (cache: Self)
        ensures
            cache@ == Seq::<Cached<R>>::empty(),
            cache.wf(),
    {
        ResourceCache { entries: Vec::new() }
    }

    /// The number of cached resources.
    pub fn len(&self) -> (n: usize)
        ensures
            n == self@.len(),
    {
        self.entries.len()
    }

    /// Caches a resource under `id`, which is larger than any identifier in
    /// the cache.
    pub fn insert(&mut self, id: u64, resource: R)
        requires
            old(self).wf(),
            entries_below(old(self)@, id),
        ensures
            final(self)@ == old(self)@.push(Cached { id, resource }),
            final(self).wf(),
    {
        self.entries.push(Cached { id, resource });
    }

    /// The resource that is cached under `id`.
    pub fn get(&self, id: u64) -> (resource: Result<&R, Error>)
        ensures
            resource is Ok <==> is_cached(self@, id),
            match resource {
                Ok(found) => *found == self@[entry_of(self@, id)].resource,
                Err(error) => error == Error::InvalidResourceHandle,
            },
    {
        let mut i: usize = 0;
        while i < self.entries.len()
            invariant
                i <= self@.len(),
                forall|k: int| 0 <= k < i ==> (#[trigger] self@[k]).id != id,
            decreases self@.len() - i,
        {
            if self.entries[i].id == id {
                proof {
                    lemma_entry(self@, id, i as int);
                }
                return Ok(&self.entries[i].resource);
            }
            i += 1;
        }
        Err(Error::InvalidResourceHandle)
    }
}

} // verus!
