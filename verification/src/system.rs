use vstd::prelude::*;

verus! {

/// Selects the identifiers other than `id`.
pub open spec fn not_system(id: u64) -> spec_fn(u64) -> bool {
    |system: u64| system != id
}

/// Whether the identifiers grow strictly along the sequence.
pub open spec fn ascending(ids: Seq<u64>) -> bool {
    forall|i: int, j: int| 0 <= i < j < ids.len() ==> ids[i] < ids[j]
}

/// Whether every identifier is smaller than `limit`.
pub open spec fn all_below(ids: Seq<u64>, limit: u64) -> bool {
    forall|i: int| 0 <= i < ids.len() ==> ids[i] < limit
}

/// The registered systems, by identifier, in the order of registration. That
/// order is the order in which a frame updates them.
pub struct SystemRegistry {
    systems: Vec<u64>,
}

impl SystemRegistry {
    /// The identifiers of the registered systems, first registered first.
    pub closed spec fn view(&self) -> Seq<u64> {
        self.systems@
    }

    /// A registry without systems.
    pub fn new() -> (registry: Self)
        ensures
            registry@ == Seq::<u64>::empty(),
    {
        SystemRegistry { systems: Vec::new() }
    }

    /// The number of registered systems.
    pub fn len(&self) -> (n: usize)
        ensures
            n == self@.len(),
    {
        self.systems.len()
    }

    /// Whether the system `id` is registered.
    pub fn contains(&self, id: u64) -> (found: bool)
        ensures
            found == self@.contains(id),
    {
        let mut i: usize = 0;
        while i < self.systems.len()
            invariant
                i <= self@.len(),
                forall|k: int| 0 <= k < i ==> self@[k] != id,
            decreases self@.len() - i,
        {
            if self.systems[i] == id {
                return true;
            }
            i += 1;
        }
        false
    }

    /// Registers the system `id` behind those that are registered already.
    /// The caller runs the system's initialize hook next, and whatever the
    /// hook returns, the system stays registered.
    pub fn register(&mut self, id: u64)
        ensures
            final(self)@ == old(self)@.push(id),
    {
        self.systems.push(id);
    }

    /// Takes the system `id` out of the registry. The result says whether it
    /// was registered: the caller then runs the system's finalize hook, once.
    /// The order of the other systems stays.
    pub fn remove(&mut self, id: u64) -> (removed: bool)
        ensures
            removed == old(self)@.contains(id),
            final(self)@ == old(self)@.filter(not_system(id)),
            !final(self)@.contains(id),
            forall|other: u64| final(self)@.contains(other) ==> old(self)@.contains(other),
            ascending(old(self)@) ==> ascending(final(self)@),
            forall|limit: u64| all_below(old(self)@, limit) ==> all_below(final(self)@, limit),
    {
        let mut removed = false;
        let mut i: usize = 0;
        let ghost mut seen: int = 0;
        proof {
            old(self)@.take(0).lemma_filter_len(not_system(id));
        }
        while i < self.systems.len()
            invariant
                0 <= i <= self@.len(),
                0 <= seen <= old(self)@.len(),
                self@.len() - i == old(self)@.len() - seen,
                self@.take(i as int) == old(self)@.take(seen).filter(not_system(id)),
                self@.skip(i as int) == old(self)@.skip(seen),
                removed == old(self)@.take(seen).contains(id),
                forall|k: int| 0 <= k < i ==> self@[k] != id,
                forall|k: int| 0 <= k < self@.len() ==> old(self)@.contains(#[trigger] self@[k]),
                ascending(old(self)@) ==> ascending(self@),
                forall|limit: u64| all_below(old(self)@, limit) ==> all_below(self@, limit),
            decreases self@.len() - i,
        {
            proof {
                assert(self@[i as int] == self@.skip(i as int)[0]);
                assert(old(self)@[seen] == old(self)@.skip(seen)[0]);
                old(self)@.lemma_take_succ_push(seen);
                old(self)@.take(seen).lemma_filter_push(old(self)@[seen], not_system(id));
                assert(old(self)@.skip(seen + 1) =~= old(self)@.skip(seen).skip(1));
                assert(old(self)@.take(seen + 1).contains(id) <==> old(self)@.take(seen).contains(id)
                    || old(self)@[seen] == id) by {
                    let longer = old(self)@.take(seen + 1);
                    let shorter = old(self)@.take(seen);
                    if shorter.contains(id) {
                        let k = choose|k: int| 0 <= k < shorter.len() && shorter[k] == id;
                        assert(longer[k] == id);
                    }
                    if old(self)@[seen] == id {
                        assert(longer[seen] == id);
                    }
                    if longer.contains(id) {
                        let k = choose|k: int| 0 <= k < longer.len() && longer[k] == id;
                        if k < seen {
                            assert(shorter[k] == id);
                        }
                    }
                }
            }
            if self.systems[i] == id {
                let ghost before = self@;
                self.systems.remove(i);
                removed = true;
                proof {
                    assert(self@ =~= before.remove(i as int));
                    assert(self@.take(i as int) =~= before.take(i as int));
                    assert(self@.skip(i as int) =~= before.skip(i as int).skip(1));
                    assert forall|k: int| 0 <= k < self@.len() implies old(self)@.contains(
                        #[trigger] self@[k],
                    ) by {
                        if k < i {
                            assert(self@[k] == before[k]);
                        } else {
                            assert(self@[k] == before[k + 1]);
                        }
                    }
                    assert forall|limit: u64| all_below(old(self)@, limit) implies all_below(
                        self@,
                        limit,
                    ) by {
                        assert(all_below(before, limit));
                    }
                }
            } else {
                proof {
                    self@.lemma_take_succ_push(i as int);
                    assert(self@.skip(i as int + 1) =~= self@.skip(i as int).skip(1));
                }
                i += 1;
            }
            proof {
                seen = seen + 1;
            }
        }
        proof {
            assert(self@.take(i as int) =~= self@);
            assert(old(self)@.take(seen) =~= old(self)@);
        }
        removed
    }

    /// The identifiers of the registered systems, first registered first.
    pub fn order(&self) -> (order: Vec<u64>)
        ensures
            order@ == self@,
    {
        self.systems.clone()
    }
}

} // verus!
