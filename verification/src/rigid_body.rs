use vstd::prelude::*;
use crate::component::TypeKey;
use crate::context::Context;
use crate::query::ComponentQuery;
use crate::query::QueryRunner;
use crate::query::lemma_matching_one;
use crate::store::ids_with;

verus! {

/// The number of the type key under which rigid bodies are stored. Other
/// component types take other numbers.
pub const RIGID_BODY: u64 = 0;

/// The type key of rigid bodies.
pub fn rigid_body_key() -> (key: TypeKey)
    ensures
        key == TypeKey(RIGID_BODY),
{
    TypeKey(RIGID_BODY)
}

/// The identifiers of the entities that carry a rigid body, in the order in
/// which they were spawned: the bodies that a physics system visits in one
/// update.
pub fn rigid_bodies<P, T, F>(context: &Context<P, T, F>) -> (bodies: Vec<u64>)
    requires
        context.wf(),
    ensures
        bodies@ == ids_with(context@.entities, TypeKey(RIGID_BODY)),
{
    proof {
        lemma_matching_one(context@.entities, TypeKey(RIGID_BODY));
    }
    ComponentQuery::new(rigid_body_key()).run(context)
}

/// Moves each body by its velocity, once per frame. The number is the
/// identifier under which the system is registered.
pub struct VelocitySystem(pub u64);

impl VelocitySystem {
    /// The bodies to move in this update, in the order to move them in.
    pub fn targets<P, T, F>(&self, context: &Context<P, T, F>) -> (bodies: Vec<u64>)
        requires
            context.wf(),
        ensures
            bodies@ == ids_with(context@.entities, TypeKey(RIGID_BODY)),
    {
        rigid_bodies(context)
    }
}

/// Pulls each body that has opted in downwards, once per frame. The number
/// is the identifier under which the system is registered.
pub struct GravitySystem(pub u64);

impl GravitySystem {
    /// The bodies to look at in this update, in the order to do so; which of
    /// them have opted in, their own state says.
    pub fn targets<P, T, F>(&self, context: &Context<P, T, F>) -> (bodies: Vec<u64>)
        requires
            context.wf(),
        ensures
            bodies@ == ids_with(context@.entities, TypeKey(RIGID_BODY)),
    {
        rigid_bodies(context)
    }
}

/// Slows each body that has opted in down sideways, once per frame. The
/// number is the identifier under which the system is registered.
pub struct DragSystem(pub u64);

impl DragSystem {
    /// The bodies to look at in this update, in the order to do so; which of
    /// them have opted in, their own state says.
    pub fn targets<P, T, F>(&self, context: &Context<P, T, F>) -> (bodies: Vec<u64>)
        requires
            context.wf(),
        ensures
            bodies@ == ids_with(context@.entities, TypeKey(RIGID_BODY)),
    {
        rigid_bodies(context)
    }
}

} // verus!
