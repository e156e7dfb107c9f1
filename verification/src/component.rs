use vstd::prelude::*;

verus! {

/// The run-time identity of a component type. Two components are of the same
/// type exactly when their keys are equal.
#[derive(Clone, Copy, PartialEq, Eq, Structural, Debug, Hash)]
pub struct TypeKey(pub u64);

/// A component as the store holds it: the key of its type and its state. The
/// runtime reads the key only; what `P` is, the calling code decides.
#[derive(Clone, Debug)]
pub struct Component<P> {
    pub key: TypeKey,
    pub payload: P,
}

impl<P> Component<P> {
    /// A component of type `key` with the state `payload`.
    pub fn new(key: TypeKey, payload: P) -> (component: Self)
        ensures
            component.key == key,
            component.payload == payload,
    {
        Component { key, payload }
    }

    /// The key of the component's type.
    pub fn type_key(&self) -> (key: TypeKey)
        ensures
            key == self.key,
    {
        self.key
    }

    /// The state, if the component is of type `key`.
    pub fn downcast_ref(&self, key: TypeKey) -> (state: Option<&P>)
        ensures
            state == (if self.key == key {
                Some(&self.payload)
            } else {
                None
            }),
    {
        if self.key == key {
            Some(&self.payload)
        } else {
            None
        }
    }

    /// The state for writing, if the component is of type `key`. The key
    /// itself cannot be changed through the result.
    pub fn downcast_mut(&mut self, key: TypeKey) -> (state: Option<&mut P>)
        ensures
            state is Some <==> old(self).key == key,
            final(self).key == old(self).key,
            match state {
                Some(payload) => *payload == old(self).payload && final(self).payload == *final(payload),
                None => final(self).payload == old(self).payload,
            },
    {
        if self.key == key {
            Some(&mut self.payload)
        } else {
            None
        }
    }
}

} // verus!
