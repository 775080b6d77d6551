//! The state container: the host's payload together with the engine's own
//! bookkeeping.

use vstd::prelude::*;

verus! {

/// Bookkeeping that belongs to the engine. It records nothing yet.
#[derive(Clone, Copy, Debug)]
pub struct Meta {}

/// A snapshot of the world: the payload `base` of the host and the engine's
/// `meta`. A state is a value; a transform builds a new one.
pub struct State<T> {
    pub meta: Meta,
    pub base: T,
}

impl<T> State<T> {
    /// Wraps a payload into a state.
    pub fn new(base: T) -> (state: Self)
        ensures
            state.base == base,
            state.meta == (Meta {  }),
    {
        State { meta: Meta {  }, base }
    }
}

impl<T: Clone> State<T> {
    /// Whether `copy` is a state that cloning `self` may give: the payload of
    /// `copy` is one that `T::clone` may return for the payload of `self`.
    pub open spec fn clones_to(&self, copy: Self) -> bool {
        cloned(self.base, copy.base) && copy.meta == self.meta
    }
}

impl<T: Clone> Clone for State<T> {
    fn clone(&self) -> (copy: Self)
        ensures
            self.clones_to(copy),
    {
        State { meta: self.meta, base: self.base.clone() }
    }
}

} // verus!
