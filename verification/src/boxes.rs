//! Values held by the engine's allocator.

use vstd::prelude::*;

verus! {

/// A value the engine's allocator holds.
#[derive(Debug)]
pub struct EBox<T> {
    inner: Box<T>,
}

impl<T> EBox<T> {
    /// The held value.
    pub closed spec fn spec_value(&self) -> T {
        *self.inner
    }

    /// Holds a value.
    pub fn new(value: T) -> (r: Self)
        ensures
            r.spec_value() == value,
    {
        EBox { inner: Box::new(value) }
    }

    /// Gets the held value.
    pub fn get(&self) -> (r: &T)
        ensures
            *r == self.spec_value(),
    {
        &self.inner
    }

    /// Gives the held value back.
    pub fn into_inner(self) -> (r: T)
        ensures
            r == self.spec_value(),
    {
        *self.inner
    }
}

} // verus!
