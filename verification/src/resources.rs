//! Resources, like `zend_resource`.

use vstd::prelude::*;

verus! {

/// Wrapper of a PHP resource: a handle that PHP code can pass around.
#[derive(Debug, Clone, Copy, PartialEq, Eq, Structural)]
pub struct ZRes {
    handle: i64,
}

impl ZRes {
    /// The handle of the resource.
    pub closed spec fn spec_handle(&self) -> i64 {
        self.handle
    }

    /// Creates a resource with the given handle.
    pub fn new(handle: i64) -> (r: Self)
        ensures
            r.spec_handle() == handle,
    {
        ZRes { handle }
    }

    /// Gets the resource handle.
    pub fn handle(&self) -> (r: i64)
        ensures
            r == self.spec_handle(),
    {
        self.handle
    }
}

} // verus!
