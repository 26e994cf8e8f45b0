//! References, like `zend_reference`.

use vstd::prelude::*;
use crate::values::ZVal;

verus! {

/// Wrapper of a PHP reference: a box around a value that several variables
/// share.
#[derive(Debug)]
pub struct ZRef {
    val: ZVal,
}

impl ZRef {
    /// The referenced value.
    pub closed spec fn spec_val(&self) -> ZVal {
        self.val
    }

    /// Creates a reference to `val`.
    pub fn new(val: ZVal) -> (r: Self)
        ensures
            r.spec_val() == val,
    {
        ZRef { val }
    }

    /// A reference to a copy of the referenced value.
    pub fn duplicate(&self) -> (r: ZRef)
        ensures
            crate::values::copy_of(self.spec_val(), r.spec_val()),
        decreases self,
    {
        ZRef { val: self.val.duplicate() }
    }

    /// Gets the referenced value.
    pub fn val(&self) -> (r: &ZVal)
        ensures
            *r == self.spec_val(),
    {
        &self.val
    }

    /// Gets the referenced value mutably.
    pub fn val_mut(&mut self) -> (r: &mut ZVal)
        ensures
            *r == old(self).spec_val(),
            final(self).spec_val() == *final(r),
    {
        &mut self.val
    }
}

} // verus!
