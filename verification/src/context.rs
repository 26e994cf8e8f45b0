//! Contexts that extensions keep for their module and their requests.

use vstd::prelude::*;

verus! {

/// An extension's context for a module, which users implement.
pub trait ModuleContext: Sized {
    /// Makes the context.
    fn new() -> Self;

    /// Tells whether the module has ini entries; none by default.
    fn has_ini_entries(&self) -> bool {
        false
    }
}

/// An extension's context for a request, which users implement.
pub trait RequestContext {}

} // verus!
