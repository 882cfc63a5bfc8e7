//! The store: its rows and the rules its operations keep.

use vstd::prelude::*;

pub mod models;
pub mod query;
pub mod repository;
pub mod store;

verus! {

/// The storage component, as the health report names it.
#[derive(Debug, Clone, Copy, Default)]
pub struct StorageService;

impl StorageService {
    /// The name of the component.
    pub fn name(&self) -> (r: &'static str)
        ensures
            r@ == "storage"@,
    {
        "storage"
    }

    /// The state of the component.
    pub fn status(&self) -> (r: &'static str)
        ensures
            r@ == "ready"@,
    {
        "ready"
    }
}

} // verus!
