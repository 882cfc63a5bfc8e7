//! Syncing: the tunables, the steps of one source, the bounded batch and
//! the single-flight guard round a run.

use vstd::prelude::*;

pub mod batch;
pub mod runtime;
pub mod settings;
pub mod source;

verus! {

/// The sync component, as the health report names it.
#[derive(Debug, Clone, Copy, Default)]
pub struct SyncService;

impl SyncService {
    /// The name of the component.
    pub fn name(&self) -> (r: &'static str)
        ensures
            r@ == "sync"@,
    {
        "sync"
    }

    /// The state of the component.
    pub fn status(&self) -> (r: &'static str)
        ensures
            r@ == "ready"@,
    {
        "ready"
    }
}

} // verus!
