//! The subscription component.

use vstd::prelude::*;

verus! {

/// The subscription component, as the health report names it.
#[derive(Debug, Clone, Copy, Default)]
pub struct SubscriptionService;

impl SubscriptionService {
    /// The name of the component.
    pub fn name(&self) -> (r: &'static str)
        ensures
            r@ == "subscription"@,
    {
        "subscription"
    }

    /// The state of the component.
    pub fn status(&self) -> (r: &'static str)
        ensures
            r@ == "ready"@,
    {
        "ready"
    }
}

} // verus!
