//! Feeds: fetching, parsing and the normalised model.

use vstd::prelude::*;

pub mod fetcher;
pub mod parser;
pub mod types;

verus! {

/// The feed component, as the health report names it.
#[derive(Debug, Clone, Copy, Default)]
pub struct FeedService;

impl FeedService {
    /// The name of the component.
    pub fn name(&self) -> (r: &'static str)
        ensures
            r@ == "feed"@,
    {
        "feed"
    }

    /// The state of the component.
    pub fn status(&self) -> (r: &'static str)
        ensures
            r@ == "ready"@,
    {
        "ready"
    }
}

} // verus!
