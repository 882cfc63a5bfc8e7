//! The components of the application and their health.

use vstd::prelude::*;
use crate::feed::FeedService;
use crate::importer::ImporterService;
use crate::llm::LlmService;
use crate::storage::StorageService;
use crate::subscription::SubscriptionService;
use crate::sync::SyncService;

verus! {

/// The components of the application.
#[derive(Debug, Clone, Copy)]
pub struct AppServices {
    feed: FeedService,
    importer: ImporterService,
    subscription: SubscriptionService,
    llm: LlmService,
    storage: StorageService,
    sync: SyncService,
}

/// What the health report holds: each component's name with its status, in
/// the order of the names.
pub open spec fn health_entries() -> Seq<(Seq<char>, Seq<char>)> {
    seq![
        ("feed"@, "ready"@),
        ("importer"@, "ready"@),
        ("llm"@, "ready"@),
        ("storage"@, "ready"@),
        ("subscription"@, "ready"@),
        ("sync"@, "ready"@),
    ]
}

fn entry_of(name: &str, status: &str) -> (r: (String, String))
    ensures
        r.0@ == name@,
        r.1@ == status@,
{
    (name.to_owned(), status.to_owned())
}

impl Default for AppServices {
    /// The components, every one of them in place.
    fn default() -> (r: Self)
        ensures
            r == AppServices::assembled(),
    {
        AppServices {
            feed: FeedService,
            importer: ImporterService,
            subscription: SubscriptionService,
            llm: LlmService,
            storage: StorageService,
            sync: SyncService,
        }
    }
}

impl AppServices {
    /// The application with each of its six components.
    pub closed spec fn assembled() -> AppServices {
        AppServices {
            feed: FeedService,
            importer: ImporterService,
            subscription: SubscriptionService,
            llm: LlmService,
            storage: StorageService,
            sync: SyncService,
        }
    }

    /// Name and status of every component, sorted by name.
    pub fn health_report(&self) -> (r: Vec<(String, String)>)
        ensures
            Seq::new(r@.len(), |i: int| (r@[i].0@, r@[i].1@)) == health_entries(),
    {
        let mut report: Vec<(String, String)> = Vec::new();
        report.push(entry_of(self.feed.name(), self.feed.status()));
        report.push(entry_of(self.importer.name(), self.importer.status()));
        report.push(entry_of(self.llm.name(), self.llm.status()));
        report.push(entry_of(self.storage.name(), self.storage.status()));
        report.push(entry_of(self.subscription.name(), self.subscription.status()));
        report.push(entry_of(self.sync.name(), self.sync.status()));
        assert(Seq::new(report@.len(), |i: int| (report@[i].0@, report@[i].1@))
            =~= health_entries());
        report
    }
}

} // verus!
