//! A batch run: sources are started while fewer than the ceiling are in
//! flight, and each outcome is counted as it comes in.

use vstd::prelude::*;
use crate::storage::models::SourceRecord;
use crate::sync::settings::{normalize_sync_settings, normalized, SyncSettings};

verus! {

/// What syncing one source came to.
#[derive(Debug)]
pub struct SyncSourceResponse {
    pub source_id: i64,
    /// `not_modified` or `updated`.
    pub status: String,
    pub upserted_entries: usize,
}

/// The counters of a batch run.
#[derive(Debug, Clone, Copy, PartialEq, Eq, Structural)]
pub struct SyncBatchResponse {
    pub synced_sources: usize,
    pub failed_sources: usize,
    pub total_upserted_entries: usize,
}

/// How one source ended, as the counters see it: the number of entries it
/// upserted, or nothing where it failed.
pub open spec fn outcome_of(result: Result<SyncSourceResponse, String>) -> Option<usize> {
    match result {
        Ok(response) => Some(response.upserted_entries),
        Err(_) => None,
    }
}

/// The number of sources among `outcomes` that were synced.
pub open spec fn synced_count(outcomes: Seq<Option<usize>>) -> nat
    decreases outcomes.len(),
{
    if outcomes.len() == 0 {
        0
    } else {
        synced_count(outcomes.drop_last()) + if outcomes.last() is Some {
            1nat
        } else {
            0nat
        }
    }
}

/// The number of sources among `outcomes` that failed.
pub open spec fn failed_count(outcomes: Seq<Option<usize>>) -> nat
    decreases outcomes.len(),
{
    if outcomes.len() == 0 {
        0
    } else {
        failed_count(outcomes.drop_last()) + if outcomes.last() is None {
            1nat
        } else {
            0nat
        }
    }
}

/// The entries upserted by the sources among `outcomes` that were synced.
pub open spec fn entries_sum(outcomes: Seq<Option<usize>>) -> nat
    decreases outcomes.len(),
{
    if outcomes.len() == 0 {
        0
    } else {
        entries_sum(outcomes.drop_last()) + match outcomes.last() {
            Some(n) => n as nat,
            None => 0nat,
        }
    }
}

/// `n`, or the largest `usize` where `n` is beyond it.
pub open spec fn capped(n: nat) -> usize {
    if n <= usize::MAX {
        n as usize
    } else {
        usize::MAX
    }
}

/// The counters after `outcomes`. The total of entries stops at the largest
/// `usize`.
pub open spec fn tally(outcomes: Seq<Option<usize>>) -> SyncBatchResponse {
    SyncBatchResponse {
        synced_sources: capped(synced_count(outcomes)),
        failed_sources: capped(failed_count(outcomes)),
        total_upserted_entries: capped(entries_sum(outcomes)),
    }
}

/// Every source is counted once, as synced or as failed.
pub proof fn lemma_every_outcome_counted(outcomes: Seq<Option<usize>>)
    ensures
        synced_count(outcomes) + failed_count(outcomes) == outcomes.len(),
    decreases outcomes.len(),
{
    if outcomes.len() > 0 {
        lemma_every_outcome_counted(outcomes.drop_last());
    }
}

/// The outcomes of the sources that were synced, in order.
pub open spec fn successes(outcomes: Seq<Option<usize>>) -> Seq<Option<usize>>
    decreases outcomes.len(),
{
    if outcomes.len() == 0 {
        outcomes
    } else if outcomes.last() is Some {
        successes(outcomes.drop_last()).push(outcomes.last())
    } else {
        successes(outcomes.drop_last())
    }
}

/// Failures take nothing from the successes: the number of synced sources
/// and the total of their entries are what they would be had the failed
/// sources not been part of the run, and each failure is counted as one.
pub proof fn lemma_failures_leave_successes(outcomes: Seq<Option<usize>>)
    ensures
        synced_count(outcomes) == synced_count(successes(outcomes)),
        entries_sum(outcomes) == entries_sum(successes(outcomes)),
        synced_count(successes(outcomes)) == successes(outcomes).len(),
        failed_count(outcomes) == outcomes.len() - successes(outcomes).len(),
    decreases outcomes.len(),
{
    if outcomes.len() > 0 {
        let rest = outcomes.drop_last();
        lemma_failures_leave_successes(rest);
        if outcomes.last() is Some {
            let s = successes(rest).push(outcomes.last());
            assert(s.drop_last() =~= successes(rest));
            assert(s.last() == outcomes.last());
        }
    }
}

/// The counters, with the outcomes they stand for.
struct Tally {
    report: SyncBatchResponse,
    outcomes: Ghost<Seq<Option<usize>>>,
}

/// A batch run under a concurrency ceiling.
pub struct BatchScheduler {
    sources: Vec<SourceRecord>,
    next: usize,
    ceiling: usize,
    done: Tally,
}

/// What the caller of the scheduler is to do next.
#[derive(Debug)]
pub enum BatchAction {
    /// Start syncing this source, and ask again.
    Start(SourceRecord),
    /// Wait for a source in flight to end, report it, and ask again.
    Wait,
    /// Every source has ended: the run is over, with this report.
    Finished(SyncBatchResponse),
}

impl BatchScheduler {
    #[verifier::type_invariant]
    spec fn inv(self) -> bool {
        &&& 1 <= self.ceiling
        &&& self.done.outcomes@.len() <= self.next <= self.sources@.len()
        &&& self.next - self.done.outcomes@.len() <= self.ceiling
        &&& self.done.report == tally(self.done.outcomes@)
    }

    /// The sources of the run, in the order in which they are started.
    pub closed spec fn sources(self) -> Seq<SourceRecord> {
        self.sources@
    }

    /// The number of sources started so far.
    pub closed spec fn started(self) -> nat {
        self.next as nat
    }

    /// The outcomes reported so far, in the order in which they came.
    pub closed spec fn outcomes(self) -> Seq<Option<usize>> {
        self.done.outcomes@
    }

    /// The number of sources that have been started and have not ended.
    pub open spec fn in_flight(self) -> int {
        self.started() - self.outcomes().len()
    }

    /// The most sources that may be in flight at once.
    pub closed spec fn ceiling(self) -> nat {
        self.ceiling as nat
    }

    /// The counters so far.
    pub closed spec fn report(self) -> SyncBatchResponse {
        self.done.report
    }

    /// A run over the first `batch_limit` of `sources`, with the ceiling
    /// `max_concurrency`, both taken from `settings` after they have been
    /// moved into their safe bounds.
    pub fn new(sources: Vec<SourceRecord>, settings: SyncSettings) -> (r: Self)
        ensures
            r.sources() == if sources@.len() <= normalized(settings).batch_limit {
                sources@
            } else {
                sources@.take(normalized(settings).batch_limit as int)
            },
            r.ceiling() == normalized(settings).max_concurrency,
            r.started() == 0,
            r.outcomes() == Seq::<Option<usize>>::empty(),
            r.report() == tally(Seq::<Option<usize>>::empty()),
    {
        let bounded = normalize_sync_settings(settings);
        let mut sources = sources;
        let limit: usize = bounded.batch_limit as usize;
        if sources.len() > limit {
            sources.truncate(limit);
        }
        BatchScheduler {
            sources,
            next: 0,
            ceiling: bounded.max_concurrency as usize,
            done: Tally {
                report: SyncBatchResponse {
                    synced_sources: 0,
                    failed_sources: 0,
                    total_upserted_entries: 0,
                },
                outcomes: Ghost(Seq::empty()),
            },
        }
    }

    /// Says what to do next. A source is started only while fewer than the
    /// ceiling are in flight, so never more than the ceiling are; with
    /// nothing left to start, the caller waits while any is in flight, and
    /// the run is over once every source has ended.
    pub fn next_action(&mut self) -> (action: BatchAction)
        ensures
            final(self).sources() == old(self).sources(),
            final(self).ceiling() == old(self).ceiling(),
            final(self).outcomes() == old(self).outcomes(),
            final(self).report() == old(self).report(),
            0 <= final(self).in_flight() <= final(self).ceiling(),
            final(self).started() <= final(self).sources().len(),
            match action {
                BatchAction::Start(source) => {
                    &&& old(self).in_flight() < old(self).ceiling()
                    &&& old(self).started() < old(self).sources().len()
                    &&& source == old(self).sources()[old(self).started() as int]
                    &&& final(self).started() == old(self).started() + 1
                },
                BatchAction::Wait => {
                    &&& old(self).in_flight() > 0
                    &&& old(self).in_flight() == old(self).ceiling() || old(self).started() == old(
                        self,
                    ).sources().len()
                    &&& final(self).started() == old(self).started()
                },
                BatchAction::Finished(report) => {
                    &&& old(self).in_flight() == 0
                    &&& old(self).started() == old(self).sources().len()
                    &&& final(self).started() == old(self).started()
                    &&& report == tally(old(self).outcomes())
                    &&& old(self).outcomes().len() == old(self).sources().len()
                },
            },
    {
        proof {
            use_type_invariant(&*self);
            lemma_every_outcome_counted(self.done.outcomes@);
        }
        let ended: usize = self.done.report.synced_sources + self.done.report.failed_sources;
        let in_flight: usize = self.next - ended;
        if in_flight < self.ceiling && self.next < self.sources.len() {
            let source = self.sources[self.next].clone();
            self.next = self.next + 1;
            BatchAction::Start(source)
        } else if in_flight > 0 {
            BatchAction::Wait
        } else {
            BatchAction::Finished(self.done.report)
        }
    }

    /// Counts the end of a source in flight: one more synced source and its
    /// entries, or one more failed source. With nothing in flight the call
    /// changes nothing and returns `false`.
    pub fn complete(&mut self, result: &Result<SyncSourceResponse, String>) -> (counted: bool)
        ensures
            final(self).sources() == old(self).sources(),
            final(self).ceiling() == old(self).ceiling(),
            final(self).started() == old(self).started(),
            counted == (old(self).in_flight() > 0),
            counted ==> final(self).outcomes() == old(self).outcomes().push(outcome_of(*result)),
            !counted ==> final(self).outcomes() == old(self).outcomes(),
            final(self).report() == tally(final(self).outcomes()),
            0 <= final(self).in_flight() <= final(self).ceiling(),
    {
        proof {
            use_type_invariant(&*self);
            lemma_every_outcome_counted(self.done.outcomes@);
        }
        let report = self.done.report;
        let ended: usize = report.synced_sources + report.failed_sources;
        if self.next == ended {
            return false;
        }
        let ghost before = self.done.outcomes@;
        let ghost after = before.push(outcome_of(*result));
        proof {
            assert(after.drop_last() =~= before);
            lemma_every_outcome_counted(after);
        }
        let next_report = match result {
            Ok(response) => SyncBatchResponse {
                synced_sources: report.synced_sources + 1,
                failed_sources: report.failed_sources,
                total_upserted_entries: if response.upserted_entries <= usize::MAX
                    - report.total_upserted_entries {
                    report.total_upserted_entries + response.upserted_entries
                } else {
                    usize::MAX
                },
            },
            Err(_) => SyncBatchResponse {
                synced_sources: report.synced_sources,
                failed_sources: report.failed_sources + 1,
                total_upserted_entries: report.total_upserted_entries,
            },
        };
        self.done = Tally { report: next_report, outcomes: Ghost(after) };
        true
    }

    /// The counters so far.
    pub fn current_report(&self) -> (r: SyncBatchResponse)
        ensures
            r == self.report(),
            r == tally(self.outcomes()),
    {
        proof {
            use_type_invariant(self);
        }
        self.done.report
    }
}

} // verus!
