//! The single-flight guard round a batch run, and what it remembers of the
//! last one.

use vstd::prelude::*;
use crate::feed::types::clone_opt;
use crate::sync::batch::SyncBatchResponse;

verus! {

/// A snapshot of the guard.
#[derive(Debug)]
pub struct SyncRuntimeStatus {
    pub running: bool,
    pub last_report: Option<SyncBatchResponse>,
    pub last_error: Option<String>,
}

/// Whether a run is under way, the report of the last run that completed
/// and the error of the last one that did not.
#[derive(Debug)]
pub struct SyncRuntime {
    pub running: bool,
    pub last_report: Option<SyncBatchResponse>,
    pub last_error: Option<String>,
}

impl Default for SyncRuntime {
    fn default() -> (r: Self)
        ensures
            !r.running,
            r.last_report is None,
            r.last_error is None,
    {
        SyncRuntime { running: false, last_report: None, last_error: None }
    }
}

impl SyncRuntime {
    /// Asks to start a run. Granted, with `true`, exactly when none is under
    /// way; a run is under way afterwards either way, and what is
    /// remembered of the last run stays.
    pub fn try_begin(&mut self) -> (granted: bool)
        ensures
            granted == !old(self).running,
            final(self).running,
            final(self).last_report == old(self).last_report,
            final(self).last_error == old(self).last_error,
    {
        let was_running = self.running;
        self.running = true;
        !was_running
    }

    /// Takes the result of the run that is under way. A report replaces
    /// the last one and clears the error; an error is remembered beside the
    /// last report. The guard stays as it is, so that what follows the run
    /// can be done before another run is let in. The result tells whether
    /// title enrichment is to follow: after a run that produced a report.
    pub fn record(&mut self, result: Result<SyncBatchResponse, String>) -> (enrich: bool)
        ensures
            final(self).running == old(self).running,
            enrich == result is Ok,
            match result {
                Ok(report) => final(self).last_report == Some(report) && final(self).last_error
                    is None,
                Err(error) => {
                    &&& final(self).last_report == old(self).last_report
                    &&& final(self).last_error == Some(error)
                },
            },
    {
        match result {
            Ok(report) => {
                self.last_report = Some(report);
                self.last_error = None;
                true
            },
            Err(error) => {
                self.last_error = Some(error);
                false
            },
        }
    }

    /// Lets the next run in. What is remembered of the last run stays.
    pub fn release(&mut self)
        ensures
            !final(self).running,
            final(self).last_report == old(self).last_report,
            final(self).last_error == old(self).last_error,
    {
        self.running = false;
    }

    /// Ends the run with its result: the result is recorded, and the next
    /// run is let in.
    pub fn finish(&mut self, result: Result<SyncBatchResponse, String>) -> (enrich: bool)
        ensures
            !final(self).running,
            enrich == result is Ok,
            match result {
                Ok(report) => final(self).last_report == Some(report) && final(self).last_error
                    is None,
                Err(error) => {
                    &&& final(self).last_report == old(self).last_report
                    &&& final(self).last_error == Some(error)
                },
            },
    {
        let enrich = self.record(result);
        self.release();
        enrich
    }

    /// A snapshot for callers that must not wait for the run.
    pub fn status(&self) -> (r: SyncRuntimeStatus)
        ensures
            r.running == self.running,
            r.last_report == self.last_report,
            r.last_error == self.last_error,
    {
        SyncRuntimeStatus {
            running: self.running,
            last_report: self.last_report,
            last_error: clone_opt(&self.last_error),
        }
    }
}

} // verus!
