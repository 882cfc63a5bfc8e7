//! The tunables of a sync run and the bounds they are held to.

use vstd::prelude::*;

verus! {

/// Seconds between two runs where nothing else is stored.
pub const DEFAULT_SYNC_INTERVAL_SECS: u64 = 600;

/// Sources synced at the same time where nothing else is stored.
pub const DEFAULT_SYNC_MAX_CONCURRENCY: u32 = 6;

/// Sources taken into one run where nothing else is stored.
pub const DEFAULT_SYNC_BATCH_LIMIT: u32 = 24;

/// Seconds one HTTP call may take where nothing else is stored.
pub const DEFAULT_SYNC_TIMEOUT_SECS: u64 = 12;

/// Retries of a failed fetch where nothing else is stored.
pub const DEFAULT_SYNC_RETRY_COUNT: u32 = 1;

/// The tunables of a sync run.
#[derive(Debug, Clone, Copy, PartialEq, Eq, Structural)]
pub struct SyncSettings {
    /// Seconds between two runs of the background driver.
    pub interval_secs: u64,
    /// Sources synced at the same time, at most.
    pub max_concurrency: u32,
    /// Sources taken into one run, at most.
    pub batch_limit: u32,
    /// Seconds one HTTP call may take.
    pub timeout_secs: u64,
    /// Retries of a failed fetch.
    pub retry_count: u32,
}

impl Default for SyncSettings {
    fn default() -> (r: Self)
        ensures
            r == (SyncSettings {
                interval_secs: 600,
                max_concurrency: 6,
                batch_limit: 24,
                timeout_secs: 12,
                retry_count: 1,
            }),
    {
        SyncSettings {
            interval_secs: DEFAULT_SYNC_INTERVAL_SECS,
            max_concurrency: DEFAULT_SYNC_MAX_CONCURRENCY,
            batch_limit: DEFAULT_SYNC_BATCH_LIMIT,
            timeout_secs: DEFAULT_SYNC_TIMEOUT_SECS,
            retry_count: DEFAULT_SYNC_RETRY_COUNT,
        }
    }
}

/// `value`, moved into `low..=high` where it lies outside.
pub open spec fn clamped(value: int, low: int, high: int) -> int {
    if value < low {
        low
    } else if value > high {
        high
    } else {
        value
    }
}

/// The settings with each tunable inside its safe bounds.
pub open spec fn normalized(s: SyncSettings) -> SyncSettings {
    SyncSettings {
        interval_secs: clamped(s.interval_secs as int, 60, 3600) as u64,
        max_concurrency: clamped(s.max_concurrency as int, 1, 16) as u32,
        batch_limit: clamped(s.batch_limit as int, 1, 200) as u32,
        timeout_secs: clamped(s.timeout_secs as int, 5, 60) as u64,
        retry_count: clamped(s.retry_count as int, 0, 4) as u32,
    }
}

/// The settings are inside their safe bounds.
pub open spec fn within_bounds(s: SyncSettings) -> bool {
    &&& 60 <= s.interval_secs <= 3600
    &&& 1 <= s.max_concurrency <= 16
    &&& 1 <= s.batch_limit <= 200
    &&& 5 <= s.timeout_secs <= 60
    &&& s.retry_count <= 4
}

fn clamp_u64(value: u64, low: u64, high: u64) -> (r: u64)
    requires
        low <= high,
    ensures
        r == clamped(value as int, low as int, high as int),
{
    if value < low {
        low
    } else if value > high {
        high
    } else {
        value
    }
}

fn clamp_u32(value: u32, low: u32, high: u32) -> (r: u32)
    requires
        low <= high,
    ensures
        r == clamped(value as int, low as int, high as int),
{
    if value < low {
        low
    } else if value > high {
        high
    } else {
        value
    }
}

/// Moves each tunable into its safe bounds: values outside are clamped,
/// never refused.
pub fn normalize_sync_settings(settings: SyncSettings) -> (r: SyncSettings)
    ensures
        r == normalized(settings),
        within_bounds(r),
        within_bounds(settings) ==> r == settings,
{
    SyncSettings {
        interval_secs: clamp_u64(settings.interval_secs, 60, 3600),
        max_concurrency: clamp_u32(settings.max_concurrency, 1, 16),
        batch_limit: clamp_u32(settings.batch_limit, 1, 200),
        timeout_secs: clamp_u64(settings.timeout_secs, 5, 60),
        retry_count: clamp_u32(settings.retry_count, 0, 4),
    }
}

/// The settings a run works with: the stored ones, normalised, or the
/// defaults where none are stored.
pub fn effective_sync_settings(stored: Option<SyncSettings>) -> (r: SyncSettings)
    ensures
        r == match stored {
            Some(s) => normalized(s),
            None => SyncSettings {
                interval_secs: 600,
                max_concurrency: 6,
                batch_limit: 24,
                timeout_secs: 12,
                retry_count: 1,
            },
        },
        within_bounds(r),
{
    match stored {
        Some(s) => normalize_sync_settings(s),
        None => SyncSettings::default(),
    }
}

} // verus!
