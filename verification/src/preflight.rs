//! Counters describing how well predictive warming works: warms started,
//! completed, failed and skipped, predictions made, and how many of them the
//! next request confirmed.

use vstd::prelude::*;

verus! {

/// A snapshot of the warming counters.
#[derive(Debug, Clone, Copy, PartialEq, Eq, Structural)]
pub struct PreflightStats {
    /// Warm tasks spawned.
    pub warms_started: u64,
    /// Warm tasks that completed.
    pub warms_completed: u64,
    /// Warm tasks that failed.
    pub warms_failed: u64,
    /// Warm requests skipped (deduplicated, disabled, or unsafe for memory).
    pub warms_skipped: u64,
    /// Predictions produced.
    pub predictions: u64,
    /// Predictions the next request confirmed.
    pub hits: u64,
    /// Predictions the next request did not match.
    pub misses: u64,
}

/// A counter after one more event (wrapping at `u64::MAX`, as an atomic
/// add does).
pub open spec fn bump(x: u64) -> u64 {
    if x == u64::MAX {
        0
    } else {
        (x + 1) as u64
    }
}

/// All counters at zero.
pub open spec fn zero_stats() -> PreflightStats {
    PreflightStats {
        warms_started: 0,
        warms_completed: 0,
        warms_failed: 0,
        warms_skipped: 0,
        predictions: 0,
        hits: 0,
        misses: 0,
    }
}

fn next(x: u64) -> (r: u64)
    ensures
        r == bump(x),
{
    x.wrapping_add(1)
}

/// Live warming counters.
#[derive(Debug)]
pub struct PreflightMetrics {
    counts: PreflightStats,
}

impl Default for PreflightMetrics {
    fn default() -> (r: Self)
        ensures
            r.stats() == zero_stats(),
    {
        PreflightMetrics { counts: PreflightStats {
            warms_started: 0,
            warms_completed: 0,
            warms_failed: 0,
            warms_skipped: 0,
            predictions: 0,
            hits: 0,
            misses: 0,
        } }
    }
}

impl PreflightMetrics {
    /// The counters as they stand.
    pub closed spec fn stats(&self) -> PreflightStats {
        self.counts
    }

    /// A warm task was spawned.
    pub fn warm_started(&mut self)
        ensures
            final(self).stats() == (PreflightStats { warms_started: bump(old(self).stats().warms_started), ..old(self).stats() }),
    {
        self.counts.warms_started = next(self.counts.warms_started);
    }

    /// A warm task completed.
    pub fn warm_completed(&mut self)
        ensures
            final(self).stats() == (PreflightStats { warms_completed: bump(old(self).stats().warms_completed), ..old(self).stats() }),
    {
        self.counts.warms_completed = next(self.counts.warms_completed);
    }

    /// A warm task failed.
    pub fn warm_failed(&mut self)
        ensures
            final(self).stats() == (PreflightStats { warms_failed: bump(old(self).stats().warms_failed), ..old(self).stats() }),
    {
        self.counts.warms_failed = next(self.counts.warms_failed);
    }

    /// A warm was skipped.
    pub fn warm_skipped(&mut self)
        ensures
            final(self).stats() == (PreflightStats { warms_skipped: bump(old(self).stats().warms_skipped), ..old(self).stats() }),
    {
        self.counts.warms_skipped = next(self.counts.warms_skipped);
    }

    /// A prediction was produced.
    pub fn prediction(&mut self)
        ensures
            final(self).stats() == (PreflightStats { predictions: bump(old(self).stats().predictions), ..old(self).stats() }),
    {
        self.counts.predictions = next(self.counts.predictions);
    }

    /// A prediction matched the next request.
    pub fn hit(&mut self)
        ensures
            final(self).stats() == (PreflightStats { hits: bump(old(self).stats().hits), ..old(self).stats() }),
    {
        self.counts.hits = next(self.counts.hits);
    }

    /// A prediction did not match the next request.
    pub fn miss(&mut self)
        ensures
            final(self).stats() == (PreflightStats { misses: bump(old(self).stats().misses), ..old(self).stats() }),
    {
        self.counts.misses = next(self.counts.misses);
    }

    /// All counters at once.
    pub fn snapshot(&self) -> (r: PreflightStats)
        ensures
            r == self.stats(),
    {
        self.counts
    }
}

} // verus!
