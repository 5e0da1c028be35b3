//! Request counters: all requests, those answered with success, and the rest.
use vstd::prelude::*;

verus! {

/// `c + 1`, wrapping to zero past the largest count.
pub open spec fn bump(c: u64) -> u64 {
    if c < u64::MAX {
        (c + 1) as u64
    } else {
        0
    }
}

/// Statuses from 200 to 299 mark a success.
pub open spec fn is_success_status(status: u16) -> bool {
    200 <= status < 300
}

/// Counters of the requests served.
pub struct Metrics {
    total_requests: u64,
    successful_requests: u64,
    failed_requests: u64,
}

impl Metrics {
    pub closed spec fn total_count(&self) -> u64 {
        self.total_requests
    }

    pub closed spec fn success_count(&self) -> u64 {
        self.successful_requests
    }

    pub closed spec fn failure_count(&self) -> u64 {
        self.failed_requests
    }

    /// Counters that all read zero.
    pub fn new() -> (r: Self)
        ensures
            r.total_count() == 0,
            r.success_count() == 0,
            r.failure_count() == 0,
    {
        Metrics { total_requests: 0, successful_requests: 0, failed_requests: 0 }
    }

    pub fn increment_total(&mut self)
        ensures
            final(self).total_count() == bump(old(self).total_count()),
            final(self).success_count() == old(self).success_count(),
            final(self).failure_count() == old(self).failure_count(),
    {
        self.total_requests = self.total_requests.wrapping_add(1);
    }

    pub fn increment_success(&mut self)
        ensures
            final(self).total_count() == old(self).total_count(),
            final(self).success_count() == bump(old(self).success_count()),
            final(self).failure_count() == old(self).failure_count(),
    {
        self.successful_requests = self.successful_requests.wrapping_add(1);
    }

    pub fn increment_failure(&mut self)
        ensures
            final(self).total_count() == old(self).total_count(),
            final(self).success_count() == old(self).success_count(),
            final(self).failure_count() == bump(old(self).failure_count()),
    {
        self.failed_requests = self.failed_requests.wrapping_add(1);
    }

    /// Counts the outcome of a request answered with `status`: a success for
    /// a 2xx status, a failure for any other.
    pub fn record_status(&mut self, status: u16)
        ensures
            final(self).total_count() == old(self).total_count(),
            is_success_status(status) ==> final(self).success_count() == bump(old(self).success_count())
                && final(self).failure_count() == old(self).failure_count(),
            !is_success_status(status) ==> final(self).success_count() == old(self).success_count()
                && final(self).failure_count() == bump(old(self).failure_count()),
    {
        if 200 <= status && status < 300 {
            self.increment_success();
        } else {
            self.increment_failure();
        }
    }

    pub fn total(&self) -> (r: u64)
        ensures
            r == self.total_count(),
    {
        self.total_requests
    }

    pub fn success(&self) -> (r: u64)
        ensures
            r == self.success_count(),
    {
        self.successful_requests
    }

    pub fn failure(&self) -> (r: u64)
        ensures
            r == self.failure_count(),
    {
        self.failed_requests
    }
}

impl Default for Metrics {
    fn default() -> (r: Self)
        ensures
            r.total_count() == 0,
            r.success_count() == 0,
            r.failure_count() == 0,
    {
        Self::new()
    }
}

} // verus!
