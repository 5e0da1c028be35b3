//! Fixed-window request limiter: each client address may make at most
//! `max_requests` requests per window; the window of an address starts anew
//! at the first request after it has lapsed.
use crate::clock::{clock_origin, millis_since};
use crate::table::{KeepRule, KeyedTable};
use std::time::Instant;
use vstd::prelude::*;

verus! {

/// Requests counted for one address in its current window.
pub struct RateLimitEntry {
    pub count: usize,
    /// Clock reading, in milliseconds, at which the current window began.
    pub window_start: u64,
}

/// Time from `start` to `now`, zero when the clock reads earlier than `start`.
pub open spec fn elapsed(now: u64, start: u64) -> int {
    if now >= start {
        now - start
    } else {
        0
    }
}

/// The window of `e` has lapsed at `now`.
pub open spec fn window_lapsed(e: RateLimitEntry, now: u64, window: u64) -> bool {
    elapsed(now, e.window_start) > window
}

/// `c + 1`, held at the largest count.
pub open spec fn count_up(c: usize) -> usize {
    if c < usize::MAX {
        (c + 1) as usize
    } else {
        c
    }
}

/// The entry for `ip` after a request at `now`: a new or lapsed window
/// starts at `now` with no requests, then the request is counted.
pub open spec fn entry_after(
    m: Map<Seq<char>, RateLimitEntry>,
    ip: Seq<char>,
    now: u64,
    window: u64,
) -> RateLimitEntry {
    let e = if m.contains_key(ip) {
        m[ip]
    } else {
        RateLimitEntry { count: 0, window_start: now }
    };
    let e = if window_lapsed(e, now, window) {
        RateLimitEntry { count: 0, window_start: now }
    } else {
        e
    };
    RateLimitEntry { count: count_up(e.count), window_start: e.window_start }
}

/// The entries after a request from `ip` at `now`.
pub open spec fn state_after(
    m: Map<Seq<char>, RateLimitEntry>,
    ip: Seq<char>,
    now: u64,
    window: u64,
) -> Map<Seq<char>, RateLimitEntry> {
    m.insert(ip, entry_after(m, ip, now, window))
}

/// Whether a request from `ip` at `now` is admitted.
pub open spec fn admits(
    m: Map<Seq<char>, RateLimitEntry>,
    ip: Seq<char>,
    now: u64,
    window: u64,
    max_requests: usize,
) -> bool {
    entry_after(m, ip, now, window).count <= max_requests
}

/// The entries of `m` whose window is still open at `now`.
pub open spec fn open_windows(m: Map<Seq<char>, RateLimitEntry>, now: u64, window: u64) -> Map<
    Seq<char>,
    RateLimitEntry,
> {
    Map::new(|k: Seq<char>| m.contains_key(k) && !window_lapsed(m[k], now, window), |k: Seq<char>| m[k])
}

/// The answers to requests from `ip` at the clock readings `times`, in turn.
pub open spec fn answers(
    m: Map<Seq<char>, RateLimitEntry>,
    ip: Seq<char>,
    times: Seq<u64>,
    window: u64,
    max_requests: usize,
) -> Seq<bool>
    decreases times.len(),
{
    if times.len() == 0 {
        Seq::empty()
    } else {
        seq![admits(m, ip, times[0], window, max_requests)] + answers(
            state_after(m, ip, times[0], window),
            ip,
            times.drop_first(),
            window,
            max_requests,
        )
    }
}

/// Keeps the entries whose window is open at a given clock reading.
struct WindowOpen {
    now: u64,
    window: u64,
}

impl KeepRule<RateLimitEntry> for WindowOpen {
    closed spec fn keeps(&self, v: &RateLimitEntry) -> bool {
        !window_lapsed(*v, self.now, self.window)
    }

    fn test(&self, v: &RateLimitEntry) -> (r: bool) {
        self.now.saturating_sub(v.window_start) <= self.window
    }
}

/// Request limiter, keyed by client address text.
pub struct RateLimiter {
    entries: KeyedTable<RateLimitEntry>,
    max_requests: usize,
    window: u64,
    origin: Instant,
}

impl View for RateLimiter {
    type V = Map<Seq<char>, RateLimitEntry>;

    closed spec fn view(&self) -> Map<Seq<char>, RateLimitEntry> {
        self.entries@
    }
}

impl RateLimiter {
    pub closed spec fn wf(&self) -> bool {
        self.entries.wf()
    }

    /// Requests admitted per window.
    pub closed spec fn max_requests(&self) -> usize {
        self.max_requests
    }

    /// Length of a window, in milliseconds.
    pub closed spec fn window(&self) -> u64 {
        self.window
    }

    /// A limiter with no entries that admits `max_requests` requests per
    /// window of `window_ms` milliseconds.
    pub fn new(max_requests: usize, window_ms: u64) -> (r: Self)
        ensures
            r.wf(),
            r@ == Map::<Seq<char>, RateLimitEntry>::empty(),
            r.max_requests() == max_requests,
            r.window() == window_ms,
    {
        RateLimiter {
            entries: KeyedTable::new(),
            max_requests,
            window: window_ms,
            origin: clock_origin(),
        }
    }

    /// Counts a request from `ip` at clock reading `now` and tells whether it
    /// is admitted.
    pub fn check_rate_limit_at(&mut self, ip: &str, now: u64) -> (r: bool)
        requires
            old(self).wf(),
        ensures
            final(self).wf(),
            final(self).max_requests() == old(self).max_requests(),
            final(self).window() == old(self).window(),
            final(self)@ == state_after(old(self)@, ip@, now, old(self).window()),
            r == admits(old(self)@, ip@, now, old(self).window(), old(self).max_requests()),
    {
        let key = ip.to_owned();
        let (count, window_start) = match self.entries.get(&key) {
            Some(e) => (e.count, e.window_start),
            None => (0, now),
        };
        let (count, window_start) = if now.saturating_sub(window_start) > self.window {
            (0, now)
        } else {
            (count, window_start)
        };
        let count = count.saturating_add(1);
        self.entries.insert(key, RateLimitEntry { count, window_start });
        count <= self.max_requests
    }

    /// Drops every entry whose window has lapsed at clock reading `now`.
    pub fn cleanup_at(&mut self, now: u64)
        requires
            old(self).wf(),
        ensures
            final(self).wf(),
            final(self).max_requests() == old(self).max_requests(),
            final(self).window() == old(self).window(),
            final(self)@ == open_windows(old(self)@, now, old(self).window()),
    {
        let rule = WindowOpen { now, window: self.window };
        self.entries.retain(&rule);
        proof {
            assert(self@ =~= open_windows(old(self)@, now, old(self).window()));
        }
    }

    /// Counts a request from `ip` now and tells whether it is admitted.
    pub fn check_rate_limit(&mut self, ip: &str) -> (r: bool)
        requires
            old(self).wf(),
        ensures
            final(self).wf(),
            final(self).max_requests() == old(self).max_requests(),
            final(self).window() == old(self).window(),
            exists|now: u64|
                {
                    &&& final(self)@ == state_after(old(self)@, ip@, now, old(self).window())
                    &&& r == admits(
                        old(self)@,
                        ip@,
                        now,
                        old(self).window(),
                        old(self).max_requests(),
                    )
                },
    {
        let now = millis_since(&self.origin);
        self.check_rate_limit_at(ip, now)
    }

    /// Drops every entry whose window has lapsed now.
    pub fn cleanup(&mut self)
        requires
            old(self).wf(),
        ensures
            final(self).wf(),
            final(self).max_requests() == old(self).max_requests(),
            final(self).window() == old(self).window(),
            exists|now: u64| final(self)@ == open_windows(old(self)@, now, old(self).window()),
    {
        let now = millis_since(&self.origin);
        self.cleanup_at(now);
    }

    /// The number of addresses with an entry.
    pub fn entry_count(&self) -> (r: usize)
        requires
            self.wf(),
        ensures
            r == self@.len(),
    {
        self.entries.len()
    }
}

/// Within one window, an address that already made `c` requests gets its
/// next requests admitted exactly while its count stays within the quota.
proof fn lemma_answers_within_window(
    m: Map<Seq<char>, RateLimitEntry>,
    ip: Seq<char>,
    times: Seq<u64>,
    window: u64,
    max_requests: usize,
)
    requires
        m.contains_key(ip),
        m[ip].count + times.len() < usize::MAX,
        forall|i: int| 0 <= i < times.len() ==> elapsed(#[trigger] times[i], m[ip].window_start) <= window,
    ensures
        answers(m, ip, times, window, max_requests).len() == times.len(),
        forall|i: int|
            0 <= i < times.len() ==> #[trigger] answers(m, ip, times, window, max_requests)[i] == (
            m[ip].count + i + 1 <= max_requests),
    decreases times.len(),
{
    if times.len() > 0 {
        let m2 = state_after(m, ip, times[0], window);
        let rest = times.drop_first();
        assert forall|i: int| 0 <= i < rest.len() implies elapsed(
            #[trigger] rest[i],
            m2[ip].window_start,
        ) <= window by {
            assert(rest[i] == times[i + 1]);
        }
        lemma_answers_within_window(m2, ip, rest, window, max_requests);
        let a = answers(m, ip, times, window, max_requests);
        assert forall|i: int| 0 <= i < times.len() implies #[trigger] a[i] == (m[ip].count + i + 1
            <= max_requests) by {
            if i > 0 {
                assert(a[i] == answers(m2, ip, rest, window, max_requests)[i - 1]);
            }
        }
    }
}

/// With a quota of `max_requests`, the requests of a fresh address within one
/// window are admitted up to the quota and refused from then on.
pub proof fn lemma_admission(
    m: Map<Seq<char>, RateLimitEntry>,
    ip: Seq<char>,
    times: Seq<u64>,
    window: u64,
    max_requests: usize,
)
    requires
        !m.contains_key(ip),
        times.len() < usize::MAX,
        forall|i: int| 0 <= i < times.len() ==> elapsed(#[trigger] times[i], times[0]) <= window,
    ensures
        answers(m, ip, times, window, max_requests).len() == times.len(),
        forall|i: int|
            0 <= i < times.len() ==> #[trigger] answers(m, ip, times, window, max_requests)[i] == (i
                < max_requests),
{
    if times.len() > 0 {
        let m2 = state_after(m, ip, times[0], window);
        let rest = times.drop_first();
        assert(m2[ip] == RateLimitEntry { count: 1, window_start: times[0] });
        assert forall|i: int| 0 <= i < rest.len() implies elapsed(
            #[trigger] rest[i],
            m2[ip].window_start,
        ) <= window by {
            assert(rest[i] == times[i + 1]);
        }
        lemma_answers_within_window(m2, ip, rest, window, max_requests);
        let a = answers(m, ip, times, window, max_requests);
        assert forall|i: int| 0 <= i < times.len() implies #[trigger] a[i] == (i < max_requests) by {
            if i > 0 {
                assert(a[i] == answers(m2, ip, rest, window, max_requests)[i - 1]);
            }
        }
    }
}

/// Once the window of an address has lapsed, its next request starts a new
/// window with a count of one, and is admitted by any quota of at least one.
pub proof fn lemma_window_reset(
    m: Map<Seq<char>, RateLimitEntry>,
    ip: Seq<char>,
    now: u64,
    window: u64,
    max_requests: usize,
)
    requires
        m.contains_key(ip),
        window_lapsed(m[ip], now, window),
        max_requests >= 1,
    ensures
        entry_after(m, ip, now, window) == (RateLimitEntry { count: 1, window_start: now }),
        admits(m, ip, now, window, max_requests),
{
}

/// A request from one address leaves the entry of every other address, and
/// the answer to its next request, as they were.
pub proof fn lemma_independence(
    m: Map<Seq<char>, RateLimitEntry>,
    a: Seq<char>,
    b: Seq<char>,
    t1: u64,
    t2: u64,
    window: u64,
    max_requests: usize,
)
    requires
        a != b,
    ensures
        state_after(m, a, t1, window).remove(a) == m.remove(a),
        entry_after(state_after(m, a, t1, window), b, t2, window) == entry_after(m, b, t2, window),
        admits(state_after(m, a, t1, window), b, t2, window, max_requests) == admits(
            m,
            b,
            t2,
            window,
            max_requests,
        ),
{
    assert(state_after(m, a, t1, window).remove(a) =~= m.remove(a));
}

} // verus!
