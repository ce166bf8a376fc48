//! Sliding-window rate limiting per credential.
//!
//! Instants are nanoseconds on the limiter's own monotonic clock. A request
//! counts against the window while its age is at most the window's length.

use vstd::hash_map::StringHashMap;
use vstd::prelude::*;
use std::time::{Duration, Instant};

verus! {

/// How long ago `at` was, seen from `now`; an instant that is not in the past has age 0.
pub open spec fn age(now: u128, at: u128) -> int {
    if now >= at {
        now - at
    } else {
        0
    }
}

/// `at` still counts against the window that ends at `now`.
pub open spec fn is_recent(now: u128, at: u128, window: u128) -> bool {
    age(now, at) <= window
}

/// The test that pruning applies to each recorded instant.
pub open spec fn recent_at(now: u128, window: u128) -> spec_fn(u128) -> bool {
    |at: u128| is_recent(now, at, window)
}

/// The recorded instants that still count at `now`, in their order.
pub open spec fn prune(history: Seq<u128>, now: u128, window: u128) -> Seq<u128> {
    history.filter(recent_at(now, window))
}

/// Whether a request at `now` is allowed: fewer than `limit` recorded instants still count.
pub open spec fn allows(history: Seq<u128>, now: u128, window: u128, limit: usize) -> bool {
    prune(history, now, window).len() < limit
}

/// The history after a check at `now`: pruned, and with `now` recorded if the request was allowed.
pub open spec fn record(history: Seq<u128>, now: u128, window: u128, limit: usize) -> Seq<u128> {
    if allows(history, now, window, limit) {
        prune(history, now, window).push(now)
    } else {
        prune(history, now, window)
    }
}

/// The history after one check at each of `times`, in their order.
pub open spec fn after_checks(history: Seq<u128>, times: Seq<u128>, window: u128, limit: usize) -> Seq<
    u128,
>
    decreases times.len(),
{
    if times.len() == 0 {
        history
    } else {
        record(after_checks(history, times.drop_last(), window, limit), times.last(), window, limit)
    }
}

/// Pruning keeps a history whose instants all still count.
pub proof fn lemma_prune_keeps_recent(history: Seq<u128>, now: u128, window: u128)
    requires
        forall|i: int| 0 <= i < history.len() ==> is_recent(now, #[trigger] history[i], window),
    ensures
        prune(history, now, window) == history,
    decreases history.len(),
{
    reveal(Seq::filter);
    if history.len() > 0 {
        lemma_prune_keeps_recent(history.drop_last(), now, window);
        assert(history.drop_last().push(history.last()) =~= history);
    }
}

/// Pruning empties a history whose instants have all expired.
pub proof fn lemma_prune_drops_expired(history: Seq<u128>, now: u128, window: u128)
    requires
        forall|i: int| 0 <= i < history.len() ==> !is_recent(now, #[trigger] history[i], window),
    ensures
        prune(history, now, window) == Seq::<u128>::empty(),
    decreases history.len(),
{
    reveal(Seq::filter);
    if history.len() > 0 {
        lemma_prune_drops_expired(history.drop_last(), now, window);
    }
}

/// After a check at `now` every recorded instant counts at `now`, and a
/// history within the limit stays within it.
pub proof fn lemma_record_invariant(history: Seq<u128>, now: u128, window: u128, limit: usize)
    ensures
        forall|i: int|
            0 <= i < record(history, now, window, limit).len() ==> is_recent(
                now,
                #[trigger] record(history, now, window, limit)[i],
                window,
            ),
        history.len() <= limit ==> record(history, now, window, limit).len() <= limit,
{
    let kept = prune(history, now, window);
    history.lemma_filter_len(recent_at(now, window));
    assert forall|i: int| 0 <= i < kept.len() implies is_recent(now, #[trigger] kept[i], window) by {
        history.lemma_filter_pred(recent_at(now, window), i);
    }
}

/// An instant exactly one window old still counts; one older does not.
pub proof fn lemma_window_boundary(now: u128, at: u128, window: u128)
    requires
        at <= now,
    ensures
        now - at == window ==> is_recent(now, at, window),
        now - at > window ==> !is_recent(now, at, window),
{
}

/// While every recorded instant still counts, a request is allowed exactly
/// when fewer than `limit` are recorded.
pub proof fn lemma_allowed_below_limit(history: Seq<u128>, now: u128, window: u128, limit: usize)
    requires
        forall|i: int| 0 <= i < history.len() ==> is_recent(now, #[trigger] history[i], window),
    ensures
        allows(history, now, window, limit) == (history.len() < limit),
{
    lemma_prune_keeps_recent(history, now, window);
}

/// Once every recorded instant has expired, a limiter with a positive limit
/// allows the next request and holds that request alone.
pub proof fn lemma_allowed_after_window(history: Seq<u128>, now: u128, window: u128, limit: usize)
    requires
        limit > 0,
        forall|i: int| 0 <= i < history.len() ==> !is_recent(now, #[trigger] history[i], window),
    ensures
        allows(history, now, window, limit),
        record(history, now, window, limit) == seq![now],
{
    lemma_prune_drops_expired(history, now, window);
    assert(Seq::<u128>::empty().push(now) =~= seq![now]);
}

/// A burst on a fresh key: of checks at non-decreasing instants that span
/// at most one window, exactly the first `limit` are allowed.
pub proof fn lemma_burst(times: Seq<u128>, window: u128, limit: usize, n: int)
    requires
        0 <= n < times.len(),
        forall|i: int, j: int| 0 <= i <= j < times.len() ==> times[i] <= times[j],
        times.last() - times[0] <= window,
    ensures
        after_checks(Seq::empty(), times.take(n), window, limit) == times.take(
            if n <= limit {
                n
            } else {
                limit as int
            },
        ),
        allows(after_checks(Seq::empty(), times.take(n), window, limit), times[n], window, limit) == (n
            < limit),
    decreases n,
{
    let kept = if n <= limit {
        n
    } else {
        limit as int
    };
    if n == 0 {
        assert(times.take(0) =~= Seq::<u128>::empty());
    } else {
        lemma_burst(times, window, limit, n - 1);
        assert(times.take(n).drop_last() =~= times.take(n - 1));
        assert(times.take(n).last() == times[n - 1]);
        if n - 1 < limit {
            let before = times.take(n - 1);
            assert forall|i: int| 0 <= i < before.len() implies is_recent(
                times[n - 1],
                #[trigger] before[i],
                window,
            ) by {
                assert(before[i] == times[i]);
            }
            lemma_prune_keeps_recent(before, times[n - 1], window);
            assert(before.push(times[n - 1]) =~= times.take(n));
        } else {
            let before = times.take(limit as int);
            assert forall|i: int| 0 <= i < before.len() implies is_recent(
                times[n - 1],
                #[trigger] before[i],
                window,
            ) by {
                assert(before[i] == times[i]);
            }
            lemma_prune_keeps_recent(before, times[n - 1], window);
        }
    }
    let held = times.take(kept);
    assert forall|i: int| 0 <= i < held.len() implies is_recent(times[n], #[trigger] held[i], window) by {
        assert(held[i] == times[i]);
    }
    lemma_allowed_below_limit(held, times[n], window, limit);
}

#[verifier::external_type_specification]
#[verifier::external_body]
pub struct ExInstant(Instant);

/// Starts a clock with `Instant::now`.
#[verifier::external_body]
fn clock_start() -> Instant {
    Instant::now()
}

/// The time since a clock was started, by `Instant::elapsed`. Nothing is
/// claimed of it: two readings may be any two durations.
#[verifier::external_body]
fn clock_elapsed(started: &Instant) -> Duration {
    started.elapsed()
}

/// A duration in whole nanoseconds, by `Duration::as_nanos`. Nothing is claimed of the number.
#[verifier::external_body]
fn duration_nanos(elapsed: Duration) -> u128 {
    elapsed.as_nanos()
}

/// Pause between two attempts of a caller that was not allowed, in milliseconds.
pub const BACKOFF_MILLIS: u64 = 100;

/// Requests allowed in one window unless the limiter is configured otherwise.
pub const DEFAULT_MAX_REQUESTS: usize = 10;

/// Length of the window, in nanoseconds, unless the limiter is configured otherwise.
pub const DEFAULT_WINDOW_NANOS: u128 = 2_000_000_000;

/// What a caller that wants to send a request does next.
#[derive(Debug, Clone, Copy, PartialEq, Eq)]
pub enum WaitDecision {
    /// The request was recorded and may be sent.
    Proceed,
    /// The window is full: sleep, then ask again.
    Sleep { millis: u64 },
}

/// The decision that follows from the answer of a check.
pub open spec fn decision_for(allowed: bool) -> WaitDecision {
    if allowed {
        WaitDecision::Proceed
    } else {
        (WaitDecision::Sleep { millis: BACKOFF_MILLIS })
    }
}

/// Recent request instants per credential, within a sliding window.
pub struct RateLimiter {
    requests: StringHashMap<Vec<u128>>,
    max_requests: usize,
    window_nanos: u128,
    started: Instant,
}

impl RateLimiter {
    /// The instants recorded for `key`, oldest first; empty for a key never seen.
    pub closed spec fn history(&self, key: Seq<char>) -> Seq<u128> {
        if self.requests@.contains_key(key) {
            self.requests@[key]@
        } else {
            Seq::empty()
        }
    }

    /// The number of requests allowed in one window.
    pub closed spec fn limit(&self) -> usize {
        self.max_requests
    }

    /// The length of the window, in nanoseconds.
    pub closed spec fn window(&self) -> u128 {
        self.window_nanos
    }

    /// The start of the clock on which the recorded instants are counted.
    pub closed spec fn origin(&self) -> Instant {
        self.started
    }

    /// No key holds more instants than the limit.
    pub open spec fn wf(&self) -> bool {
        forall|key: Seq<char>| #[trigger] self.history(key).len() <= self.limit()
    }

    /// `after` is this limiter after a check for `key` at `now` that answered `allowed`.
    pub open spec fn checked(&self, after: &RateLimiter, key: Seq<char>, now: u128, allowed: bool) -> bool {
        &&& after.limit() == self.limit()
        &&& after.window() == self.window()
        &&& after.origin() == self.origin()
        &&& allowed == allows(self.history(key), now, self.window(), self.limit())
        &&& after.history(key) == record(self.history(key), now, self.window(), self.limit())
        &&& forall|other: Seq<char>| other != key ==> #[trigger] after.history(other) == self.history(other)
    }

    /// `after` is this limiter after one turn of waiting for `key` at `now` that ended in `decision`.
    pub open spec fn waited(
        &self,
        after: &RateLimiter,
        key: Seq<char>,
        now: u128,
        decision: WaitDecision,
    ) -> bool {
        &&& self.checked(after, key, now, decision == WaitDecision::Proceed)
        &&& decision == decision_for(allows(self.history(key), now, self.window(), self.limit()))
    }

    /// A limiter with no history that allows `max_requests` requests per
    /// window of `window_nanos` nanoseconds.
    pub fn new(max_requests: usize, window_nanos: u128) -> (limiter: Self)
        ensures
            limiter.wf(),
            limiter.limit() == max_requests,
            limiter.window() == window_nanos,
            forall|key: Seq<char>| #[trigger] limiter.history(key) == Seq::<u128>::empty(),
    {
        RateLimiter {
            requests: StringHashMap::new(),
            max_requests,
            window_nanos,
            started: clock_start(),
        }
    }

    /// The instants of `history` that still count at `now`.
    fn retain_recent(history: &Vec<u128>, now: u128, window: u128) -> (kept: Vec<u128>)
        ensures
            kept@ == prune(history@, now, window),
    {
        let mut kept: Vec<u128> = Vec::new();
        let mut i: usize = 0;
        proof {
            reveal(Seq::filter);
            assert(history@.take(0) =~= Seq::<u128>::empty());
        }
        while i < history.len()
            invariant
                i <= history@.len(),
                kept@ == prune(history@.take(i as int), now, window),
            decreases history@.len() - i,
        {
            let at = history[i];
            proof {
                assert(history@.take(i + 1) =~= history@.take(i as int).push(at));
                history@.take(i as int).lemma_filter_push(at, recent_at(now, window));
            }
            if now < at || now - at <= window {
                kept.push(at);
            }
            i += 1;
        }
        assert(history@.take(i as int) =~= history@);
        kept
    }

    /// Checks, and records, a request of `user_id` at the instant `now`:
    /// instants older than the window are dropped, and the request is
    /// allowed and recorded if fewer than the limit remain.
    pub fn check_rate_limit_at(&mut self, user_id: &str, now: u128) -> (allowed: bool)
        ensures
            old(self).checked(final(self), user_id@, now, allowed),
            old(self).wf() ==> final(self).wf(),
    {
        let ghost before = *self;
        let mut kept = match self.requests.get(user_id) {
            Some(history) => Self::retain_recent(history, now, self.window_nanos),
            None => Vec::new(),
        };
        proof {
            reveal(Seq::filter);
            lemma_record_invariant(before.history(user_id@), now, before.window(), before.limit());
        }
        let allowed = kept.len() < self.max_requests;
        if allowed {
            kept.push(now);
        }
        self.requests.insert(user_id.to_owned(), kept);
        proof {
            assert forall|other: Seq<char>| other != user_id@ implies #[trigger] self.history(other)
                == before.history(other) by {}
            if before.wf() {
                assert forall|key: Seq<char>| #[trigger] self.history(key).len() <= self.limit() by {
                    if key != user_id@ {
                        assert(self.history(key) == before.history(key));
                    } else {
                        assert(before.history(user_id@).len() <= before.limit());
                    }
                }
            }
        }
        allowed
    }

    /// Checks, and records, a request of `user_id` at the instant that the
    /// limiter's clock shows.
    pub fn check_rate_limit(&mut self, user_id: &str) -> (allowed: bool)
        ensures
            exists|now: u128| old(self).checked(final(self), user_id@, now, allowed),
            old(self).wf() ==> final(self).wf(),
    {
        let now = duration_nanos(clock_elapsed(&self.started));
        self.check_rate_limit_at(user_id, now)
    }

    /// One turn of waiting for `user_id` at the instant `now`: proceed if the
    /// request was allowed and recorded, else sleep for the backoff and ask again.
    pub fn wait_step_at(&mut self, user_id: &str, now: u128) -> (decision: WaitDecision)
        ensures
            old(self).waited(final(self), user_id@, now, decision),
            old(self).wf() ==> final(self).wf(),
    {
        if self.check_rate_limit_at(user_id, now) {
            WaitDecision::Proceed
        } else {
            WaitDecision::Sleep { millis: BACKOFF_MILLIS }
        }
    }

    /// One turn of waiting for `user_id` at the instant that the limiter's clock shows.
    pub fn wait_step(&mut self, user_id: &str) -> (decision: WaitDecision)
        ensures
            exists|now: u128| old(self).waited(final(self), user_id@, now, decision),
            old(self).wf() ==> final(self).wf(),
    {
        let now = duration_nanos(clock_elapsed(&self.started));
        self.wait_step_at(user_id, now)
    }
}

impl Default for RateLimiter {
    /// Ten requests per window of two seconds.
    fn default() -> (limiter: Self)
        ensures
            limiter.wf(),
            limiter.limit() == DEFAULT_MAX_REQUESTS,
            limiter.window() == DEFAULT_WINDOW_NANOS,
            forall|key: Seq<char>| #[trigger] limiter.history(key) == Seq::<u128>::empty(),
    {
        RateLimiter::new(DEFAULT_MAX_REQUESTS, DEFAULT_WINDOW_NANOS)
    }
}

} // verus!
