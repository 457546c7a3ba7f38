//! Fixed-window rate limiting: at most `limit` calls per window and identity.

use crate::models::RateLimitConfig;
use crate::store::CounterStore;
use crate::utils::format_rate_limit_key;
use crate::utils::namespaced;
use vstd::prelude::*;

verus! {

/// Why a call was not admitted.
#[derive(Debug, Clone, Copy, PartialEq, Eq)]
pub enum RateLimitError {
    /// The backing counter service could not be reached.
    StoreUnavailable,
    /// The identity used up its quota for the current window.
    ExceededLimit,
}

/// The counter that holds an identity's calls in the current window.
pub open spec fn rate_limit_key(key: Seq<char>) -> Seq<char> {
    namespaced("rate_limit"@, key)
}

/// The verdict on a call that brought the window's count to `count`.
pub open spec fn verdict_for(count: u64, limit: u32) -> Result<(), RateLimitError> {
    if count > limit {
        Err(RateLimitError::ExceededLimit)
    } else {
        Ok(())
    }
}

/// Decides a call from the count that the call itself brought the window to.
pub fn rate_limit_verdict(count: u64, limit: u32) -> (r: Result<(), RateLimitError>)
    ensures
        r == verdict_for(count, limit),
{
    if count > limit as u64 {
        Err(RateLimitError::ExceededLimit)
    } else {
        Ok(())
    }
}

/// What remains of a quota of `limit` after `used` calls, within `[0, limit]`.
pub open spec fn remaining_for(used: u64, limit: u32) -> u32 {
    if used >= limit {
        0
    } else {
        (limit - used) as u32
    }
}

/// Computes the quota left after `used` calls.
pub fn remaining_quota(used: u64, limit: u32) -> (r: u32)
    ensures
        r == remaining_for(used, limit),
{
    if used >= limit as u64 {
        0
    } else {
        limit - used as u32
    }
}

/// Rate limiter; all of its state lives in the counter store.
pub struct RateLimiter {
    config: RateLimitConfig,
}

impl RateLimiter {
    pub closed spec fn limit(&self) -> u32 {
        self.config.default_limit
    }

    pub closed spec fn window(&self) -> u32 {
        self.config.window_seconds
    }

    /// The counter state of `key` after one more call at `now`.
    pub open spec fn after_call(&self, store: CounterStore, key: Seq<char>, now: u64) -> (u64, u64) {
        store.next_counter(rate_limit_key(key), 1, self.window() as u64, now)
    }

    /// Whether a call at `now` would be admitted.
    pub open spec fn admits(&self, store: CounterStore, key: Seq<char>, now: u64) -> bool {
        self.after_call(store, key, now).0 <= self.limit()
    }

    /// The window at `key`, if any, ends no later than one window length
    /// after `now`. Each window this limiter opens at or before `now` does.
    pub open spec fn window_within(&self, store: CounterStore, key: Seq<char>, now: u64) -> bool {
        let k = rate_limit_key(key);
        !store.counters().contains_key(k) || store.counters()[k].1 <= now + self.window()
    }

    pub fn new(config: RateLimitConfig) -> (r: Self)
        ensures
            r.limit() == config.default_limit,
            r.window() == config.window_seconds,
    {
        RateLimiter { config }
    }

    /// Counts one call of `key` at `now` and decides it: `ExceededLimit` when
    /// the count in the current window passes the limit, else `Ok`.
    pub fn check_rate_limit(&self, store: &mut CounterStore, key: &str, now: u64) -> (r: Result<
        (),
        RateLimitError,
    >)
        requires
            old(store).wf(),
        ensures
            final(store).wf(),
            final(store).counters() == old(store).counters().insert(
                rate_limit_key(key@),
                self.after_call(*old(store), key@, now),
            ),
            final(store).histories() == old(store).histories(),
            r == verdict_for(self.after_call(*old(store), key@, now).0, self.limit()),
            r is Ok <==> self.admits(*old(store), key@, now),
            self.window_within(*old(store), key@, now) || !old(store).is_live(
                rate_limit_key(key@),
                now,
            ) ==> self.window_within(*final(store), key@, now),
    {
        let window_key = format_rate_limit_key("rate_limit", key);
        let count = store.increment_with_window(
            window_key.as_str(),
            1,
            self.config.window_seconds as u64,
            now,
        );
        rate_limit_verdict(count, self.config.default_limit)
    }

    /// Forgets `key`'s calls, restoring its full quota.
    pub fn reset_rate_limit(&self, store: &mut CounterStore, key: &str)
        requires
            old(store).wf(),
        ensures
            final(store).wf(),
            final(store).counters() == old(store).counters().remove(rate_limit_key(key@)),
            final(store).histories() == old(store).histories(),
            self.window_within(*final(store), key@, 0),
    {
        let window_key = format_rate_limit_key("rate_limit", key);
        store.delete(window_key.as_str());
    }

    /// Calls `key` has left in the current window, within `[0, limit]`.
    pub fn get_remaining(&self, store: &CounterStore, key: &str, now: u64) -> (r: i64)
        requires
            store.wf(),
        ensures
            r == remaining_for(store.live_value(rate_limit_key(key@), now), self.limit()),
    {
        let window_key = format_rate_limit_key("rate_limit", key);
        let used = store.get(window_key.as_str(), now);
        remaining_quota(used, self.config.default_limit) as i64
    }

    /// Seconds until `key`'s window ends; 0 when no window is open.
    pub fn get_reset_time(&self, store: &CounterStore, key: &str, now: u64) -> (r: u64)
        requires
            store.wf(),
        ensures
            r == store.ttl(rate_limit_key(key@), now),
            self.window_within(*store, key@, now) ==> r <= self.window(),
    {
        let window_key = format_rate_limit_key("rate_limit", key);
        store.time_to_live(window_key.as_str(), now)
    }
}

/// Within one window the N-th call is refused exactly when N exceeds the
/// limit. A call that finds N - 1 calls counted in a live window (or, for
/// N = 1, no live window) is admitted iff N <= limit, and leaves N counted.
pub proof fn lemma_nth_call_in_window(
    limiter: RateLimiter,
    store: CounterStore,
    key: Seq<char>,
    now: u64,
    n: nat,
)
    requires
        1 <= n <= u64::MAX,
        if n == 1 {
            !store.is_live(rate_limit_key(key), now)
        } else {
            store.is_live(rate_limit_key(key), now) && store.live_value(rate_limit_key(key), now) == n - 1
        },
    ensures
        limiter.admits(store, key, now) <==> n <= limiter.limit(),
        limiter.after_call(store, key, now).0 == n,
{
}

/// A call made after a reset is admitted whenever the limit admits any call.
pub proof fn lemma_reset_restores_quota(
    limiter: RateLimiter,
    after_reset: CounterStore,
    key: Seq<char>,
    now: u64,
)
    requires
        !after_reset.counters().contains_key(rate_limit_key(key)),
        limiter.limit() >= 1,
    ensures
        limiter.admits(after_reset, key, now),
{
}

/// A window that ends within one window length of some instant still does
/// at every later instant. With the store's windows opened by this limiter
/// at nondecreasing times, the time to reset thus never exceeds the window.
pub proof fn lemma_window_within_later(
    limiter: RateLimiter,
    store: CounterStore,
    key: Seq<char>,
    t1: u64,
    t2: u64,
)
    requires
        t1 <= t2,
        limiter.window_within(store, key, t1),
    ensures
        limiter.window_within(store, key, t2),
{
}

/// Within a window the time to reset never grows as time passes.
pub proof fn lemma_reset_time_non_increasing(store: CounterStore, key: Seq<char>, t1: u64, t2: u64)
    requires
        t1 <= t2,
    ensures
        store.ttl(rate_limit_key(key), t2) <= store.ttl(rate_limit_key(key), t1),
{
}

/// Once a window has rolled over, the next call opens a new one whose time
/// to reset is the full window length.
pub proof fn lemma_reset_time_after_rollover(
    limiter: RateLimiter,
    store: CounterStore,
    after: CounterStore,
    key: Seq<char>,
    now: u64,
)
    requires
        !store.is_live(rate_limit_key(key), now),
        now + limiter.window() <= u64::MAX,
        after.counters() == store.counters().insert(
            rate_limit_key(key),
            limiter.after_call(store, key, now),
        ),
    ensures
        after.ttl(rate_limit_key(key), now) == limiter.window(),
{
}

} // verus!
