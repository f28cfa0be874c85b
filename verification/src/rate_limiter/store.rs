//! The in-memory store of a rate limiter: one window entry per key in a
//! concurrent map shared by every limiter made from the same store.
use std::sync::Arc;
use std::time::Duration;
use dashmap::mapref::one::RefMut;
use dashmap::DashMap;
use vstd::prelude::*;
use crate::clock::{duration_nanos, nanos_of, Clock};
use crate::rate_limiter::window::{
    check_entry, expired, keep_on_cleanup, remaining_for_entry, spec_check, spec_remaining, spec_time_until_reset,
    RateLimitConfig, RateLimitEntry, RateLimitError, RateLimitResult,
};

verus! {

#[verifier::external_type_specification]
#[verifier::external_body]
#[verifier::reject_recursive_types(K)]
#[verifier::reject_recursive_types(V)]
#[verifier::reject_recursive_types(S)]
pub struct ExDashMap<K, V, S>(DashMap<K, V, S>);

#[verifier::external_type_specification]
#[verifier::external_body]
#[verifier::reject_recursive_types(K)]
#[verifier::reject_recursive_types(V)]
#[verifier::reject_recursive_types(S)]
pub struct ExRefMut<'a, K, V, S>(RefMut<'a, K, V, S>);

/// `DashMap::new`: an empty map.
#[verifier::external_body]
fn new_entries() -> DashMap<String, RateLimitEntry> {
    DashMap::new()
}

/// `DashMap::entry(..).or_insert_with(..)`: locks the entry of `key`,
/// inserting a new window started at `now` when the key has none, and
/// returns the lock with a copy of the entry. The map is shared and changed
/// by other callers, so nothing is stated of the entry found.
#[verifier::external_body]
fn lock_entry<'a>(entries: &'a DashMap<String, RateLimitEntry>, key: &str, now: u128) -> (RefMut<
    'a,
    String,
    RateLimitEntry,
>, RateLimitEntry) {
    let guard = entries.entry(key.to_string()).or_insert_with(|| RateLimitEntry::new(now));
    let current = *guard.value();
    (guard, current)
}

/// `RefMut::value_mut`: stores `entry` under the lock, which is released
/// when the guard is dropped.
#[verifier::external_body]
fn store_locked(guard: &mut RefMut<'_, String, RateLimitEntry>, entry: RateLimitEntry) {
    *guard.value_mut() = entry;
}

/// `DashMap::get`: a copy of the entry of `key`, if there is one. The map
/// is shared, so nothing is stated of what is found.
#[verifier::external_body]
fn peek_entry(entries: &DashMap<String, RateLimitEntry>, key: &str) -> Option<RateLimitEntry> {
    entries.get(key).map(|e| *e.value())
}

/// `DashMap::remove`: forgets the entry of `key`.
#[verifier::external_body]
fn forget_entry(entries: &DashMap<String, RateLimitEntry>, key: &str) {
    entries.remove(key);
}

/// `DashMap::retain`: keeps the entries that `keep_on_cleanup` keeps at
/// `now`.
#[verifier::external_body]
fn retain_entries(entries: &DashMap<String, RateLimitEntry>, now: u128, window: &Duration) {
    entries.retain(|_, e| keep_on_cleanup(e, now, window));
}

/// `Arc::clone`: another handle on the same value.
#[verifier::external_body]
fn share<T>(a: &Arc<T>) -> (r: Arc<T>)
    ensures
        r == *a,
{
    Arc::clone(a)
}

/// Whether counting one more request in `e` would overflow its counter:
/// only when both the count and the limit are at the largest `u32` within a
/// running window.
pub open spec fn saturated(e: RateLimitEntry, now: u128, limit: u32, window: nat) -> bool {
    limit == u32::MAX && e.count == u32::MAX && !expired(e, now, window)
}

/// The decision for a request seen with the stored entry `e`: the usual
/// check, except that a counter that cannot count further refuses.
pub open spec fn decide(e: RateLimitEntry, now: u128, limit: u32, window: nat) -> (RateLimitEntry, bool, u32, nat) {
    if saturated(e, now, limit, window) {
        (e, false, 0, spec_time_until_reset(e, window))
    } else {
        spec_check(e, now, limit, window)
    }
}

/// The decision for a request at `now` on a key whose stored entry is `e`.
pub fn decide_request(e: RateLimitEntry, now: u128, config: &RateLimitConfig) -> (r: (RateLimitEntry, RateLimitResult))
    ensures
        ({
            let (next, allowed, remaining, reset) = decide(
                e,
                now,
                config.requests_per_window,
                duration_nanos(config.window_duration),
            );
            &&& r.0 == next
            &&& r.1.allowed == allowed
            &&& r.1.limit == config.requests_per_window
            &&& r.1.remaining == remaining
            &&& duration_nanos(r.1.reset_time) == reset
        }),
{
    let mut entry = e;
    let window = nanos_of(&config.window_duration);
    if config.requests_per_window == u32::MAX && entry.count == u32::MAX && !entry.is_expired(now, window) {
        let reset = entry.time_until_reset(window);
        let result = RateLimitResult {
            allowed: false,
            limit: config.requests_per_window,
            remaining: 0,
            reset_time: crate::clock::duration_from_nanos(reset),
        };
        return (entry, result);
    }
    let result = check_entry(&mut entry, now, config);
    (entry, result)
}

/// Whether `res` is the answer `decide` gives for entry `e` at `now`.
pub open spec fn answers(res: RateLimitResult, e: RateLimitEntry, now: u128, config: RateLimitConfig) -> bool {
    let (next, allowed, remaining, reset) = decide(
        e,
        now,
        config.requests_per_window,
        duration_nanos(config.window_duration),
    );
    &&& res.allowed == allowed
    &&& res.limit == config.requests_per_window
    &&& res.remaining == remaining
    &&& duration_nanos(res.reset_time) == reset
}

/// A rate limiter: its configuration over a store of per-key windows, and
/// the clock the windows are measured with.
pub struct RateLimiter {
    entries: Arc<DashMap<String, RateLimitEntry>>,
    clock: Arc<Clock>,
    config: RateLimitConfig,
}

impl RateLimiter {
    /// The limiter's configuration.
    pub closed spec fn settings(&self) -> RateLimitConfig {
        self.config
    }

    /// Whether two limiters count in the same store with the same clock.
    pub closed spec fn shares_store_with(&self, other: RateLimiter) -> bool {
        self.entries == other.entries && self.clock == other.clock
    }

    /// The limiter's configuration.
    pub fn config(&self) -> (r: &RateLimitConfig)
        ensures
            *r == self.settings(),
    {
        &self.config
    }

    /// A limiter with an empty store of its own.
    pub fn in_memory(config: RateLimitConfig) -> (r: RateLimiter)
        ensures
            r.settings() == config,
    {
        RateLimiter { entries: Arc::new(new_entries()), clock: Arc::new(Clock::start()), config }
    }

    /// A limiter with another configuration over the same store and clock.
    pub fn with_config(&self, config: RateLimitConfig) -> (r: RateLimiter)
        ensures
            r.settings() == config,
            r.shares_store_with(*self),
    {
        RateLimiter { entries: share(&self.entries), clock: share(&self.clock), config }
    }

    /// Counts a request of `key` against the limit, at the current time.
    /// Whatever entry the store holds for the key (a new window when none),
    /// the answer is `decide` of that entry, and what `decide` leaves is
    /// stored back under the same lock.
    pub fn check_rate_limit(&self, key: &str) -> (r: Result<RateLimitResult, RateLimitError>)
        ensures
            match r {
                Ok(res) => exists|e: RateLimitEntry, now: u128| #[trigger] answers(res, e, now, self.settings()),
                Err(_) => false,
            },
    {
        let now = self.clock.now_nanos();
        let (mut guard, current) = lock_entry(&self.entries, key, now);
        let (next, result) = decide_request(current, now, &self.config);
        store_locked(&mut guard, next);
        assert(exists|e: RateLimitEntry, t: u128| #[trigger] answers(result, e, t, self.settings())) by {
            assert(answers(result, current, now, self.settings()));
        }
        let r = Ok(result);
        assert(r matches Ok(res) && res == result);
        r
    }

    /// The quota `key` has left now: the full limit for an unknown key or an
    /// expired window (see `spec_remaining`).
    pub fn get_remaining_quota(&self, key: &str) -> (r: u32)
        ensures
            exists|e: Option<RateLimitEntry>, now: u128| r == spec_remaining(
                e,
                now,
                self.settings().requests_per_window,
                duration_nanos(self.settings().window_duration),
            ),
    {
        let now = self.clock.now_nanos();
        let found = peek_entry(&self.entries, key);
        let r = match found {
            Some(e) => remaining_for_entry(Some(&e), now, &self.config),
            None => remaining_for_entry(None, now, &self.config),
        };
        assert(r == spec_remaining(found, now, self.config.requests_per_window, duration_nanos(self.config.window_duration)));
        r
    }

    /// Forgets what was counted for `key`.
    pub fn reset(&self, key: &str) -> (r: Result<(), RateLimitError>)
        ensures
            r is Ok,
    {
        forget_entry(&self.entries, key);
        Ok(())
    }

    /// Drops the entries that cleanup does not keep (see `keep_on_cleanup`).
    pub fn cleanup_expired(&self) {
        let now = self.clock.now_nanos();
        retain_entries(&self.entries, now, &self.config.window_duration);
    }
}

} // verus!
