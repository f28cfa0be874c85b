//! Fixed-window counting per key, as the in-memory store does it, and the
//! decisions taken on counters kept in Redis.
use std::time::Duration;
use vstd::prelude::*;
use crate::clock::{duration_from_nanos, duration_from_secs, duration_nanos, nanos_of, secs_of, NANOS_PER_SEC};

verus! {

/// Why a rate-limit check failed.
#[derive(Debug)]
pub enum RateLimitError {
    LimitExceeded,
    InvalidConfig(String),
    InternalError(String),
}

impl RateLimitError {
    /// The error's display text.
    pub fn message(&self) -> (s: String)
        ensures
            s@ == match self {
                RateLimitError::LimitExceeded => "Rate limit exceeded"@,
                RateLimitError::InvalidConfig(m) => "Invalid configuration: "@ + m@,
                RateLimitError::InternalError(m) => "Internal error: "@ + m@,
            },
    {
        let mut s = String::new();
        match self {
            RateLimitError::LimitExceeded => crate::text::push_str(&mut s, "Rate limit exceeded"),
            RateLimitError::InvalidConfig(m) => {
                crate::text::push_str(&mut s, "Invalid configuration: ");
                crate::text::push_str(&mut s, m.as_str());
            },
            RateLimitError::InternalError(m) => {
                crate::text::push_str(&mut s, "Internal error: ");
                crate::text::push_str(&mut s, m.as_str());
            },
        }
        assert(s@ =~= match self {
            RateLimitError::LimitExceeded => "Rate limit exceeded"@,
            RateLimitError::InvalidConfig(m) => "Invalid configuration: "@ + m@,
            RateLimitError::InternalError(m) => "Internal error: "@ + m@,
        });
        s
    }

    /// HTTP status and body of the response that reports this error.
    pub fn response_parts(&self) -> (r: (u16, &'static str))
        ensures
            r.0 == (if self is LimitExceeded { 429u16 } else { 500u16 }),
            r.1@ == match self {
                RateLimitError::LimitExceeded => "Rate limit exceeded"@,
                RateLimitError::InvalidConfig(_) => "Invalid configuration"@,
                RateLimitError::InternalError(_) => "Internal error"@,
            },
    {
        match self {
            RateLimitError::LimitExceeded => (429, "Rate limit exceeded"),
            RateLimitError::InvalidConfig(_) => (500, "Invalid configuration"),
            RateLimitError::InternalError(_) => (500, "Internal error"),
        }
    }
}

/// How many requests a key may make per window.
#[derive(Debug)]
pub struct RateLimitConfig {
    pub requests_per_window: u32,
    pub window_duration: Duration,
    pub burst_limit: Option<u32>,
    pub enable_headers: bool,
}

impl Clone for RateLimitConfig {
    fn clone(&self) -> (r: Self)
        ensures
            r == *self,
    {
        RateLimitConfig {
            requests_per_window: self.requests_per_window,
            window_duration: self.window_duration.clone(),
            burst_limit: self.burst_limit,
            enable_headers: self.enable_headers,
        }
    }
}

impl Default for RateLimitConfig {
    /// 100 requests per 60-second window, no burst limit, headers on.
    fn default() -> (r: Self)
        ensures
            r.requests_per_window == 100,
            duration_nanos(r.window_duration) == 60 * NANOS_PER_SEC,
            r.burst_limit is None,
            r.enable_headers,
    {
        RateLimitConfig {
            requests_per_window: 100,
            window_duration: duration_from_secs(60),
            burst_limit: None,
            enable_headers: true,
        }
    }
}

/// The answer to one check.
#[derive(Debug)]
pub struct RateLimitResult {
    pub allowed: bool,
    pub limit: u32,
    pub remaining: u32,
    pub reset_time: Duration,
}

/// Request count of one key in its current window. Times are nanoseconds on
/// the limiter's clock.
#[derive(Debug, Clone, Copy)]
pub struct RateLimitEntry {
    pub count: u32,
    pub window_start: u128,
    pub last_request: u128,
}

/// `later - earlier`, or zero when `later` is not after `earlier`
/// (`Instant::duration_since`).
pub open spec fn elapsed(later: u128, earlier: u128) -> nat {
    if later >= earlier {
        (later - earlier) as nat
    } else {
        0
    }
}

pub open spec fn expired(e: RateLimitEntry, now: u128, window: nat) -> bool {
    elapsed(now, e.window_start) >= window
}

/// `e` after counting a request at `now`: a fresh window when the current
/// one has run out, one more request otherwise.
pub open spec fn spec_increment(e: RateLimitEntry, now: u128, window: nat) -> RateLimitEntry {
    if expired(e, now, window) {
        RateLimitEntry { count: 1, window_start: now, last_request: now }
    } else {
        RateLimitEntry { count: (e.count + 1) as u32, window_start: e.window_start, last_request: now }
    }
}

pub open spec fn spec_is_allowed(e: RateLimitEntry, now: u128, limit: u32, window: nat) -> bool {
    expired(e, now, window) || e.count <= limit
}

/// Nanoseconds from the last request until the window ends.
pub open spec fn spec_time_until_reset(e: RateLimitEntry, window: nat) -> nat {
    let used = elapsed(e.last_request, e.window_start);
    if used >= window {
        0
    } else {
        (window - used) as nat
    }
}

/// What one check does to an entry: the entry afterwards, whether the
/// request is allowed, the remaining quota and the nanoseconds until reset.
pub open spec fn spec_check(e: RateLimitEntry, now: u128, limit: u32, window: nat) -> (RateLimitEntry, bool, u32, nat) {
    if !spec_is_allowed(e, now, limit, window) {
        (e, false, 0, spec_time_until_reset(e, window))
    } else {
        let n = spec_increment(e, now, window);
        (n, true, if limit >= n.count { (limit - n.count) as u32 } else { 0 }, spec_time_until_reset(n, window))
    }
}

impl RateLimitEntry {
    /// Every entry has counted at least one request.
    pub open spec fn wf(&self) -> bool {
        self.count >= 1
    }

    /// An entry for a key first seen at `now`.
    pub fn new(now: u128) -> (r: Self)
        ensures
            r == (RateLimitEntry { count: 1, window_start: now, last_request: now }),
            r.wf(),
    {
        RateLimitEntry { count: 1, window_start: now, last_request: now }
    }

    fn elapsed_since_start(&self, now: u128) -> (r: u128)
        ensures
            r == elapsed(now, self.window_start),
    {
        if now >= self.window_start {
            now - self.window_start
        } else {
            0
        }
    }

    /// Whether the window of this entry has run out at `now`.
    pub fn is_expired(&self, now: u128, window: u128) -> (r: bool)
        ensures
            r == expired(*self, now, window as nat),
    {
        self.elapsed_since_start(now) >= window
    }

    /// Counts a request at `now`, starting a new window when the current one
    /// has run out.
    pub fn increment(&mut self, now: u128, window: u128)
        requires
            old(self).count < u32::MAX || expired(*old(self), now, window as nat),
        ensures
            *final(self) == spec_increment(*old(self), now, window as nat),
    {
        if self.elapsed_since_start(now) >= window {
            self.count = 1;
            self.window_start = now;
        } else {
            self.count = self.count + 1;
        }
        self.last_request = now;
    }

    /// Whether a request at `now` fits the limit.
    pub fn is_allowed(&self, now: u128, limit: u32, window: u128) -> (r: bool)
        ensures
            r == spec_is_allowed(*self, now, limit, window as nat),
    {
        if self.elapsed_since_start(now) >= window {
            return true;
        }
        self.count <= limit
    }

    /// Nanoseconds from the last request until the window ends.
    pub fn time_until_reset(&self, window: u128) -> (r: u128)
        ensures
            r == spec_time_until_reset(*self, window as nat),
            r <= window,
            self.window_start <= self.last_request && self.last_request - self.window_start < window ==> r
                + (self.last_request - self.window_start) == window,
            self.last_request >= self.window_start && self.last_request - self.window_start >= window ==> r == 0,
    {
        let used = if self.last_request >= self.window_start {
            self.last_request - self.window_start
        } else {
            0
        };
        if used >= window {
            0
        } else {
            window - used
        }
    }
}

/// One check of a key whose entry is `entry`, under `config`, at `now`.
/// A refused request leaves the entry as it was.
pub fn check_entry(entry: &mut RateLimitEntry, now: u128, config: &RateLimitConfig) -> (r: RateLimitResult)
    requires
        config.requests_per_window < u32::MAX || old(entry).count < u32::MAX || expired(
            *old(entry),
            now,
            duration_nanos(config.window_duration),
        ),
    ensures
        ({
            let (e, allowed, remaining, reset) = spec_check(
                *old(entry),
                now,
                config.requests_per_window,
                duration_nanos(config.window_duration),
            );
            &&& *final(entry) == e
            &&& r.allowed == allowed
            &&& r.limit == config.requests_per_window
            &&& r.remaining == remaining
            &&& duration_nanos(r.reset_time) == reset
        }),
        old(entry).wf() ==> final(entry).wf(),
{
    let window = nanos_of(&config.window_duration);
    let limit = config.requests_per_window;
    if !entry.is_allowed(now, limit, window) {
        let reset = entry.time_until_reset(window);
        return RateLimitResult {
            allowed: false,
            limit,
            remaining: 0,
            reset_time: duration_from_nanos(reset),
        };
    }
    entry.increment(now, window);
    let remaining = if limit >= entry.count { limit - entry.count } else { 0 };
    let reset = entry.time_until_reset(window);
    RateLimitResult { allowed: true, limit, remaining, reset_time: duration_from_nanos(reset) }
}

/// Quota left for a key: the full limit when the key is unknown or its
/// window has run out.
pub open spec fn spec_remaining(entry: Option<RateLimitEntry>, now: u128, limit: u32, window: nat) -> u32 {
    match entry {
        Some(e) => if expired(e, now, window) {
            limit
        } else if limit >= e.count {
            (limit - e.count) as u32
        } else {
            0
        },
        None => limit,
    }
}

pub fn remaining_for_entry(entry: Option<&RateLimitEntry>, now: u128, config: &RateLimitConfig) -> (r: u32)
    ensures
        r == spec_remaining(
            match entry { Some(e) => Some(*e), None => None },
            now,
            config.requests_per_window,
            duration_nanos(config.window_duration),
        ),
{
    let limit = config.requests_per_window;
    match entry {
        Some(e) => {
            let window = nanos_of(&config.window_duration);
            if e.elapsed_since_start(now) >= window {
                limit
            } else if limit >= e.count {
                limit - e.count
            } else {
                0
            }
        },
        None => limit,
    }
}

/// Whether periodic cleanup keeps an entry: while its window runs, or while
/// it has counted any request.
pub fn keep_on_cleanup(entry: &RateLimitEntry, now: u128, window: &Duration) -> (r: bool)
    ensures
        r == (!expired(*entry, now, duration_nanos(*window)) || entry.count > 0),
{
    entry.elapsed_since_start(now) < nanos_of(window) || entry.count > 0
}

/// The window length Redis keys expire after: whole seconds of the window,
/// at least one.
pub fn redis_window_secs(config: &RateLimitConfig) -> (r: u64)
    ensures
        r == (if duration_nanos(config.window_duration) / (NANOS_PER_SEC as nat) >= 1 {
            duration_nanos(config.window_duration) / (NANOS_PER_SEC as nat)
        } else {
            1
        }),
{
    let s = secs_of(&config.window_duration);
    if s >= 1 { s } else { 1 }
}

/// Whether the counter just incremented to `count` needs an expiry set:
/// always for the first request of a window, otherwise when Redis reports no
/// expiry (`ttl` negative, or the TTL query failed).
pub fn redis_needs_expiry(count: i64, ttl: Option<i64>) -> (r: bool)
    ensures
        r == (count == 1 || match ttl { Some(t) => t < 0, None => true }),
{
    if count == 1 {
        true
    } else {
        match ttl {
            Some(t) => t < 0,
            None => true,
        }
    }
}

/// The answer for a Redis counter at `count` whose key expires in `ttl`
/// seconds (`None` when the query failed): allowed while `count` is within
/// the limit; the reset time is the TTL when positive, the window otherwise.
pub fn redis_result(count: i64, ttl: Option<i64>, limit: u32, window_secs: u64) -> (r: RateLimitResult)
    ensures
        r.allowed == (count <= limit as i64),
        r.limit == limit,
        r.remaining == (if count <= limit as i64 {
            if count <= 0 { limit } else { (limit - count) as u32 }
        } else {
            0
        }),
        duration_nanos(r.reset_time) == match ttl {
            Some(t) => if t > 0 { t * NANOS_PER_SEC } else { window_secs * NANOS_PER_SEC },
            None => window_secs * NANOS_PER_SEC,
        },
{
    let secs: u64 = match ttl {
        Some(t) => if t > 0 { t as u64 } else { window_secs },
        None => window_secs,
    };
    let allowed = count <= limit as i64;
    let remaining = if allowed {
        let used: u32 = if count <= 0 { 0 } else { count as u32 };
        limit - used
    } else {
        0
    };
    RateLimitResult { allowed, limit, remaining, reset_time: duration_from_secs(secs) }
}

/// Quota left for a Redis counter holding `count` (the value read back,
/// narrowed to 32 bits as the store reads it).
pub fn redis_remaining(count: i64, limit: u32) -> (r: u32)
    ensures
        r == (if count > 0 {
            if limit >= (count as u32) { (limit - (count as u32)) as u32 } else { 0 }
        } else {
            limit
        }),
{
    if count > 0 {
        let c = count as u32;
        if limit >= c { limit - c } else { 0 }
    } else {
        limit
    }
}

/// The entry and the decisions after checking requests at `times`, in
/// order, starting from `e`.
pub open spec fn run_checks(e: RateLimitEntry, times: Seq<u128>, limit: u32, window: nat) -> (RateLimitEntry, Seq<bool>)
    decreases times.len(),
{
    if times.len() == 0 {
        (e, Seq::empty())
    } else {
        let (e1, decisions) = run_checks(e, times.drop_last(), limit, window);
        let c = spec_check(e1, times.last(), limit, window);
        (c.0, decisions.push(c.1))
    }
}

/// Within one window, a key first seen at `t0` is allowed exactly its first
/// `limit` requests: the request at position `i` is allowed if and only if
/// `i < limit`, and every later one is refused.
pub proof fn law_window_admits_limit(t0: u128, times: Seq<u128>, limit: u32, window: nat)
    requires
        limit < u32::MAX,
        forall|i: int| 0 <= i < times.len() ==> t0 <= #[trigger] times[i] && times[i] - t0 < window,
    ensures
        run_checks(RateLimitEntry { count: 1, window_start: t0, last_request: t0 }, times, limit, window).1.len() == times.len(),
        forall|i: int| 0 <= i < times.len() ==> #[trigger] run_checks(
            RateLimitEntry { count: 1, window_start: t0, last_request: t0 },
            times,
            limit,
            window,
        ).1[i] == (i < limit),
        run_checks(RateLimitEntry { count: 1, window_start: t0, last_request: t0 }, times, limit, window).0.count
            == (if times.len() < limit { times.len() + 1int } else { limit + 1int }),
        run_checks(RateLimitEntry { count: 1, window_start: t0, last_request: t0 }, times, limit, window).0.window_start == t0,
    decreases times.len(),
{
    let e0 = RateLimitEntry { count: 1, window_start: t0, last_request: t0 };
    if times.len() > 0 {
        let prefix = times.drop_last();
        assert forall|i: int| 0 <= i < prefix.len() implies t0 <= #[trigger] prefix[i] && prefix[i] - t0 < window by {
            assert(prefix[i] == times[i]);
        }
        law_window_admits_limit(t0, prefix, limit, window);
        let (e1, d1) = run_checks(e0, prefix, limit, window);
        let t = times.last();
        assert(t0 <= t && t - t0 < window) by {
            assert(times[times.len() - 1] == t);
        }
        assert(!expired(e1, t, window));
        let (_, d) = run_checks(e0, times, limit, window);
        assert forall|i: int| 0 <= i < times.len() implies #[trigger] d[i] == (i < limit) by {
            if i < prefix.len() {
                assert(d[i] == d1[i]);
            }
        }
    }
}

/// A request that arrives after its key's window has run out is always
/// allowed, and starts a new window holding that one request.
pub proof fn law_expired_window_restarts(e: RateLimitEntry, now: u128, limit: u32, window: nat)
    requires
        expired(e, now, window),
    ensures
        spec_check(e, now, limit, window).1,
        spec_check(e, now, limit, window).0 == (RateLimitEntry { count: 1, window_start: now, last_request: now }),
{
}

/// A refused request changes nothing, reports no remaining quota, and the
/// quota reported is never above the limit.
pub proof fn law_refusal_changes_nothing(e: RateLimitEntry, now: u128, limit: u32, window: nat)
    ensures
        !spec_check(e, now, limit, window).1 ==> spec_check(e, now, limit, window).0 == e
            && spec_check(e, now, limit, window).2 == 0,
        spec_check(e, now, limit, window).2 <= limit,
{
}

/// Cleanup never drops a well-formed entry, since every entry has counted at
/// least one request.
pub proof fn law_cleanup_keeps_entries(e: RateLimitEntry, now: u128, window: nat)
    requires
        e.wf(),
    ensures
        !expired(e, now, window) || e.count > 0,
{
}

/// What is left of a window: the reset time counted from the last request,
/// added to the time from the window's start to that request, gives the
/// window's length while the window lasts; once it is used up the reset
/// time is zero, and it is never longer than the window.
pub proof fn law_reset_is_rest_of_window(e: RateLimitEntry, window: nat)
    ensures
        spec_time_until_reset(e, window) <= window,
        e.window_start <= e.last_request && e.last_request - e.window_start < window ==> spec_time_until_reset(e, window)
            + (e.last_request - e.window_start) == window,
        e.window_start <= e.last_request && e.last_request - e.window_start >= window ==> spec_time_until_reset(e, window)
            == 0,
{
}

/// A later request in the same window sees the reset time shrink by exactly
/// the time that passed since the earlier one.
pub proof fn law_reset_shrinks_as_time_passes(e: RateLimitEntry, later: u128, window: nat)
    requires
        e.window_start <= e.last_request <= later,
        later - e.window_start < window,
    ensures
        spec_time_until_reset(e, window) == spec_time_until_reset(RateLimitEntry { last_request: later, ..e }, window)
            + (later - e.last_request),
{
}

/// An allowed request inside a running window reports as reset time what
/// is left of that window after the request: reset plus the time since the
/// window started is the window's length.
pub proof fn law_allowed_request_reports_rest_of_window(e: RateLimitEntry, now: u128, limit: u32, window: nat)
    requires
        e.window_start <= now,
        now - e.window_start < window,
        spec_check(e, now, limit, window).1,
    ensures
        spec_check(e, now, limit, window).3 + (now - e.window_start) == window,
{
}

} // verus!
