//! Per-request decisions: which key a request is counted under, which limit
//! applies to it, and whether it is counted at all.
use std::time::Duration;
use vstd::prelude::*;
use vstd::hash_map::StringHashMap;
use crate::clock::{duration_eq, duration_nanos};
use crate::rate_limiter::policy::PathPolicy;
use crate::rate_limiter::window::{RateLimitConfig, RateLimitResult};
use crate::clock::{secs_of, NANOS_PER_SEC};
use crate::num::{dec_str, push_u128};
use crate::text::{chars_of, is_prefix, owned, push_str, split, split_chars, str_eq, str_starts_with, string_of, trim, trim_bounds};

verus! {

fn prefixed(lead: &str, rest: &str) -> (s: String)
    ensures
        s@ == lead@ + rest@,
{
    let mut s = String::new();
    push_str(&mut s, lead);
    push_str(&mut s, rest);
    assert(s@ =~= lead@ + rest@);
    s
}

/// The key of a client address: `ip:<address>`.
pub fn get_rate_limit_key_for_ip(ip: &str) -> (s: String)
    ensures
        s@ == "ip:"@ + ip@,
{
    prefixed("ip:", ip)
}

/// The key of an authenticated user: `user:<id>`.
pub fn get_rate_limit_key_for_user(user_id: &str) -> (s: String)
    ensures
        s@ == "user:"@ + user_id@,
{
    prefixed("user:", user_id)
}

/// The key of an API key: `api_key:<key>`.
pub fn get_rate_limit_key_for_api_key(api_key: &str) -> (s: String)
    ensures
        s@ == "api_key:"@ + api_key@,
{
    prefixed("api_key:", api_key)
}

/// The address key of a request from its `x-forwarded-for` and `x-real-ip`
/// headers (each `None` when absent or not visible ASCII): the first
/// forwarded address, trimmed; else the real IP; else `ip:unknown`.
pub fn ip_key(forwarded: Option<&str>, real_ip: Option<&str>) -> (s: String)
    ensures
        s@ == match forwarded {
            Some(f) => "ip:"@ + trim(split(f@, ',')[0]),
            None => match real_ip {
                Some(r) => "ip:"@ + r@,
                None => "ip:unknown"@,
            },
        },
{
    match forwarded {
        Some(f) => {
            let fv = chars_of(f);
            let parts = split_chars(&fv, ',');
            proof { crate::text::lemma_split_nonempty(f@, ','); }
            let ghost pv = parts.deep_view();
            assert(pv[0] =~= parts@[0]@);
            let (a, b) = trim_bounds(&parts[0]);
            let first = string_of(&parts[0], a, b);
            get_rate_limit_key_for_ip(first.as_str())
        },
        None => match real_ip {
            Some(r) => get_rate_limit_key_for_ip(r),
            None => owned("ip:unknown"),
        },
    }
}

/// The token of an `Authorization` header value `Bearer <token>`, trimmed.
pub fn bearer_token(raw: &str) -> (r: Option<String>)
    ensures
        match r {
            Some(t) => is_prefix("Bearer "@, raw@) && t@ == trim(raw@.subrange(7, raw@.len() as int)),
            None => !is_prefix("Bearer "@, raw@),
        },
{
    let lead = chars_of("Bearer ");
    proof { reveal_strlit("Bearer "); }
    let rv = chars_of(raw);
    if !crate::text::starts_with(&rv, &lead) {
        return None;
    }
    let rest = string_of(&rv, 7, rv.len());
    Some(crate::text::trim_string(rest.as_str()))
}

/// The user key of a request: from the authenticated user set by the auth
/// layer, else from the subject of a valid bearer token, else from the
/// `x-user-id` header.
pub fn user_key(auth_user_id: Option<&str>, token_subject: Option<&str>, header_user: Option<&str>) -> (r: Option<String>)
    ensures
        match r {
            Some(k) => k@ == "user:"@ + match auth_user_id {
                Some(a) => a@,
                None => match token_subject {
                    Some(t) => t@,
                    None => header_user.unwrap()@,
                },
            },
            None => auth_user_id is None && token_subject is None && header_user is None,
        },
{
    if let Some(a) = auth_user_id {
        return Some(get_rate_limit_key_for_user(a));
    }
    if let Some(t) = token_subject {
        return Some(get_rate_limit_key_for_user(t));
    }
    if let Some(h) = header_user {
        return Some(get_rate_limit_key_for_user(h));
    }
    None
}

/// The API-key key of a request from its `x-api-key` header.
pub fn api_key_key(header: Option<&str>) -> (r: Option<String>)
    ensures
        match r {
            Some(k) => header is Some && k@ == "api_key:"@ + header.unwrap()@,
            None => header is None,
        },
{
    match header {
        Some(h) => Some(get_rate_limit_key_for_api_key(h)),
        None => None,
    }
}

/// The key a request is counted under: its API key, else its user, else its
/// address.
pub fn select_key(api_key: Option<String>, user: Option<String>, ip: String) -> (r: String)
    ensures
        r@ == match api_key {
            Some(k) => k@,
            None => match user {
                Some(u) => u@,
                None => ip@,
            },
        },
{
    match api_key {
        Some(k) => k,
        None => match user {
            Some(u) => u,
            None => ip,
        },
    }
}

/// Paths that are never rate limited: health, metrics, documentation and
/// version discovery.
pub open spec fn spec_is_exempt(path: Seq<char>) -> bool {
    ||| is_prefix("/health"@, path)
    ||| path == "/metrics"@
    ||| is_prefix("/metrics/"@, path)
    ||| is_prefix("/docs"@, path)
    ||| is_prefix("/api-docs"@, path)
    ||| is_prefix("/api/versions"@, path)
}

pub fn is_exempt_path(path: &str) -> (r: bool)
    ensures
        r == spec_is_exempt(path@),
{
    str_starts_with(path, "/health") || str_eq(path, "/metrics") || str_starts_with(path, "/metrics/")
        || str_starts_with(path, "/docs") || str_starts_with(path, "/api-docs")
        || str_starts_with(path, "/api/versions")
}

/// The kind of a key, for metrics: `api_key`, `user` or `ip`.
pub fn key_type(key: &str) -> (r: &'static str)
    ensures
        r@ == (if is_prefix("api_key:"@, key@) {
            "api_key"@
        } else if is_prefix("user:"@, key@) {
            "user"@
        } else {
            "ip"@
        }),
{
    if str_starts_with(key, "api_key:") {
        "api_key"
    } else if str_starts_with(key, "user:") {
        "user"
    } else {
        "ip"
    }
}

/// The part of `key` after `lead`, when `key` starts with it.
fn strip_prefix(key: &str, lead: &str) -> (r: Option<String>)
    ensures
        match r {
            Some(rest) => is_prefix(lead@, key@) && rest@ == key@.subrange(lead@.len() as int, key@.len() as int),
            None => !is_prefix(lead@, key@),
        },
{
    let kv = chars_of(key);
    let lv = chars_of(lead);
    if crate::text::starts_with(&kv, &lv) {
        Some(string_of(&kv, lv.len(), kv.len()))
    } else {
        None
    }
}

/// The first policy, in order, whose prefix starts `path`.
pub open spec fn first_policy(ps: Seq<PathPolicy>, path: Seq<char>) -> Option<PathPolicy>
    decreases ps.len(),
{
    if ps.len() == 0 {
        None
    } else if is_prefix(ps[0].prefix@, path) {
        Some(ps[0])
    } else {
        first_policy(ps.drop_first(), path)
    }
}

/// The limit and window that a per-key map sets for `key` when `key`
/// starts with `lead`, or `current` otherwise.
pub open spec fn keyed_override(
    current: (u32, Duration),
    key: Seq<char>,
    lead: Seq<char>,
    m: Map<Seq<char>, (u32, Duration)>,
) -> (u32, Duration) {
    if is_prefix(lead, key) && m.contains_key(key.subrange(lead.len() as int, key.len() as int)) {
        m[key.subrange(lead.len() as int, key.len() as int)]
    } else {
        current
    }
}

/// The limit and window that apply to a request counted under `key` on
/// `path`: an API-key policy, else a user policy, else — while neither has
/// moved the limit or window off the base — the first matching path policy,
/// else the base.
pub open spec fn spec_effective(
    base: (u32, Duration),
    key: Seq<char>,
    api: Map<Seq<char>, (u32, Duration)>,
    users: Map<Seq<char>, (u32, Duration)>,
    policies: Seq<PathPolicy>,
    path: Seq<char>,
) -> (u32, Duration) {
    let a = keyed_override(base, key, "api_key:"@, api);
    let u = keyed_override(a, key, "user:"@, users);
    if u.0 == base.0 && duration_nanos(u.1) == duration_nanos(base.1) {
        match first_policy(policies, path) {
            Some(p) => (p.requests_per_window, p.window_duration),
            None => u,
        }
    } else {
        u
    }
}

/// The position of the first policy whose prefix starts `path`.
fn first_policy_index(ps: &Vec<PathPolicy>, path: &str) -> (r: Option<usize>)
    ensures
        match r {
            Some(i) => i < ps.len() && first_policy(ps@, path@) == Some(ps@[i as int]),
            None => first_policy(ps@, path@) is None,
        },
{
    let n = ps.len();
    let pv = chars_of(path);
    let mut i: usize = 0;
    assert(ps@.subrange(0, n as int) =~= ps@);
    while i < n
        invariant
            i <= n == ps.len(),
            pv@ == path@,
            first_policy(ps@, path@) == first_policy(ps@.subrange(i as int, n as int), path@),
        decreases n - i,
    {
        let prefix = chars_of(ps[i].prefix.as_str());
        assert(ps@.subrange(i as int, n as int).drop_first() =~= ps@.subrange(i + 1, n as int));
        if crate::text::starts_with(&pv, &prefix) {
            return Some(i);
        }
        i = i + 1;
    }
    None
}

/// The configuration that applies to one request (see `spec_effective`);
/// burst limit and headers are those of `base`.
pub fn effective_config(
    base: &RateLimitConfig,
    key: &str,
    api_key_policies: &StringHashMap<(u32, Duration)>,
    user_policies: &StringHashMap<(u32, Duration)>,
    path_policies: &Vec<PathPolicy>,
    path: &str,
) -> (r: RateLimitConfig)
    ensures
        (r.requests_per_window, r.window_duration) == spec_effective(
            (base.requests_per_window, base.window_duration),
            key@,
            api_key_policies@,
            user_policies@,
            path_policies@,
            path@,
        ),
        r.burst_limit == base.burst_limit,
        r.enable_headers == base.enable_headers,
{
    let mut effective = base.clone();
    proof { reveal_strlit("api_key:"); reveal_strlit("user:"); }
    if let Some(api_key) = strip_prefix(key, "api_key:") {
        if let Some(v) = api_key_policies.get(api_key.as_str()) {
            effective.requests_per_window = v.0;
            effective.window_duration = v.1.clone();
        }
    }
    if let Some(user_id) = strip_prefix(key, "user:") {
        if let Some(v) = user_policies.get(user_id.as_str()) {
            effective.requests_per_window = v.0;
            effective.window_duration = v.1.clone();
        }
    }
    if effective.requests_per_window == base.requests_per_window && duration_eq(
        &effective.window_duration,
        &base.window_duration,
    ) {
        if let Some(i) = first_policy_index(path_policies, path) {
            effective.requests_per_window = path_policies[i].requests_per_window;
            effective.window_duration = path_policies[i].window_duration.clone();
        }
    }
    effective
}

/// Whether a request's configuration differs from the base, so that a
/// limiter with that configuration (over the same store) is used.
pub fn uses_override(effective: &RateLimitConfig, base: &RateLimitConfig) -> (r: bool)
    ensures
        r == (effective.requests_per_window != base.requests_per_window || duration_nanos(
            effective.window_duration,
        ) != duration_nanos(base.window_duration)),
{
    effective.requests_per_window != base.requests_per_window || !duration_eq(
        &effective.window_duration,
        &base.window_duration,
    )
}

/// What the limiter does with a request: lets an exempt path through
/// unchecked, or checks `key` under `config` (a configuration other than
/// the base one when `overridden`).
#[derive(Debug)]
pub enum RequestPlan {
    Exempt,
    Check { key: String, config: RateLimitConfig, overridden: bool },
}

/// The plan for a request on `path` whose candidate keys are `api_key`,
/// `user` and `ip` (see `select_key` and `effective_config`).
pub fn plan_request(
    path: &str,
    api_key: Option<String>,
    user: Option<String>,
    ip: String,
    base: &RateLimitConfig,
    api_key_policies: &StringHashMap<(u32, Duration)>,
    user_policies: &StringHashMap<(u32, Duration)>,
    path_policies: &Vec<PathPolicy>,
) -> (r: RequestPlan)
    ensures
        match r {
            RequestPlan::Exempt => spec_is_exempt(path@),
            RequestPlan::Check { key, config, overridden } => {
                &&& !spec_is_exempt(path@)
                &&& key@ == match api_key {
                    Some(k) => k@,
                    None => match user {
                        Some(u) => u@,
                        None => ip@,
                    },
                }
                &&& (config.requests_per_window, config.window_duration) == spec_effective(
                    (base.requests_per_window, base.window_duration),
                    key@,
                    api_key_policies@,
                    user_policies@,
                    path_policies@,
                    path@,
                )
                &&& config.burst_limit == base.burst_limit
                &&& config.enable_headers == base.enable_headers
                &&& overridden == (config.requests_per_window != base.requests_per_window || duration_nanos(
                    config.window_duration,
                ) != duration_nanos(base.window_duration))
            },
        },
{
    if is_exempt_path(path) {
        return RequestPlan::Exempt;
    }
    let key = select_key(api_key, user, ip);
    let config = effective_config(base, key.as_str(), api_key_policies, user_policies, path_policies, path);
    let overridden = uses_override(&config, base);
    RequestPlan::Check { key, config, overridden }
}

/// A header name and its value.
pub open spec fn header(name: Seq<char>, value: nat) -> (Seq<char>, Seq<char>) {
    (name, dec_str(value))
}

/// The rate limit headers of a response: limit, remaining quota (none
/// after a refusal) and whole seconds until the window resets, as
/// `X-RateLimit-*` headers and, when `rfc` is set, again as `RateLimit-*`
/// headers.
pub open spec fn limit_headers(limit: nat, remaining: nat, reset_secs: nat, rfc: bool) -> Seq<(Seq<char>, Seq<char>)> {
    let x = seq![
        header("X-RateLimit-Limit"@, limit),
        header("X-RateLimit-Remaining"@, remaining),
        header("X-RateLimit-Reset"@, reset_secs),
    ];
    if rfc {
        x + seq![
            header("RateLimit-Limit"@, limit),
            header("RateLimit-Remaining"@, remaining),
            header("RateLimit-Reset"@, reset_secs),
        ]
    } else {
        x
    }
}

fn header_pair(name: &str, value: u64) -> (h: (String, String))
    ensures
        h.0@ == name@,
        h.1@ == dec_str(value as nat),
{
    let mut v = String::new();
    push_u128(&mut v, value as u128);
    assert(v@ =~= dec_str(value as nat));
    (owned(name), v)
}

/// The rate limit headers for `result` (see `limit_headers`).
pub fn rate_limit_headers(result: &RateLimitResult, rfc: bool) -> (hs: Vec<(String, String)>)
    ensures
        hs.deep_view() == limit_headers(
            result.limit as nat,
            if result.allowed { result.remaining as nat } else { 0 },
            duration_nanos(result.reset_time) / (NANOS_PER_SEC as nat),
            rfc,
        ),
{
    let remaining: u64 = if result.allowed { result.remaining as u64 } else { 0 };
    let reset = secs_of(&result.reset_time);
    let mut hs: Vec<(String, String)> = Vec::new();
    hs.push(header_pair("X-RateLimit-Limit", result.limit as u64));
    hs.push(header_pair("X-RateLimit-Remaining", remaining));
    hs.push(header_pair("X-RateLimit-Reset", reset));
    if rfc {
        hs.push(header_pair("RateLimit-Limit", result.limit as u64));
        hs.push(header_pair("RateLimit-Remaining", remaining));
        hs.push(header_pair("RateLimit-Reset", reset));
    }
    assert(hs.deep_view() =~= limit_headers(
        result.limit as nat,
        if result.allowed { result.remaining as nat } else { 0 },
        duration_nanos(result.reset_time) / (NANOS_PER_SEC as nat),
        rfc,
    ));
    hs
}

/// The answer to a checked request: a refusal (status 429, its body text
/// and headers), or the request goes on and its response gets the headers.
#[derive(Debug)]
pub enum RequestOutcome {
    Refuse { status: u16, body: &'static str, headers: Vec<(String, String)> },
    Forward { headers: Vec<(String, String)> },
}

/// What to do after checking a request: refuse it when the check did not
/// allow it, else let it through; headers only when `enable_headers`.
pub fn respond(result: &RateLimitResult, enable_headers: bool, rfc: bool) -> (o: RequestOutcome)
    ensures
        match o {
            RequestOutcome::Refuse { status, body, headers } => {
                &&& !result.allowed
                &&& status == 429
                &&& body@ == "Rate limit exceeded"@
                &&& headers.deep_view() == (if enable_headers {
                    limit_headers(result.limit as nat, 0, duration_nanos(result.reset_time) / (NANOS_PER_SEC as nat), rfc)
                } else {
                    Seq::empty()
                })
            },
            RequestOutcome::Forward { headers } => {
                &&& result.allowed
                &&& headers.deep_view() == (if enable_headers {
                    limit_headers(
                        result.limit as nat,
                        result.remaining as nat,
                        duration_nanos(result.reset_time) / (NANOS_PER_SEC as nat),
                        rfc,
                    )
                } else {
                    Seq::empty()
                })
            },
        },
{
    let headers = if enable_headers {
        rate_limit_headers(result, rfc)
    } else {
        let hs: Vec<(String, String)> = Vec::new();
        assert(hs.deep_view() =~= Seq::<(Seq<char>, Seq<char>)>::empty());
        hs
    };
    if !result.allowed {
        RequestOutcome::Refuse { status: 429, body: "Rate limit exceeded", headers }
    } else {
        RequestOutcome::Forward { headers }
    }
}

} // verus!
