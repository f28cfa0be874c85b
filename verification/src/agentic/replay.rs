//! Idempotent session creation: what a repeated create request does, given
//! what the cache and the session store answered for its key.
use vstd::prelude::*;
use crate::agentic::model::{CheckoutError, CheckoutSession};
use crate::text::concat;

verus! {

/// The cache entry under which the session made for an idempotency key
/// (its hash) is remembered: `checkout_idem:<hash>`.
pub fn idempotency_cache_key(hash: &str) -> (k: String)
    ensures
        k@ == "checkout_idem:"@ + hash@,
{
    concat("checkout_idem:", hash)
}

/// What looking up an idempotency key gave.
#[derive(Debug, Clone)]
pub enum ReplayLookup {
    /// The request carries no idempotency key.
    NoKey,
    /// The cache holds nothing under the key.
    Miss,
    /// Reading the cache failed, with this message.
    CacheFailed(String),
    /// The cache named a session, and it was loaded.
    Found(CheckoutSession),
    /// The cache named a session, and loading it failed with this error.
    LoadFailed(CheckoutError),
}

/// What creating a session does next.
#[derive(Debug, Clone)]
pub enum ReplayDecision {
    /// Answer with the session made earlier for the same key; nothing is
    /// created.
    Replay(CheckoutSession),
    /// The session the key named is gone: drop the cache entry, then create.
    ForgetAndCreate,
    /// Create a new session.
    Create,
    /// Refuse with this error.
    Fail(CheckoutError),
}

/// A repeated key replays the session it made; a key whose session is gone
/// is forgotten and a new session made; a failing cache or store refuses
/// the request with its error; without a key, or a key not seen before, a
/// session is made.
pub fn decide_replay(lookup: ReplayLookup) -> (d: ReplayDecision)
    ensures
        match lookup {
            ReplayLookup::NoKey => d is Create,
            ReplayLookup::Miss => d is Create,
            ReplayLookup::CacheFailed(m) => d matches ReplayDecision::Fail(CheckoutError::CacheError(x)) && x == m,
            ReplayLookup::Found(s) => d matches ReplayDecision::Replay(x) && x == s,
            ReplayLookup::LoadFailed(CheckoutError::NotFound(_)) => d is ForgetAndCreate,
            ReplayLookup::LoadFailed(e) => d matches ReplayDecision::Fail(x) && x == e,
        },
{
    match lookup {
        ReplayLookup::NoKey => ReplayDecision::Create,
        ReplayLookup::Miss => ReplayDecision::Create,
        ReplayLookup::CacheFailed(m) => ReplayDecision::Fail(CheckoutError::CacheError(m)),
        ReplayLookup::Found(s) => ReplayDecision::Replay(s),
        ReplayLookup::LoadFailed(CheckoutError::NotFound(_)) => ReplayDecision::ForgetAndCreate,
        ReplayLookup::LoadFailed(e) => ReplayDecision::Fail(e),
    }
}

} // verus!
