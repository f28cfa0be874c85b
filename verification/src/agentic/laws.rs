//! Properties of checkout sessions that span several operations.
use vstd::prelude::*;
use crate::agentic::fsm::{lemma_statuses_distinct, ready, spec_is_terminal};
use crate::agentic::model::{CheckoutSession, CheckoutSessionCompleteRequest, CheckoutSessionUpdateRequest, PaymentData};
use crate::agentic::session::{authorization, completion_refusal, update_refusal};
use crate::agentic::validate::{check_idempotency_key, check_session_open};
use crate::text::trim;

verus! {

/// A completed or canceled session refuses updates, completion and
/// cancellation alike.
pub proof fn law_closed_sessions_stay_closed(
    session: CheckoutSession,
    update: CheckoutSessionUpdateRequest,
    complete: CheckoutSessionCompleteRequest,
    now: i64,
)
    requires
        spec_is_terminal(session.status@),
    ensures
        check_session_open(session, now) is Err,
        update_refusal(session, update, now) is Err,
        completion_refusal(session, complete, now) is Err,
{
}

/// An expired session refuses updates, completion and cancellation.
pub proof fn law_expired_sessions_refuse_changes(
    session: CheckoutSession,
    update: CheckoutSessionUpdateRequest,
    complete: CheckoutSessionCompleteRequest,
    now: i64,
)
    requires
        session.expires_at <= now,
    ensures
        check_session_open(session, now) is Err,
        update_refusal(session, update, now) is Err,
        completion_refusal(session, complete, now) is Err,
{
}

/// Payment is authorized only for sessions that are ready for it, so no
/// session reaches completion without having been ready.
pub proof fn law_authorization_needs_ready_session(session: CheckoutSession, payment: PaymentData)
    requires
        session.status@ != ready(),
    ensures
        authorization(session, payment) is Err,
{
}

/// Keys that differ only in surrounding white space are the same key: they
/// are refused alike or hash alike.
pub proof fn law_idempotency_key_ignores_surrounding_space(a: Seq<char>, b: Seq<char>)
    requires
        trim(a) == trim(b),
    ensures
        check_idempotency_key(a) == check_idempotency_key(b),
{
}

/// Completed and canceled are the terminal statuses, and ready is not one.
pub proof fn law_ready_is_not_terminal()
    ensures
        !spec_is_terminal(ready()),
{
    lemma_statuses_distinct();
}

} // verus!
