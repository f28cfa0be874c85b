//! The life cycle of a checkout session: which status may follow which.
use vstd::prelude::*;
use crate::text::str_eq;

verus! {

pub const NOT_READY_FOR_PAYMENT: &'static str = "not_ready_for_payment";
pub const READY_FOR_PAYMENT: &'static str = "ready_for_payment";
pub const COMPLETED: &'static str = "completed";
pub const CANCELED: &'static str = "canceled";

pub open spec fn not_ready() -> Seq<char> {
    "not_ready_for_payment"@
}

pub open spec fn ready() -> Seq<char> {
    "ready_for_payment"@
}

pub open spec fn completed() -> Seq<char> {
    "completed"@
}

pub open spec fn canceled() -> Seq<char> {
    "canceled"@
}

/// The four statuses are distinct (they have distinct lengths).
pub proof fn lemma_statuses_distinct()
    ensures
        not_ready() != ready(),
        not_ready() != completed(),
        not_ready() != canceled(),
        ready() != completed(),
        ready() != canceled(),
        completed() != canceled(),
{
    reveal_strlit("not_ready_for_payment");
    reveal_strlit("ready_for_payment");
    reveal_strlit("completed");
    reveal_strlit("canceled");
    assert(not_ready().len() == 21);
    assert(ready().len() == 17);
    assert(completed().len() == 9);
    assert(canceled().len() == 8);
}

/// The transitions a session may take: an incomplete session may become
/// ready or be canceled; a ready one may be completed or canceled; completed
/// and canceled sessions go nowhere.
pub open spec fn spec_can_transition(from: Seq<char>, to: Seq<char>) -> bool {
    ||| from == not_ready() && (to == ready() || to == canceled())
    ||| from == ready() && (to == completed() || to == canceled())
}

/// Completed and canceled sessions are final.
pub open spec fn spec_is_terminal(status: Seq<char>) -> bool {
    status == completed() || status == canceled()
}

/// Whether a session may move from status `from` to status `to`.
pub fn can_transition(from: &str, to: &str) -> (r: bool)
    ensures
        r == spec_can_transition(from@, to@),
{
    proof {
        lemma_statuses_distinct();
    }
    if str_eq(from, NOT_READY_FOR_PAYMENT) {
        str_eq(to, READY_FOR_PAYMENT) || str_eq(to, CANCELED)
    } else if str_eq(from, READY_FOR_PAYMENT) {
        str_eq(to, COMPLETED) || str_eq(to, CANCELED)
    } else {
        false
    }
}

/// Whether no further transition is allowed from `status`.
pub fn is_terminal(status: &str) -> (r: bool)
    ensures
        r == spec_is_terminal(status@),
{
    str_eq(status, COMPLETED) || str_eq(status, CANCELED)
}

/// No transition leaves a terminal status.
pub proof fn law_terminal_has_no_successor(from: Seq<char>, to: Seq<char>)
    requires
        spec_is_terminal(from),
    ensures
        !spec_can_transition(from, to),
{
    lemma_statuses_distinct();
}

/// Transitions only move forward: none can be undone.
pub proof fn law_transitions_never_reverse(a: Seq<char>, b: Seq<char>)
    requires
        spec_can_transition(a, b),
    ensures
        !spec_can_transition(b, a),
{
    lemma_statuses_distinct();
}

/// Every session that is still open may be canceled.
pub proof fn law_open_sessions_can_cancel(s: Seq<char>)
    requires
        s == not_ready() || s == ready(),
    ensures
        spec_can_transition(s, canceled()),
{
}

} // verus!
