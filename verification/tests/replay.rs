use stateset_core::agentic::model::CheckoutError;
use stateset_core::agentic::replay::{decide_replay, idempotency_cache_key, ReplayDecision, ReplayLookup};

#[test]
fn replay_cache_key() {
    assert_eq!(idempotency_cache_key("ab12"), "checkout_idem:ab12");
}

#[test]
fn replay_decisions() {
    assert!(matches!(decide_replay(ReplayLookup::NoKey), ReplayDecision::Create));
    assert!(matches!(decide_replay(ReplayLookup::Miss), ReplayDecision::Create));
    match decide_replay(ReplayLookup::CacheFailed("down".to_string())) {
        ReplayDecision::Fail(CheckoutError::CacheError(m)) => assert_eq!(m, "down"),
        other => panic!("unexpected {:?}", other),
    }
    assert!(matches!(
        decide_replay(ReplayLookup::LoadFailed(CheckoutError::NotFound("gone".to_string()))),
        ReplayDecision::ForgetAndCreate
    ));
    match decide_replay(ReplayLookup::LoadFailed(CheckoutError::InternalError("x".to_string()))) {
        ReplayDecision::Fail(CheckoutError::InternalError(m)) => assert_eq!(m, "x"),
        other => panic!("unexpected {:?}", other),
    }
}
