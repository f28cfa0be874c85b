use stateset_core::agentic::complete::{
    map_payment_method_from_provider, normalize_payment_status, order_permalink, tracking_number_from, tracking_url,
    upsert_link, PaymentMethod,
};
use stateset_core::agentic::fsm::{can_transition, is_terminal, CANCELED, COMPLETED, NOT_READY_FOR_PAYMENT, READY_FOR_PAYMENT};
use stateset_core::agentic::model::{
    Address, Buyer, CheckoutError, CheckoutSession, CheckoutSessionCompleteRequest, CheckoutSessionCreateRequest,
    CheckoutSessionUpdateRequest, Item, Link, PaymentData, PaymentIntentStatus,
};
use stateset_core::agentic::pricing::{
    build_line_items, calculate_totals, calculate_totals_with_promotion, find_total_amount, get_fulfillment_options,
    ProductFacts, PromotionTerms,
};
use stateset_core::agentic::session::{
    apply_update, authorize, cancel, capture, intent_id_from, mark_completed, new_session, prepare_completion,
    strip_hyphens,
};
use stateset_core::agentic::validate::{
    eq_ignore_case, hash_idempotency_key, is_valid_phone, to_ascii_lowercase, to_ascii_uppercase, validate_address,
    validate_buyer, validate_items,
};

const TTL: i64 = 30 * 60 * 1000;

fn buyer() -> Buyer {
    Buyer {
        first_name: "Ada".to_string(),
        last_name: "Lovelace".to_string(),
        email: "ada@example.com".to_string(),
        phone_number: Some("+15551234567".to_string()),
    }
}

fn address() -> Address {
    Address {
        name: "Ada Lovelace".to_string(),
        line_one: "1 Analytical Way".to_string(),
        line_two: None,
        city: "London".to_string(),
        state: "LDN".to_string(),
        country: "GB".to_string(),
        postal_code: "N1 1AA".to_string(),
        phone: None,
        email: None,
    }
}

fn item(id: &str, quantity: i32) -> Item {
    Item { id: id.to_string(), quantity }
}

fn facts(price: i64) -> Option<ProductFacts> {
    Some(ProductFacts { price: Some(price), name: "Widget".to_string(), sku: "W-1".to_string(), image_url: None })
}

fn open_session(now: i64) -> CheckoutSession {
    let items = vec![item("sku-123", 2)];
    let line_items = build_line_items(&items, &vec![facts(1500)]).unwrap();
    let request = CheckoutSessionCreateRequest {
        buyer: Some(buyer()),
        items,
        fulfillment_address: Some(address()),
        promotion_code: None,
    };
    new_session("cs_1".to_string(), request, line_items, None, now, TTL)
}

fn payment() -> PaymentData {
    PaymentData { token: "tok_123".to_string(), provider: "stripe".to_string(), billing_address: None }
}

fn message(e: &CheckoutError) -> String {
    e.message()
}

#[test]
fn status_transitions() {
    assert!(can_transition(NOT_READY_FOR_PAYMENT, READY_FOR_PAYMENT));
    assert!(can_transition(NOT_READY_FOR_PAYMENT, CANCELED));
    assert!(can_transition(READY_FOR_PAYMENT, COMPLETED));
    assert!(!can_transition(READY_FOR_PAYMENT, NOT_READY_FOR_PAYMENT));
    assert!(!can_transition(COMPLETED, CANCELED));
    assert!(!can_transition(CANCELED, READY_FOR_PAYMENT));
    assert!(is_terminal(COMPLETED) && is_terminal(CANCELED));
    assert!(!is_terminal(READY_FOR_PAYMENT));
}

#[test]
fn item_validation() {
    assert!(validate_items(&vec![item("sku-1", 1)]).is_ok());
    assert!(validate_items(&vec![]).is_err());
    assert!(validate_items(&vec![item("sku-1", 0)]).is_err());
    assert!(validate_items(&vec![item("sku-1", 100)]).is_err());
    assert!(validate_items(&vec![item("bad id", 1)]).is_err());
}

#[test]
fn buyer_and_address_validation() {
    assert!(validate_buyer(&buyer()).is_ok());
    let mut b = buyer();
    b.email = "not-an-email".to_string();
    match validate_buyer(&b) {
        Err(CheckoutError::ValidationError(m)) => assert!(m.contains("email")),
        other => panic!("unexpected {:?}", other),
    }
    let mut b = buyer();
    b.phone_number = Some("12".to_string());
    assert!(validate_buyer(&b).is_err());
    assert!(validate_address(&address()).is_ok());
    let mut a = address();
    a.country = "GBR".to_string();
    assert_eq!(
        message(&validate_address(&a).unwrap_err()),
        "fulfillment_address.country must be a two-character ISO country code"
    );
    assert!(is_valid_phone("+1 (555) 123-4567"));
    assert!(!is_valid_phone("abc"));
}

#[test]
fn idempotency_keys_hash_to_hex_sha256() {
    let h = hash_idempotency_key("  idem-key-1234 ").unwrap();
    assert_eq!(h.len(), 64);
    assert_ne!(h, "idem-key-1234");
    assert_eq!(h, hash_idempotency_key("idem-key-1234").unwrap());
    assert_eq!(
        hash_idempotency_key("abcdefgh").unwrap(),
        "9c56cc51b374c3ba189210d5b6d4bf57790d351c96c47c02190ecf1e430635ab"
    );
    assert!(hash_idempotency_key("short").is_err());
    assert!(hash_idempotency_key("with space inside").is_err());
}

#[test]
fn ascii_case_helpers() {
    assert_eq!(to_ascii_lowercase("AbC-1"), "abc-1");
    assert_eq!(to_ascii_uppercase("AbC-1"), "ABC-1");
    assert!(eq_ignore_case("Stripe", "sTRIPE"));
    assert!(!eq_ignore_case("Stripe", "Stripes"));
}

#[test]
fn line_items_and_totals() {
    let items = vec![item("sku-1", 2), item("sku-2", 1)];
    let lines = build_line_items(&items, &vec![facts(1500), None]).unwrap();
    assert_eq!(lines.len(), 2);
    assert_eq!(lines[0].base_amount, 3000);
    assert_eq!(lines[0].title, "Widget");
    assert_eq!(lines[1].unit_price.amount, 5000);
    assert_eq!(lines[1].title, "Product sku-2");
    let totals = calculate_totals(&lines, None);
    assert_eq!(totals.len(), 4);
    assert_eq!(find_total_amount(&totals, "items_base_amount"), Some(8000));
    assert_eq!(find_total_amount(&totals, "fulfillment"), None);
    assert_eq!(find_total_amount(&totals, "total"), Some(8000));
    let with_shipping = calculate_totals(&lines, Some("standard_shipping"));
    assert_eq!(find_total_amount(&with_shipping, "fulfillment"), Some(1000));
    assert_eq!(find_total_amount(&with_shipping, "total"), Some(9000));
    let promo = PromotionTerms { code: "SAVE10".to_string(), discount: 800, free_shipping: true };
    let promoted = calculate_totals_with_promotion(&lines, Some("standard_shipping"), Some(&promo));
    assert_eq!(promoted[1].display_text, "Discount (SAVE10)");
    assert_eq!(find_total_amount(&promoted, "items_discount"), Some(-800));
    assert_eq!(find_total_amount(&promoted, "subtotal"), Some(7200));
    assert_eq!(find_total_amount(&promoted, "total"), Some(7200));
}

#[test]
fn fulfillment_options_need_an_address() {
    assert!(get_fulfillment_options(None).is_empty());
    assert_eq!(get_fulfillment_options(Some(&address())).len(), 2);
}

#[test]
fn session_lifecycle() {
    let session = open_session(1_000);
    assert_eq!(session.status, READY_FOR_PAYMENT);
    assert_eq!(session.expires_at, 1_000 + TTL);
    assert_eq!(session.fulfillment_options.len(), 2);

    let update = CheckoutSessionUpdateRequest {
        buyer: None,
        items: None,
        fulfillment_address: None,
        fulfillment_option_id: Some("express_shipping".to_string()),
        promotion_code: None,
    };
    let session = apply_update(session, update, None, 2_000, TTL).unwrap();
    assert_eq!(session.fulfillment_option_id.as_deref(), Some("express_shipping"));
    assert_eq!(find_total_amount(&session.totals, "total"), Some(4000));
    assert_eq!(session.expires_at, 2_000 + TTL);

    let request = CheckoutSessionCompleteRequest { buyer: None, payment_data: payment() };
    let mut session = prepare_completion(session, &request, 3_000).unwrap();
    let intent = authorize(&session, &request.payment_data, 3_000).unwrap();
    assert_eq!(intent.amount, 4000);
    assert_eq!(intent.status, PaymentIntentStatus::Authorized);
    let captured = capture(intent).unwrap();
    assert_eq!(captured.status, PaymentIntentStatus::Captured);
    assert!(capture(captured.clone()).is_err());

    mark_completed(&mut session, 4_000, TTL);
    assert_eq!(session.status, COMPLETED);
    assert!(cancel(session.clone(), 5_000).is_err());
    assert!(prepare_completion(session, &request, 5_000).is_err());
}

#[test]
fn expired_and_canceled_sessions_are_refused() {
    let session = open_session(0);
    let canceled = cancel(session.clone(), 10).unwrap();
    assert_eq!(canceled.status, CANCELED);
    assert_eq!(canceled.canceled_at, Some(10));
    assert!(cancel(canceled, 11).is_err());
    assert!(cancel(session, TTL + 1).is_err());
}

#[test]
fn completion_needs_a_chosen_option_and_matching_provider() {
    let session = open_session(0);
    let request = CheckoutSessionCompleteRequest { buyer: None, payment_data: payment() };
    match prepare_completion(session.clone(), &request, 1) {
        Err(CheckoutError::InvalidOperation(m)) => assert_eq!(m, "Fulfillment option required"),
        other => panic!("unexpected {:?}", other),
    }
    let update = CheckoutSessionUpdateRequest {
        buyer: None,
        items: None,
        fulfillment_address: None,
        fulfillment_option_id: Some("standard_shipping".to_string()),
        promotion_code: None,
    };
    let session = apply_update(session, update, None, 1, TTL).unwrap();
    let mut other = payment();
    other.provider = "adyen".to_string();
    let request = CheckoutSessionCompleteRequest { buyer: None, payment_data: other };
    assert!(prepare_completion(session, &request, 2).is_err());
}

#[test]
fn ids_and_links() {
    assert_eq!(strip_hyphens("ab-cd-ef"), "abcdef");
    assert!(intent_id_from("12345678-1234").starts_with("pi_"));
    assert_eq!(map_payment_method_from_provider("stripe"), PaymentMethod::CreditCard);
    assert_eq!(normalize_payment_status("Succeeded"), "paid");
    assert_eq!(normalize_payment_status("CANCELED"), "cancelled");
    assert_eq!(normalize_payment_status("paid"), "pending");
    assert!(order_permalink("ORD-1", "o-1").contains("ORD-1"));
    assert!(tracking_url(&tracking_number_from("abcdef12-3456")).contains(&tracking_number_from("abcdef12-3456")));
    let mut links: Vec<Link> = vec![];
    upsert_link(&mut links, "order", "https://a".to_string());
    upsert_link(&mut links, "order", "https://b".to_string());
    assert_eq!(links.len(), 1);
    assert_eq!(links[0].url, "https://b");
}
