use stateset_core::agentic::complete::{
    build_order_item_inputs, completion_plan, derive_recipient_name, order_fulfillment_status, order_item_plan,
    record_completion, CompletionRecord, PaymentMethod, ShippingMethod,
};
use stateset_core::agentic::model::{
    Address, Buyer, CheckoutError, CheckoutSession, CheckoutSessionCompleteRequest, CheckoutSessionCreateRequest,
    CheckoutSessionUpdateRequest, Item, Message, PaymentData,
};
use stateset_core::agentic::pricing::{build_line_items, ProductFacts};
use stateset_core::agentic::session::{apply_update, new_session};
use stateset_core::agentic::validate::validate_create_request;

const TTL: i64 = 30 * 60 * 1000;

fn buyer() -> Buyer {
    Buyer {
        first_name: " Ada ".to_string(),
        last_name: "Lovelace".to_string(),
        email: "ada@example.com".to_string(),
        phone_number: None,
    }
}

fn address(name: &str) -> Address {
    Address {
        name: name.to_string(),
        line_one: "1 Analytical Way".to_string(),
        line_two: None,
        city: "London".to_string(),
        state: "LDN".to_string(),
        country: "GB".to_string(),
        postal_code: "N1 1AA".to_string(),
        phone: None,
        email: None,
    }
}

fn facts(price: i64) -> Option<ProductFacts> {
    Some(ProductFacts { price: Some(price), name: "Widget".to_string(), sku: "W-1".to_string(), image_url: None })
}

fn session_with(option: Option<&str>, address_name: &str) -> CheckoutSession {
    let items = vec![Item { id: "sku-123".to_string(), quantity: 2 }];
    let line_items = build_line_items(&items, &vec![facts(1500)]).unwrap();
    let request = CheckoutSessionCreateRequest {
        buyer: Some(buyer()),
        items,
        fulfillment_address: Some(address(address_name)),
        promotion_code: None,
    };
    let session = new_session("cs_9".to_string(), request, line_items, None, 0, TTL);
    match option {
        None => session,
        Some(id) => {
            let update = CheckoutSessionUpdateRequest {
                buyer: None,
                items: None,
                fulfillment_address: None,
                fulfillment_option_id: Some(id.to_string()),
                promotion_code: None,
            };
            apply_update(session, update, None, 1, TTL).unwrap()
        }
    }
}

fn complete_request(provider: &str) -> CheckoutSessionCompleteRequest {
    CheckoutSessionCompleteRequest {
        buyer: None,
        payment_data: PaymentData { token: "tok".to_string(), provider: provider.to_string(), billing_address: None },
    }
}

#[test]
fn completion_plan_with_express_shipping() {
    let session = session_with(Some("express_shipping"), "Ada Lovelace");
    let plan = completion_plan(&session, &complete_request("stripe")).unwrap();
    assert_eq!(plan.total_cents, 4000);
    assert_eq!(plan.currency, "USD");
    assert_eq!(plan.shipping_method, Some(ShippingMethod::Express));
    assert_eq!(plan.shipping_label.as_deref(), Some("Express Shipping"));
    assert_eq!(plan.fulfillment_status, "unfulfilled");
    assert_eq!(plan.payment_method, PaymentMethod::CreditCard);
}

#[test]
fn completion_plan_without_a_total_is_refused() {
    let mut session = session_with(None, "Ada Lovelace");
    session.totals.clear();
    match completion_plan(&session, &complete_request("stripe")) {
        Err(CheckoutError::InvalidOperation(m)) => assert_eq!(m, "Checkout session totals missing grand total amount"),
        other => panic!("unexpected {:?}", other.map(|p| p.total_cents)),
    }
}

#[test]
fn recipient_name_prefers_the_address() {
    assert_eq!(derive_recipient_name(&session_with(None, "Grace Hopper")).as_deref(), Some("Grace Hopper"));
    assert_eq!(derive_recipient_name(&session_with(None, "  ")).as_deref(), Some("Ada Lovelace"));
    let mut no_names = session_with(None, "");
    if let Some(b) = no_names.buyer.as_mut() {
        b.first_name = " ".to_string();
        b.last_name = "".to_string();
    }
    assert_eq!(derive_recipient_name(&no_names).as_deref(), Some("ada@example.com"));
}

#[test]
fn order_fulfillment_status_after_shipment() {
    assert_eq!(order_fulfillment_status(true, "unfulfilled"), "processing");
    assert_eq!(order_fulfillment_status(false, "fulfilled"), "fulfilled");
}

fn record() -> CompletionRecord {
    CompletionRecord {
        order_id: "o-1".to_string(),
        order_number: "ORD-42".to_string(),
        order_status: "confirmed".to_string(),
        payment_status: "paid".to_string(),
        fulfillment_status: "unfulfilled".to_string(),
        order_payment_method: Some("credit_card".to_string()),
        order_shipping_method: Some("express".to_string()),
        order_tracking_number: Some("trk_1".to_string()),
        payment_id: "pay-1".to_string(),
        payment_method: "CARD".to_string(),
        invoice_id: "inv-1".to_string(),
        cash_sale_id: "cs-1".to_string(),
        shipment_id: Some("sh-1".to_string()),
        tracking_number: Some("trk_1".to_string()),
    }
}

#[test]
fn recording_completion_updates_the_session() {
    let mut session = session_with(Some("express_shipping"), "Ada Lovelace");
    let before = session.messages.len();
    let order = record_completion(&mut session, "stripe", &record());
    assert_eq!(order.id, "o-1");
    assert_eq!(order.checkout_session_id, "cs_9");
    assert_eq!(order.permalink_url, "https://merchant.example.com/orders/ORD-42");
    assert_eq!(order.tracking_number.as_deref(), Some("trk_1"));
    assert_eq!(session.order_id.as_deref(), Some("o-1"));
    assert_eq!(session.shipment_id.as_deref(), Some("sh-1"));
    let provider = session.payment_provider.as_ref().unwrap();
    assert_eq!(provider.provider, "stripe");
    assert_eq!(provider.supported_payment_methods, vec!["card".to_string()]);
    assert_eq!(session.messages.len(), before + 1);
    match session.messages.last().unwrap() {
        Message::Info(m) => {
            assert_eq!(m.content, "Order ORD-42 confirmed. Invoice inv-1 and payment pay-1 recorded.");
            assert_eq!(m.param.as_deref(), Some("ORD-42"));
        }
        _ => panic!("expected an info message"),
    }
    assert_eq!(session.links.iter().filter(|l| l.link_type == "order").count(), 1);
    assert!(session.links.iter().any(|l| l.link_type == "order" && l.url == order.permalink_url));
    let again = record_completion(&mut session, "stripe", &record());
    assert_eq!(session.links.iter().filter(|l| l.link_type == "order").count(), 1);
    assert_eq!(again.permalink_url, order.permalink_url);
    assert!(session.links.iter().any(|l| l.link_type == "shipment_tracking"
        && l.url == "https://carrier.example.com/track/trk_1"));
}

#[test]
fn order_items_from_line_items() {
    let session = session_with(None, "Ada Lovelace");
    let plans = build_order_item_inputs(&session.line_items);
    assert_eq!(plans.len(), 1);
    let li = &session.line_items[0];
    let p = order_item_plan(li);
    assert_eq!(plans[0].sku, p.sku);
    assert_eq!(p.sku, "W-1");
    assert_eq!(p.name, "Widget");
    assert_eq!(p.quantity, 2);
    assert_eq!(p.unit_price_cents, 1500);
    assert_eq!(p.product_ref, None);
    let expected = if li.subtotal > 0 && li.tax > 0 { Some((li.tax, li.subtotal)) } else { None };
    assert_eq!(p.tax_basis, expected);
    let mut with_uuid = li.clone();
    with_uuid.variant_id = Some("67e55044-10b1-426f-9247-bb680e5fe0c8".to_string());
    assert_eq!(order_item_plan(&with_uuid).product_ref.as_deref(), Some("67e55044-10b1-426f-9247-bb680e5fe0c8"));
}

#[test]
fn product_refs_accept_every_uuid_form() {
    let session = session_with(None, "Ada Lovelace");
    let li = &session.line_items[0];
    for text in [
        "67e5504410b1426f9247bb680e5fe0c8",
        "{67e55044-10b1-426f-9247-bb680e5fe0c8}",
        "URN:uuid:67E55044-10B1-426F-9247-BB680E5FE0C8",
    ] {
        let mut with_ref = li.clone();
        with_ref.variant_id = Some(text.to_string());
        assert_eq!(order_item_plan(&with_ref).product_ref.as_deref(), Some(text));
    }
    for text in ["67e55044-10b1-426f-9247-bb680e5fe0c", "67e55044_10b1-426f-9247-bb680e5fe0c8", "urn:uuix:67e55044-10b1-426f-9247-bb680e5fe0c8"] {
        let mut with_ref = li.clone();
        with_ref.variant_id = Some(text.to_string());
        assert_eq!(order_item_plan(&with_ref).product_ref, None);
    }
}

#[test]
fn create_requests_are_validated() {
    let ok = CheckoutSessionCreateRequest {
        buyer: Some(buyer()),
        items: vec![Item { id: "sku-1".to_string(), quantity: 1 }],
        fulfillment_address: None,
        promotion_code: None,
    };
    assert!(validate_create_request(&ok).is_ok());
    let empty = CheckoutSessionCreateRequest { buyer: None, items: vec![], fulfillment_address: None, promotion_code: None };
    assert!(validate_create_request(&empty).is_err());
}
