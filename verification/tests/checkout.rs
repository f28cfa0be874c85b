use rust_decimal::Decimal;
use stateset_core::agentic::model::CheckoutError;
use stateset_core::checkout_flow::{
    calculate_shipping_rate, calculate_tax, check_cart, complete_checkout, order_number, set_customer_info,
    set_shipping_address, set_shipping_method, shipping_method_name, start_session, Address, CartLine, CartSummary,
    CheckoutStep, CustomerInfoInput, PaymentInfo, PaymentMethod, PaymentStatus, ShippingMethod,
};
use stateset_core::decimal::{dec_add, DecimalValue};

fn d(mantissa: i128, scale: u32) -> DecimalValue {
    DecimalValue { mantissa, scale }
}

fn num(v: &DecimalValue) -> Decimal {
    Decimal::from_i128_with_scale(v.mantissa, v.scale)
}

fn address(first: &str, last: &str, line1: &str, city: &str, province: &str, postal: &str) -> Address {
    Address {
        first_name: first.to_string(),
        last_name: last.to_string(),
        company: None,
        address_line_1: line1.to_string(),
        address_line_2: None,
        city: city.to_string(),
        province: province.to_string(),
        country_code: "US".to_string(),
        postal_code: postal.to_string(),
        phone: None,
    }
}

fn session_with(subtotal: DecimalValue) -> stateset_core::checkout_flow::CheckoutSession {
    let cart = CartSummary { subtotal, currency: "USD".to_string(), customer_id: None };
    let items = vec![CartLine {
        variant_id: "abcdef12-3456-7890-abcd-ef1234567890".to_string(),
        quantity: 2,
        unit_price: d(5000, 2),
        line_total: d(10000, 2),
        discount_amount: DecimalValue::zero(),
    }];
    start_session(
        "11111111-2222-3333-4444-555555555555".to_string(),
        "cart-1".to_string(),
        cart,
        items,
    )
}

#[test]
fn test_checkout_step_customer_info() {
    assert_eq!(format!("{:?}", CheckoutStep::CustomerInfo), "CustomerInfo");
}

#[test]
fn test_checkout_step_shipping_address() {
    assert_eq!(format!("{:?}", CheckoutStep::ShippingAddress), "ShippingAddress");
}

#[test]
fn test_checkout_step_shipping_method() {
    assert_eq!(format!("{:?}", CheckoutStep::ShippingMethod), "ShippingMethod");
}

#[test]
fn test_checkout_step_payment() {
    assert_eq!(format!("{:?}", CheckoutStep::Payment), "Payment");
}

#[test]
fn test_shipping_method_standard() {
    assert_eq!(format!("{:?}", ShippingMethod::Standard), "Standard");
}

#[test]
fn test_shipping_method_express() {
    assert_eq!(format!("{:?}", ShippingMethod::Express), "Express");
}

#[test]
fn test_shipping_method_overnight() {
    assert_eq!(format!("{:?}", ShippingMethod::Overnight), "Overnight");
}

#[test]
fn test_shipping_rate_standard() {
    let rate = calculate_shipping_rate(ShippingMethod::Standard);
    assert_eq!(num(&rate.amount), Decimal::from(10));
    assert_eq!(rate.estimated_days, 5);
}

#[test]
fn test_shipping_rate_express() {
    let rate = calculate_shipping_rate(ShippingMethod::Express);
    assert_eq!(num(&rate.amount), Decimal::from(25));
    assert_eq!(rate.estimated_days, 2);
}

#[test]
fn test_shipping_rate_overnight() {
    let rate = calculate_shipping_rate(ShippingMethod::Overnight);
    assert_eq!(num(&rate.amount), Decimal::from(50));
    assert_eq!(rate.estimated_days, 1);
}

#[test]
fn test_payment_method_credit_card() {
    assert_eq!(format!("{:?}", PaymentMethod::CreditCard), "CreditCard");
}

#[test]
fn test_payment_method_paypal() {
    assert_eq!(format!("{:?}", PaymentMethod::PayPal), "PayPal");
}

#[test]
fn test_payment_method_apple_pay() {
    assert_eq!(format!("{:?}", PaymentMethod::ApplePay), "ApplePay");
}

#[test]
fn test_payment_method_google_pay() {
    assert_eq!(format!("{:?}", PaymentMethod::GooglePay), "GooglePay");
}

#[test]
fn test_payment_status_approved() {
    assert_eq!(format!("{:?}", PaymentStatus::Approved), "Approved");
}

#[test]
fn test_payment_status_declined() {
    assert_eq!(format!("{:?}", PaymentStatus::Declined), "Declined");
}

#[test]
fn test_payment_status_error() {
    assert_eq!(format!("{:?}", PaymentStatus::Error), "Error");
}

#[test]
fn test_address_creation() {
    let address = Address {
        first_name: "John".to_string(),
        last_name: "Doe".to_string(),
        company: Some("Acme Inc".to_string()),
        address_line_1: "123 Main St".to_string(),
        address_line_2: Some("Suite 100".to_string()),
        city: "New York".to_string(),
        province: "NY".to_string(),
        country_code: "US".to_string(),
        postal_code: "10001".to_string(),
        phone: Some("+1234567890".to_string()),
    };
    assert_eq!(address.first_name, "John");
    assert_eq!(address.city, "New York");
    assert_eq!(address.country_code, "US");
}

#[test]
fn test_address_minimal() {
    let address = address("Jane", "Smith", "456 Oak Ave", "Los Angeles", "CA", "90001");
    assert!(address.company.is_none());
    assert!(address.address_line_2.is_none());
    assert!(address.phone.is_none());
}

#[test]
fn test_customer_info_input() {
    let input = CustomerInfoInput { email: "customer@example.com".to_string(), subscribe_newsletter: true };
    assert_eq!(input.email, "customer@example.com");
    assert!(input.subscribe_newsletter);
}

#[test]
fn test_customer_info_no_newsletter() {
    let input = CustomerInfoInput { email: "no-newsletter@example.com".to_string(), subscribe_newsletter: false };
    assert!(!input.subscribe_newsletter);
}

#[test]
fn test_payment_info_creation() {
    let info = PaymentInfo { method: PaymentMethod::CreditCard, token: "tok_test_123456".to_string() };
    assert!(!info.token.is_empty());
}

#[test]
fn test_payment_info_paypal() {
    let info = PaymentInfo { method: PaymentMethod::PayPal, token: "paypal_token_abc123".to_string() };
    assert!(info.token.starts_with("paypal"));
}

#[test]
fn test_tax_calculation() {
    let tax = calculate_tax(&d(10000, 2));
    assert_eq!(num(&tax), Decimal::new(875, 2));
}

#[test]
fn test_tax_calculation_rounding() {
    let tax = calculate_tax(&d(9999, 2));
    assert!(num(&tax) > Decimal::new(874, 2) && num(&tax) < Decimal::new(876, 2));
}

#[test]
fn test_total_calculation() {
    let total = dec_add(&dec_add(&d(10000, 2), &d(1000, 2)), &d(875, 2));
    assert_eq!(num(&total), Decimal::new(11875, 2));
}

#[test]
fn test_total_calculation_with_decimals() {
    let total = dec_add(&dec_add(&d(9999, 2), &d(1000, 2)), &d(874, 2));
    assert_eq!(num(&total), Decimal::new(11873, 2));
}

#[test]
fn test_order_number_format() {
    let order_number = order_number("abcdef12-3456-7890-abcd-ef1234567890");
    assert!(order_number.starts_with("ORD-"));
    assert_eq!(order_number.len(), 12);
}

#[test]
fn test_order_number_uppercase() {
    let order_number = order_number("abcdef12-3456-7890-abcd-ef1234567890");
    let suffix = &order_number[4..];
    assert!(suffix.chars().all(|c| c.is_uppercase() || c.is_numeric() || c == '-'));
    assert_eq!(order_number, "ORD-ABCDEF12");
}

#[test]
fn test_invalid_operation_error() {
    match check_cart(false, 3) {
        Err(CheckoutError::InvalidOperation(msg)) => assert!(msg.contains("not active")),
        _ => panic!("Expected InvalidOperation error"),
    }
}

#[test]
fn test_empty_cart_error() {
    match check_cart(true, 0) {
        Err(CheckoutError::InvalidOperation(msg)) => assert!(msg.contains("empty")),
        _ => panic!("Expected InvalidOperation error"),
    }
}

#[test]
fn test_incomplete_session_error() {
    let session = session_with(d(10000, 2));
    match complete_checkout(&session, "abcdef12-3456") {
        Err(CheckoutError::InvalidOperation(msg)) => assert!(msg.contains("incomplete")),
        _ => panic!("Expected InvalidOperation error"),
    }
}

#[test]
fn test_shipping_rate_by_method() {
    let methods_and_rates = vec![
        (ShippingMethod::Standard, Decimal::from(10), 5u32),
        (ShippingMethod::Express, Decimal::from(25), 2u32),
        (ShippingMethod::Overnight, Decimal::from(50), 1u32),
    ];
    for (method, expected_amount, expected_days) in methods_and_rates {
        let rate = calculate_shipping_rate(method);
        assert_eq!(num(&rate.amount), expected_amount);
        assert_eq!(rate.estimated_days, expected_days);
        assert_eq!(rate.method, method);
    }
}

#[test]
fn test_checkout_step_progression() {
    let steps = vec![
        CheckoutStep::CustomerInfo,
        CheckoutStep::ShippingAddress,
        CheckoutStep::ShippingMethod,
        CheckoutStep::Payment,
    ];
    assert_eq!(steps.len(), 4);

    let mut session = session_with(d(10000, 2));
    assert_eq!(session.step, steps[0]);
    set_customer_info(
        &mut session,
        CustomerInfoInput { email: "test@example.com".to_string(), subscribe_newsletter: false },
    );
    assert_eq!(session.step, steps[1]);
    set_shipping_address(&mut session, address("John", "Doe", "123 Main St", "New York", "NY", "10001"));
    assert_eq!(session.step, steps[2]);
    set_shipping_method(&mut session, ShippingMethod::Standard).unwrap();
    assert_eq!(session.step, steps[3]);
}

#[test]
fn test_checkout_session_requires_email() {
    let mut session = session_with(d(10000, 2));
    set_shipping_address(&mut session, address("John", "Doe", "123 Main St", "New York", "NY", "10001"));
    set_shipping_method(&mut session, ShippingMethod::Standard).unwrap();
    assert!(complete_checkout(&session, "abcdef12-3456").is_err());
}

#[test]
fn test_checkout_session_requires_shipping_address() {
    let mut session = session_with(d(10000, 2));
    set_customer_info(
        &mut session,
        CustomerInfoInput { email: "test@example.com".to_string(), subscribe_newsletter: false },
    );
    assert!(set_shipping_method(&mut session, ShippingMethod::Standard).is_err());
    assert!(complete_checkout(&session, "abcdef12-3456").is_err());
}

#[test]
fn test_checkout_session_requires_shipping_method() {
    let mut session = session_with(d(10000, 2));
    set_customer_info(
        &mut session,
        CustomerInfoInput { email: "test@example.com".to_string(), subscribe_newsletter: false },
    );
    set_shipping_address(&mut session, address("John", "Doe", "123 Main St", "New York", "NY", "10001"));
    assert!(complete_checkout(&session, "abcdef12-3456").is_err());
}

#[test]
fn test_checkout_session_complete() {
    let mut session = session_with(d(10000, 2));
    set_customer_info(
        &mut session,
        CustomerInfoInput { email: "test@example.com".to_string(), subscribe_newsletter: false },
    );
    set_shipping_address(&mut session, address("John", "Doe", "123 Main St", "New York", "NY", "10001"));
    set_shipping_method(&mut session, ShippingMethod::Standard).unwrap();
    let plan = complete_checkout(&session, "abcdef12-3456").unwrap();
    assert_eq!(plan.order_number, "ORD-ABCDEF12");
    assert_eq!(num(&plan.shipping_total), Decimal::from(10));
    assert_eq!(num(&plan.tax_total), Decimal::new(875, 2));
    assert_eq!(num(&plan.total), Decimal::new(11875, 2));
    assert_eq!(plan.shipping_method, "Standard");
    assert_eq!(plan.lines.len(), 1);
    assert_eq!(plan.lines[0].sku, "SKU-ABCDEF12");
    assert_eq!(plan.lines[0].name, "Product abcdef12");
    assert_eq!(plan.lines[0].quantity, 2);
}

#[test]
fn test_decimal_currency_precision() {
    let total = dec_add(&dec_add(&d(1999, 2), &d(2999, 2)), &d(999, 2));
    assert_eq!(num(&total), Decimal::new(5997, 2));
}

#[test]
fn test_decimal_tax_precision() {
    let tax = calculate_tax(&d(10000, 2));
    assert!(num(&tax) > Decimal::ZERO);
}

#[test]
fn shipping_method_names() {
    assert_eq!(shipping_method_name(ShippingMethod::Express), "Express");
    assert_eq!(shipping_method_name(ShippingMethod::Overnight), "Overnight");
}

#[test]
fn shipping_address_is_also_billing_address() {
    let mut session = session_with(d(100, 0));
    set_shipping_address(&mut session, address("A", "B", "1 St", "C", "D", "E"));
    assert_eq!(session.billing_address.as_ref().unwrap().city, "C");
    assert_eq!(session.shipping_address.as_ref().unwrap().first_name, "A");
}

#[test]
fn completed_checkout_order_plan() {
    let mut session = session_with(d(10000, 2));
    set_customer_info(&mut session, CustomerInfoInput { email: "a@b.co".to_string(), subscribe_newsletter: false });
    set_shipping_address(&mut session, address("John", "Doe", "123 Main St", "New York", "NY", "10001"));
    set_shipping_method(&mut session, ShippingMethod::Express).unwrap();
    let plan = complete_checkout(&session, "abcdef12-3456-7890-abcd-ef1234567890").unwrap();
    assert_eq!(plan.order_number, "ORD-ABCDEF12");
    assert_eq!(plan.status, "pending");
    assert_eq!(plan.payment_status, "pending");
    assert_eq!(plan.fulfillment_status, "unfulfilled");
    assert_eq!(plan.payment_method, "card");
    assert_eq!(plan.currency, "USD");
    assert_eq!(plan.customer_id, None);
    assert_eq!(plan.cart_status, stateset_core::cart::CartStatus::Converted);
    assert_eq!(num(&plan.shipping_total), Decimal::from(25));
    assert_eq!(num(&plan.total), num(&plan.tax_total) + Decimal::from(125));
    assert_eq!(plan.lines.len(), 1);
    let line = &plan.lines[0];
    assert_eq!(line.sku, "SKU-ABCDEF12");
    assert_eq!(line.name, "Product abcdef12");
    assert_eq!(line.quantity, 2);
    assert_eq!(num(&line.unit_price), Decimal::from(50));
    assert_eq!(num(&line.total_price), Decimal::from(100));
    assert_eq!(num(&line.tax_amount), Decimal::ZERO);
    assert_eq!(line.status, "confirmed");
}
