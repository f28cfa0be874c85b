use stateset_core::agentic::model::CheckoutError;

// ==================== Price Calculation Tests ====================

#[test]
fn pricing_service_test_price_positive() {
    let price: f64 = 99.99;
    assert!(price > 0.0);
}

#[test]
fn pricing_service_test_price_zero_valid() {
    let price: f64 = 0.0;
    assert!(price >= 0.0);
}

#[test]
fn test_quantity_calculation() {
    let price: f64 = 19.99;
    let quantity: i32 = 3;
    let total = price * quantity as f64;

    assert!((total - 59.97).abs() < 0.001);
}

#[test]
fn test_quantity_one() {
    let price: f64 = 49.99;
    let quantity: i32 = 1;
    let total = price * quantity as f64;

    assert_eq!(total, price);
}


#[test]
fn test_percentage_discount() {
    let price: f64 = 100.0;
    let discount_percent: f64 = 20.0;
    let discount_amount = price * (discount_percent / 100.0);
    let final_price = price - discount_amount;

    assert_eq!(final_price, 80.0);
}

#[test]
fn test_fixed_discount() {
    let price: f64 = 100.0;
    let discount_amount: f64 = 15.0;
    let final_price = price - discount_amount;

    assert_eq!(final_price, 85.0);
}

#[test]
fn test_discount_not_exceed_price() {
    let price: f64 = 50.0;
    let discount_amount: f64 = 75.0;
    let final_price = (price - discount_amount).max(0.0);

    assert_eq!(final_price, 0.0);
}

#[test]
fn test_no_discount() {
    let price: f64 = 100.0;
    let discount: Option<String> = None;
    let final_price = if discount.is_some() {
        price * 0.9 // Example: 10% off
    } else {
        price
    };

    assert_eq!(final_price, 100.0);
}

#[test]
fn test_discount_code_present() {
    let discount_code: Option<String> = Some("SAVE10".to_string());
    assert!(discount_code.is_some());
}

#[test]
fn test_discount_code_empty() {
    let discount_code: Option<String> = None;
    assert!(discount_code.is_none());
}


#[test]
fn test_tax_rate_percentage() {
    let subtotal: f64 = 100.0;
    let tax_rate: f64 = 8.5; // 8.5%
    let tax = subtotal * (tax_rate / 100.0);

    assert_eq!(tax, 8.5);
}

#[test]
fn test_tax_with_no_address() {
    let shipping_address: Option<String> = None;
    // No address means we might not be able to calculate tax
    assert!(shipping_address.is_none());
}

#[test]
fn test_tax_with_address() {
    let shipping_address: Option<String> = Some("123 Main St, NY 10001".to_string());
    assert!(shipping_address.is_some());
}

#[test]
fn test_zero_tax_rate() {
    let subtotal: f64 = 100.0;
    let tax_rate: f64 = 0.0;
    let tax = subtotal * (tax_rate / 100.0);

    assert_eq!(tax, 0.0);
}


#[test]
fn test_shipping_cost_positive() {
    let shipping_cost: f64 = 9.99;
    assert!(shipping_cost > 0.0);
}

#[test]
fn test_free_shipping() {
    let shipping_cost: f64 = 0.0;
    assert_eq!(shipping_cost, 0.0);
}

#[test]
fn test_shipping_address_required() {
    let address = "123 Main St, City, State 12345";
    assert!(!address.is_empty());
}

#[test]
fn test_total_with_all_components() {
    let subtotal: f64 = 100.0;
    let discount: f64 = 10.0;
    let tax: f64 = 7.65;
    let shipping: f64 = 5.99;

    let total = subtotal - discount + tax + shipping;

    assert!((total - 103.64).abs() < 0.01);
}

#[test]
fn test_total_subtotal_only() {
    let subtotal: f64 = 100.0;
    let discount: f64 = 0.0;
    let tax: f64 = 0.0;
    let shipping: f64 = 0.0;

    let total = subtotal - discount + tax + shipping;

    assert_eq!(total, 100.0);
}


#[test]
fn test_currency_precision() {
    let price: f64 = 19.99;
    let quantity: i32 = 3;
    let total = price * quantity as f64;

    // Should be 59.97, check with floating point tolerance
    assert!((total - 59.97).abs() < 0.001);
}

#[test]
fn test_rounding_behavior() {
    let price: f64 = 10.0 / 3.0; // 3.333...
    let rounded = (price * 100.0).round() / 100.0;

    assert!((rounded - 3.33).abs() < 0.01);
}


#[test]
fn test_very_small_price() {
    let price: f64 = 0.01;
    assert!(price > 0.0);
}

#[test]
fn test_very_large_price() {
    let price: f64 = 999999.99;
    assert!(price > 0.0);
}

#[test]
fn test_high_quantity() {
    let quantity: i32 = 10000;
    let price: f64 = 1.00;
    let total = price * quantity as f64;

    assert_eq!(total, 10000.0);
}


#[test]
fn test_service_error_handling() {
    // Test that we can create service errors
    let result: Result<f64, CheckoutError> = Ok(100.0);
    assert!(result.is_ok());
}


#[test]
fn test_discount_code_format() {
    let valid_codes = vec!["SAVE10", "SUMMER2024", "FIRSTORDER", "VIP50"];

    for code in valid_codes {
        assert!(!code.is_empty());
        assert!(code.len() <= 20);
    }
}

#[test]
fn test_discount_code_uppercase() {
    let code = "save10";
    let normalized = code.to_uppercase();

    assert_eq!(normalized, "SAVE10");
}


#[test]
fn test_us_state_tax_rates() {
    // Common US state tax rates
    let state_rates = vec![
        ("NY", 8.875),
        ("CA", 7.25),
        ("TX", 6.25),
        ("FL", 6.0),
        ("OR", 0.0), // No sales tax
    ];

    for (state, rate) in state_rates {
        assert!(rate >= 0.0);
        assert!(!state.is_empty());
    }
}


#[test]
fn test_shipping_methods() {
    let methods = vec![
        ("Standard", 5.99),
        ("Express", 12.99),
        ("Overnight", 24.99),
        ("Free", 0.0),
    ];

    for (method, cost) in methods {
        assert!(!method.is_empty());
        assert!(cost >= 0.0);
    }
}
