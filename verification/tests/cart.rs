use rust_decimal::Decimal;
use stateset_core::cart::{
    cart_tax_rate, cart_totals, recalculate_cart_totals, shipping_total_for, Cart, CartError, CartItem, CartStatus,
};
use stateset_core::decimal::DecimalValue;

fn d(mantissa: i128, scale: u32) -> DecimalValue {
    DecimalValue { mantissa, scale }
}

fn num(v: &DecimalValue) -> Decimal {
    Decimal::from_i128_with_scale(v.mantissa, v.scale)
}

fn standard_rate() -> DecimalValue {
    let r = Decimal::from_f32_retain(0.08).unwrap_or(Decimal::ZERO);
    DecimalValue { mantissa: r.mantissa(), scale: r.scale() }
}

#[test]
fn new_cart_is_empty_and_active() {
    let cart = Cart::new("c1".to_string(), None);
    assert_eq!(cart.status, CartStatus::Active);
    assert_eq!(cart.currency, "USD");
    assert!(cart.items.is_empty());
    assert_eq!(num(&cart.totals.total), Decimal::ZERO);
    assert_eq!(Cart::new("c2".to_string(), Some("EUR".to_string())).currency, "EUR");
}

#[test]
fn adding_merges_lines_of_the_same_variant() {
    let rate = standard_rate();
    let mut cart = Cart::new("c1".to_string(), None);
    cart.add_item("v1", 2, d(1250, 2), "i1".to_string(), &rate).unwrap();
    cart.add_item("v2", 1, d(500, 2), "i2".to_string(), &rate).unwrap();
    cart.add_item("v1", 1, d(1300, 2), "i3".to_string(), &rate).unwrap();
    assert_eq!(cart.items.len(), 2);
    assert_eq!(cart.items[0].id, "i1");
    assert_eq!(cart.items[0].quantity, 3);
    assert_eq!(num(&cart.items[0].unit_price), Decimal::new(1250, 2));
    assert_eq!(num(&cart.items[0].line_total), Decimal::new(3900, 2));
    assert_eq!(cart.items[1].cart_id, "c1");
    let subtotal = Decimal::new(4400, 2);
    assert_eq!(num(&cart.totals.subtotal), subtotal);
    let rate_dec = num(&rate);
    let tax = subtotal * rate_dec;
    assert_eq!(num(&cart.totals.tax_total), tax);
    assert_eq!(num(&cart.totals.shipping_total), Decimal::from(10));
    assert_eq!(num(&cart.totals.total), subtotal + tax + Decimal::from(10) - Decimal::ZERO);
}

#[test]
fn free_shipping_from_fifty() {
    assert_eq!(num(&shipping_total_for(&d(5000, 2))), Decimal::ZERO);
    assert_eq!(num(&shipping_total_for(&d(4999, 2))), Decimal::from(10));
    assert_eq!(num(&shipping_total_for(&d(0, 2))), Decimal::ZERO);
    let rate = standard_rate();
    let mut cart = Cart::new("c1".to_string(), None);
    cart.add_item("v1", 5, d(1000, 2), "i1".to_string(), &rate).unwrap();
    assert_eq!(num(&cart.totals.shipping_total), Decimal::ZERO);
    assert_eq!(num(&cart_totals(&cart.items, &rate).subtotal), Decimal::from(50));
}

#[test]
fn inactive_carts_refuse_items() {
    let rate = standard_rate();
    let mut cart = Cart::new("c1".to_string(), None);
    cart.abandon();
    match cart.add_item("v1", 1, d(100, 2), "i1".to_string(), &rate) {
        Err(CartError::InvalidOperation(m)) => assert_eq!(m, "Cart is not active"),
        other => panic!("unexpected {:?}", other),
    }
    assert!(cart.items.is_empty());
}

#[test]
fn quantity_updates() {
    let rate = standard_rate();
    let mut cart = Cart::new("c1".to_string(), None);
    cart.add_item("v1", 2, d(1250, 2), "i1".to_string(), &rate).unwrap();
    cart.add_item("v2", 1, d(500, 2), "i2".to_string(), &rate).unwrap();
    cart.update_item_quantity("i1", Some("c1"), 4, &rate).unwrap();
    assert_eq!(cart.items[0].quantity, 4);
    assert_eq!(num(&cart.items[0].line_total), Decimal::from(50));
    assert_eq!(num(&cart.totals.shipping_total), Decimal::ZERO);
    match cart.update_item_quantity("i1", Some("other"), 1, &rate) {
        Err(CartError::InvalidOperation(m)) => assert_eq!(m, "Item does not belong to this cart"),
        other => panic!("unexpected {:?}", other),
    }
    match cart.update_item_quantity("nope", None, 1, &rate) {
        Err(CartError::NotFound(m)) => assert_eq!(m, "Cart item nope not found"),
        other => panic!("unexpected {:?}", other),
    }
    match cart.update_item_quantity("i1", Some("other"), 0, &rate) {
        Err(CartError::InvalidOperation(m)) => assert_eq!(m, "Item does not belong to this cart"),
        other => panic!("unexpected {:?}", other),
    }
    assert_eq!(cart.items.len(), 2);
    cart.update_item_quantity("i1", Some("c1"), 0, &rate).unwrap();
    assert_eq!(cart.items.len(), 1);
    assert_eq!(cart.items[0].id, "i2");
    assert_eq!(num(&cart.totals.subtotal), Decimal::from(5));
    cart.clear();
    assert!(cart.items.is_empty());
    assert_eq!(num(&cart.totals.total), Decimal::ZERO);
}

#[test]
fn standard_rate_totals_of_a_hundred() {
    let items = vec![CartItem {
        id: "i1".to_string(),
        cart_id: "c1".to_string(),
        variant_id: "v1".to_string(),
        quantity: 4,
        unit_price: d(25, 0),
        line_total: d(100, 0),
        discount_amount: d(0, 0),
    }];
    assert_eq!(cart_tax_rate(), d(8, 2));
    let t = recalculate_cart_totals(&items);
    assert_eq!(num(&t.subtotal), Decimal::from(100));
    assert_eq!(num(&t.tax_total), Decimal::from(8));
    assert_eq!(num(&t.shipping_total), Decimal::ZERO);
    assert_eq!(num(&t.discount_total), Decimal::ZERO);
    assert_eq!(num(&t.total), Decimal::from(108));
}

#[test]
fn standard_rate_totals_of_a_hundred_written_to_many_places() {
    let items = vec![CartItem {
        id: "i1".to_string(),
        cart_id: "c1".to_string(),
        variant_id: "v1".to_string(),
        quantity: 1,
        unit_price: d(100 * 10i128.pow(26), 26),
        line_total: d(100 * 10i128.pow(26), 26),
        discount_amount: d(0, 0),
    }];
    let t = recalculate_cart_totals(&items);
    assert_eq!(num(&t.subtotal), Decimal::from(100));
    assert_eq!(num(&t.tax_total), Decimal::from(8));
    assert_eq!(num(&t.total), Decimal::from(108));
}
