//! Cart checkout: the steps from customer details to payment, shipping
//! rates, tax, and the order a completed checkout creates.
use vstd::prelude::*;
use crate::agentic::complete::to_uppercase;
use crate::cart::CartStatus;
use crate::agentic::model::CheckoutError;
use crate::agentic::validate::{all_ascii, upper_seq, Refusal};
use crate::decimal::{add_fits, dec_add, dec_mul, mul_fits, spec_add, spec_mul, DecimalValue};
use crate::text::{chars_of, concat, owned, string_of};

verus! {

/// Where a checkout stands.
#[derive(Debug, Clone, Copy, PartialEq, Eq, Structural)]
pub enum CheckoutStep {
    CustomerInfo,
    ShippingAddress,
    ShippingMethod,
    Payment,
}

#[derive(Debug, Clone, Copy, PartialEq, Eq, Structural)]
pub enum ShippingMethod {
    Standard,
    Express,
    Overnight,
}

#[derive(Debug, Clone, Copy, PartialEq, Eq, Structural)]
pub enum PaymentMethod {
    CreditCard,
    PayPal,
    ApplePay,
    GooglePay,
}

#[derive(Debug, Clone, Copy, PartialEq, Eq, Structural)]
pub enum PaymentStatus {
    Approved,
    Declined,
    Error,
}

/// The customer's contact details.
#[derive(Debug)]
pub struct CustomerInfoInput {
    pub email: String,
    pub subscribe_newsletter: bool,
}

#[derive(Debug, Clone)]
pub struct Address {
    pub first_name: String,
    pub last_name: String,
    pub company: Option<String>,
    pub address_line_1: String,
    pub address_line_2: Option<String>,
    pub city: String,
    pub province: String,
    pub country_code: String,
    pub postal_code: String,
    pub phone: Option<String>,
}

/// How the customer pays, with the token the front end obtained.
#[derive(Debug)]
pub struct PaymentInfo {
    pub method: PaymentMethod,
    pub token: String,
}

/// The price and speed of a shipping method.
#[derive(Debug, Clone, Copy)]
pub struct ShippingRate {
    pub method: ShippingMethod,
    pub amount: DecimalValue,
    pub estimated_days: u32,
}

/// What the cart being checked out holds: its subtotal, currency and
/// customer (a UUID's text), and its lines.
#[derive(Debug, Clone)]
pub struct CartSummary {
    pub subtotal: DecimalValue,
    pub currency: String,
    pub customer_id: Option<String>,
}

/// A line of a cart: its variant (a UUID's text), quantity and amounts.
#[derive(Debug, Clone)]
pub struct CartLine {
    pub variant_id: String,
    pub quantity: i32,
    pub unit_price: DecimalValue,
    pub line_total: DecimalValue,
    pub discount_amount: DecimalValue,
}

/// A checkout in progress.
#[derive(Debug, Clone)]
pub struct CheckoutSession {
    pub id: String,
    pub cart_id: String,
    pub cart: CartSummary,
    pub items: Vec<CartLine>,
    pub step: CheckoutStep,
    pub customer_email: Option<String>,
    pub shipping_address: Option<Address>,
    pub billing_address: Option<Address>,
    pub shipping_method: Option<ShippingMethod>,
    pub payment_method: Option<PaymentMethod>,
}

/// A cart can be checked out while it is active and not empty.
pub fn check_cart(active: bool, item_count: usize) -> (r: Result<(), CheckoutError>)
    ensures
        match r {
            Ok(_) => active && item_count > 0,
            Err(e) => e.kind() == Refusal::InvalidOperation && if !active {
                e.msg() == "Cart is not active"@
            } else {
                item_count == 0 && e.msg() == "Cart is empty"@
            },
        },
{
    if !active {
        return Err(CheckoutError::InvalidOperation(owned("Cart is not active")));
    }
    if item_count == 0 {
        return Err(CheckoutError::InvalidOperation(owned("Cart is empty")));
    }
    Ok(())
}

/// A checkout just started: at the customer step, with nothing chosen.
pub fn start_session(id: String, cart_id: String, cart: CartSummary, items: Vec<CartLine>) -> (s: CheckoutSession)
    ensures
        s.id == id && s.cart_id == cart_id && s.cart == cart && s.items == items,
        s.step == CheckoutStep::CustomerInfo,
        s.customer_email is None && s.shipping_address is None && s.billing_address is None,
        s.shipping_method is None && s.payment_method is None,
{
    CheckoutSession {
        id,
        cart_id,
        cart,
        items,
        step: CheckoutStep::CustomerInfo,
        customer_email: None,
        shipping_address: None,
        billing_address: None,
        shipping_method: None,
        payment_method: None,
    }
}

/// Records the customer's e-mail; the shipping address comes next.
pub fn set_customer_info(session: &mut CheckoutSession, input: CustomerInfoInput)
    ensures
        *final(session) == (CheckoutSession {
            customer_email: Some(input.email),
            step: CheckoutStep::ShippingAddress,
            ..*old(session)
        }),
{
    session.customer_email = Some(input.email);
    session.step = CheckoutStep::ShippingAddress;
}

/// Records the shipping address, also as billing address; the shipping
/// method comes next.
pub fn set_shipping_address(session: &mut CheckoutSession, address: Address)
    ensures
        final(session).shipping_address == Some(address),
        final(session).billing_address == Some(address),
        final(session).step == CheckoutStep::ShippingMethod,
        final(session).customer_email == old(session).customer_email,
        final(session).shipping_method == old(session).shipping_method,
        final(session).cart == old(session).cart && final(session).items == old(session).items,
        final(session).id == old(session).id && final(session).cart_id == old(session).cart_id,
        final(session).payment_method == old(session).payment_method,
{
    let copy = Address {
        first_name: address.first_name.clone(),
        last_name: address.last_name.clone(),
        company: crate::agentic::model::clone_opt(&address.company),
        address_line_1: address.address_line_1.clone(),
        address_line_2: crate::agentic::model::clone_opt(&address.address_line_2),
        city: address.city.clone(),
        province: address.province.clone(),
        country_code: address.country_code.clone(),
        postal_code: address.postal_code.clone(),
        phone: crate::agentic::model::clone_opt(&address.phone),
    };
    session.shipping_address = Some(copy);
    session.billing_address = Some(address);
    session.step = CheckoutStep::ShippingMethod;
}

/// Flat rates and transit days: standard 10 in 5 days, express 25 in 2,
/// overnight 50 in 1.
pub open spec fn rate_of(method: ShippingMethod) -> (int, u32) {
    match method {
        ShippingMethod::Standard => (10, 5),
        ShippingMethod::Express => (25, 2),
        ShippingMethod::Overnight => (50, 1),
    }
}

pub fn calculate_shipping_rate(method: ShippingMethod) -> (r: ShippingRate)
    ensures
        r.method == method,
        r.amount.scale == 0 && r.amount.mantissa == rate_of(method).0,
        r.estimated_days == rate_of(method).1,
{
    let (amount, days): (i128, u32) = match method {
        ShippingMethod::Standard => (10, 5),
        ShippingMethod::Express => (25, 2),
        ShippingMethod::Overnight => (50, 1),
    };
    ShippingRate { method, amount: DecimalValue { mantissa: amount, scale: 0 }, estimated_days: days }
}

/// Chooses the shipping method, which needs a shipping address; payment
/// comes next.
pub fn set_shipping_method(session: &mut CheckoutSession, method: ShippingMethod) -> (r: Result<ShippingRate, CheckoutError>)
    ensures
        match r {
            Ok(rate) => old(session).shipping_address is Some && rate.method == method && rate.amount.mantissa == rate_of(
                method,
            ).0 && rate.amount.scale == 0 && rate.estimated_days == rate_of(method).1 && *final(session) == (CheckoutSession {
                shipping_method: Some(method),
                step: CheckoutStep::Payment,
                ..*old(session)
            }),
            Err(e) => old(session).shipping_address is None && e.kind() == Refusal::InvalidOperation && e.msg()
                == "Shipping address required"@ && *final(session) == *old(session),
        },
{
    if session.shipping_address.is_none() {
        return Err(CheckoutError::InvalidOperation(owned("Shipping address required")));
    }
    let rate = calculate_shipping_rate(method);
    session.shipping_method = Some(method);
    session.step = CheckoutStep::Payment;
    Ok(rate)
}

/// The tax rate, 8.75%.
pub open spec fn tax_rate() -> DecimalValue {
    DecimalValue { mantissa: 875, scale: 4 }
}

/// The tax on a subtotal: the subtotal times the rate, as `Decimal`
/// multiplies.
pub open spec fn taxed(subtotal: DecimalValue) -> DecimalValue {
    spec_mul(subtotal, tax_rate())
}

/// The tax is computed without rounding.
pub open spec fn tax_fits(subtotal: DecimalValue) -> bool {
    mul_fits(subtotal, tax_rate())
}

/// The tax on `subtotal` at 8.75%.
pub fn calculate_tax(subtotal: &DecimalValue) -> (t: DecimalValue)
    requires
        subtotal.wf(),
        tax_fits(*subtotal),
    ensures
        t == taxed(*subtotal),
        t.wf(),
        t.value() * 10000 == subtotal.value() * 875,
{
    let rate = DecimalValue { mantissa: 875, scale: 4 };
    let t = dec_mul(subtotal, &rate);
    proof {
        assert(crate::decimal::p10(24) * crate::decimal::p10(4) == crate::decimal::p10(28)) by {
            crate::decimal::lemma_p10_adds(24, 4);
        }
        assert(crate::decimal::p10(4) == 10000) by {
            reveal_with_fuel(crate::decimal::p10, 5);
        }
        assert(rate.value() == 875 * crate::decimal::p10(24));
        let p = crate::decimal::p10(24);
        let q = crate::decimal::p10(28);
        assert(t.value() * q == subtotal.value() * (875 * p));
        assert(t.value() * (p * 10000) == (subtotal.value() * 875) * p) by (nonlinear_arith)
            requires t.value() * q == subtotal.value() * (875 * p), q == p * 10000;
        crate::decimal::lemma_p10_positive(24);
        assert(t.value() * 10000 == subtotal.value() * 875) by (nonlinear_arith)
            requires t.value() * (p * 10000) == (subtotal.value() * 875) * p, p >= 1;
    }
    t
}

/// An order's number: `ORD-` and the first eight characters of its id in
/// upper case.
pub fn order_number(order_id: &str) -> (s: String)
    requires
        order_id@.len() >= 8,
        all_ascii(order_id@),
    ensures
        s@ == "ORD-"@ + upper_seq(order_id@.take(8)),
{
    let v = chars_of(order_id);
    let head = string_of(&v, 0, 8);
    assert(head@ =~= order_id@.take(8));
    let up = to_uppercase(head.as_str());
    concat("ORD-", up.as_str())
}

/// The name a shipping method is stored under.
pub open spec fn method_name(m: ShippingMethod) -> Seq<char> {
    match m {
        ShippingMethod::Standard => "Standard"@,
        ShippingMethod::Express => "Express"@,
        ShippingMethod::Overnight => "Overnight"@,
    }
}

pub fn shipping_method_name(m: ShippingMethod) -> (s: String)
    ensures
        s@ == method_name(m),
{
    match m {
        ShippingMethod::Standard => owned("Standard"),
        ShippingMethod::Express => owned("Express"),
        ShippingMethod::Overnight => owned("Overnight"),
    }
}

/// What the line of an order copies from a cart line.
#[derive(Debug, Clone)]
pub struct OrderLinePlan {
    pub product_id: String,
    pub sku: String,
    pub name: String,
    pub quantity: i32,
    pub unit_price: DecimalValue,
    pub total_price: DecimalValue,
    pub discount: DecimalValue,
    pub tax_rate: DecimalValue,
    pub tax_amount: DecimalValue,
    /// `confirmed`.
    pub status: String,
}

/// The first `n` characters of `s`, or all of it.
pub open spec fn prefix_of(s: Seq<char>, n: nat) -> Seq<char> {
    if s.len() <= n { s } else { s.take(n as int) }
}

/// `p` is the order line of cart line `line`: the variant as product, SKU
/// `SKU-` and the variant id's first eight characters upper-cased, name
/// `Product ` and those characters, the line's quantity and amounts, no
/// tax, status `confirmed`.
pub open spec fn is_line_plan(p: OrderLinePlan, line: CartLine) -> bool {
    &&& p.product_id == line.variant_id
    &&& p.sku@ == "SKU-"@ + upper_seq(line.variant_id@.take(8))
    &&& p.name@ == "Product "@ + prefix_of(line.variant_id@, 8)
    &&& p.quantity == line.quantity
    &&& p.unit_price == line.unit_price
    &&& p.total_price == line.line_total
    &&& p.discount == line.discount_amount
    &&& p.tax_rate == (DecimalValue { mantissa: 0, scale: 0 })
    &&& p.tax_amount == (DecimalValue { mantissa: 0, scale: 0 })
    &&& p.status@ == "confirmed"@
}

/// The order line of a cart line (see `is_line_plan`).
pub fn order_line_plan(line: &CartLine) -> (p: OrderLinePlan)
    requires
        line.variant_id@.len() >= 8,
        all_ascii(line.variant_id@),
    ensures
        is_line_plan(p, *line),
{
    let v = chars_of(line.variant_id.as_str());
    let head = string_of(&v, 0, 8);
    assert(head@ =~= line.variant_id@.take(8));
    let up = to_uppercase(head.as_str());
    let p = OrderLinePlan {
        product_id: line.variant_id.clone(),
        sku: concat("SKU-", up.as_str()),
        name: concat("Product ", head.as_str()),
        quantity: line.quantity,
        unit_price: line.unit_price,
        total_price: line.line_total,
        discount: line.discount_amount,
        tax_rate: DecimalValue { mantissa: 0, scale: 0 },
        tax_amount: DecimalValue { mantissa: 0, scale: 0 },
        status: owned("confirmed"),
    };
    assert(p.sku@ == "SKU-"@ + upper_seq(line.variant_id@.take(8)));
    assert(p.name@ == "Product "@ + prefix_of(line.variant_id@, 8));
    assert(p.status@ == "confirmed"@);
    p
}

/// A session is complete with an e-mail, a shipping address and a method.
pub open spec fn session_complete(s: CheckoutSession) -> bool {
    s.customer_email is Some && s.shipping_address is Some && s.shipping_method is Some
}

/// What completing a checkout creates: the order (number, statuses,
/// payment method, currency, customer, total, shipping method and lines)
/// and the status the cart is left in.
#[derive(Debug, Clone)]
pub struct OrderPlan {
    pub order_number: String,
    /// `pending`.
    pub status: String,
    /// `pending`.
    pub payment_status: String,
    /// `unfulfilled`.
    pub fulfillment_status: String,
    /// `card`.
    pub payment_method: String,
    pub currency: String,
    pub customer_id: Option<String>,
    pub total: DecimalValue,
    pub shipping_total: DecimalValue,
    pub tax_total: DecimalValue,
    pub shipping_method: String,
    pub lines: Vec<OrderLinePlan>,
    /// `Converted`.
    pub cart_status: CartStatus,
}

/// The amounts of a checkout fit a `Decimal`, and its ids are UUID text.
pub open spec fn order_fits(s: CheckoutSession, order_id: Seq<char>) -> bool {
    let shipping = DecimalValue { mantissa: rate_of(s.shipping_method.unwrap()).0 as i128, scale: 0 };
    &&& s.cart.subtotal.wf()
    &&& tax_fits(s.cart.subtotal)
    &&& add_fits(s.cart.subtotal, shipping)
    &&& add_fits(spec_add(s.cart.subtotal, shipping), taxed(s.cart.subtotal))
    &&& order_id.len() >= 8 && all_ascii(order_id)
    &&& forall|i: int| 0 <= i < s.items.len() ==> (#[trigger] s.items@[i]).variant_id@.len() >= 8 && all_ascii(
        s.items@[i].variant_id@,
    )
}

/// The order of a completed checkout: total is subtotal plus shipping plus
/// tax; refused while the session lacks e-mail, address or method.
pub fn complete_checkout(session: &CheckoutSession, order_id: &str) -> (r: Result<OrderPlan, CheckoutError>)
    requires
        session_complete(*session) ==> order_fits(*session, order_id@),
    ensures
        match r {
            Err(e) => !session_complete(*session) && e.kind() == Refusal::InvalidOperation && e.msg()
                == "Checkout session incomplete"@,
            Ok(p) => {
                let m = session.shipping_method.unwrap();
                let shipping = DecimalValue { mantissa: rate_of(m).0 as i128, scale: 0 };
                &&& session_complete(*session)
                &&& p.order_number@ == "ORD-"@ + upper_seq(order_id@.take(8))
                &&& p.shipping_total == shipping
                &&& p.tax_total == taxed(session.cart.subtotal)
                &&& p.total == spec_add(spec_add(session.cart.subtotal, shipping), taxed(session.cart.subtotal))
                &&& p.total.value() == session.cart.subtotal.value() + p.shipping_total.value() + p.tax_total.value()
                &&& p.shipping_method@ == method_name(m)
                &&& p.status@ == "pending"@
                &&& p.payment_status@ == "pending"@
                &&& p.fulfillment_status@ == "unfulfilled"@
                &&& p.payment_method@ == "card"@
                &&& p.currency == session.cart.currency
                &&& p.customer_id == session.cart.customer_id
                &&& p.cart_status == CartStatus::Converted
                &&& p.lines.len() == session.items.len()
                &&& forall|i: int| 0 <= i < session.items.len() ==> is_line_plan(#[trigger] p.lines@[i], session.items@[i])
            },
        },
{
    if session.customer_email.is_none() || session.shipping_address.is_none() || session.shipping_method.is_none() {
        return Err(CheckoutError::InvalidOperation(owned("Checkout session incomplete")));
    }
    let method = session.shipping_method.unwrap();
    let rate = calculate_shipping_rate(method);
    let tax = calculate_tax(&session.cart.subtotal);
    let with_shipping = dec_add(&session.cart.subtotal, &rate.amount);
    proof {
        crate::decimal::lemma_spec_add_wf(session.cart.subtotal, rate.amount);
    }
    let total = dec_add(&with_shipping, &tax);
    let mut lines: Vec<OrderLinePlan> = Vec::new();
    let mut i: usize = 0;
    while i < session.items.len()
        invariant
            i <= session.items.len(),
            order_fits(*session, order_id@),
            lines.len() == i,
            forall|k: int| 0 <= k < i ==> is_line_plan(#[trigger] lines@[k], session.items@[k]),
        decreases session.items.len() - i,
    {
        assert(session.items@[i as int].variant_id@.len() >= 8);
        lines.push(order_line_plan(&session.items[i]));
        i = i + 1;
    }
    Ok(OrderPlan {
        order_number: order_number(order_id),
        status: owned("pending"),
        payment_status: owned("pending"),
        fulfillment_status: owned("unfulfilled"),
        payment_method: owned("card"),
        currency: session.cart.currency.clone(),
        customer_id: crate::agentic::model::clone_opt(&session.cart.customer_id),
        total,
        shipping_total: rate.amount,
        tax_total: tax,
        shipping_method: shipping_method_name(method),
        lines,
        cart_status: CartStatus::Converted,
    })
}

} // verus!
