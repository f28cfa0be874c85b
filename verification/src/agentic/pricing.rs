//! Line items, totals, fulfillment options and readiness of a session.
use vstd::prelude::*;
use crate::agentic::model::clone_opt;
use crate::agentic::model::{
    Address, CheckoutError, CheckoutSession, CheckoutSessionCreateRequest, FulfillmentOption,
    FulfillmentOptionShipping, Item, LineItem, Money, Total,
};
use crate::agentic::validate::Refusal;
use crate::text::{concat, concat3, owned};

verus! {

/// Price charged for an item the catalog does not know, in cents.
pub const FALLBACK_PRICE_CENTS: i64 = 5000;
/// Price of any shipping option chosen at checkout, in cents.
pub const SHIPPING_COST_CENTS: i64 = 1000;

/// What the catalog knows of the product behind an item: its price in whole
/// units (`None` when the price does not fit an `i64`), name, SKU and image.
#[derive(Debug, Clone)]
pub struct ProductFacts {
    pub price: Option<i64>,
    pub name: String,
    pub sku: String,
    pub image_url: Option<String>,
}

/// A promotion as it applies to one checkout: its code, the discount it
/// grants on the items' base amount, and whether it makes shipping free.
#[derive(Debug, Clone)]
pub struct PromotionTerms {
    pub code: String,
    pub discount: i64,
    pub free_shipping: bool,
}

/// The unit price of an item: the catalog's, or the fallback price.
pub open spec fn unit_price_of(product: Option<ProductFacts>) -> int {
    match product {
        Some(p) => p.price.unwrap() as int,
        None => FALLBACK_PRICE_CENTS as int,
    }
}

/// Whether `li` is the line item for `item` priced from `product` (its own
/// id aside): amounts are unit price times quantity, with no discount or
/// tax yet.
pub open spec fn is_line_item_for(li: LineItem, item: Item, product: Option<ProductFacts>) -> bool {
    let unit = unit_price_of(product);
    &&& li.quantity == item.quantity
    &&& li.unit_price.amount == unit
    &&& li.unit_price.currency@ == "usd"@
    &&& li.variant_id is None
    &&& li.item == Some(item)
    &&& li.base_amount == unit * item.quantity
    &&& li.discount == 0
    &&& li.subtotal == li.base_amount
    &&& li.tax == 0
    &&& li.total == li.base_amount
    &&& match product {
        Some(p) => li.title@ == p.name@ && li.sku == Some(p.sku) && li.image_url == p.image_url,
        None => li.title@ == "Product "@ + item.id@ && li.sku == Some(item.id) && li.image_url is None,
    }
}

/// A product whose price does not fit is an internal error.
pub open spec fn price_missing(product: Option<ProductFacts>) -> bool {
    match product {
        Some(p) => p.price is None,
        None => false,
    }
}

/// Quantities were validated, and the amount fits an `i64`.
pub open spec fn priceable(item: Item, product: Option<ProductFacts>) -> bool {
    &&& 1 <= item.quantity <= 99
    &&& (!price_missing(product) ==> i64::MIN <= unit_price_of(product) * item.quantity <= i64::MAX)
}

/// The line item for `item`, identified by `line_id`.
pub fn line_item_for(item: &Item, product: &Option<ProductFacts>, line_id: String) -> (r: Result<LineItem, CheckoutError>)
    requires
        priceable(*item, *product),
    ensures
        match r {
            Ok(li) => !price_missing(*product) && li.id == line_id && is_line_item_for(li, *item, *product),
            Err(e) => price_missing(*product) && e.kind() == Refusal::Internal && e.msg() == "Invalid price for product "@ + item.id@,
        },
{
    let (unit, title, sku, image_url) = match product {
        Some(p) => match p.price {
            Some(price) => (price, p.name.clone(), Some(p.sku.clone()), clone_opt(&p.image_url)),
            None => {
                return Err(CheckoutError::InternalError(concat("Invalid price for product ", item.id.as_str())));
            },
        },
        None => (FALLBACK_PRICE_CENTS, concat("Product ", item.id.as_str()), Some(item.id.clone()), None),
    };
    proof {
        assert(unit == unit_price_of(*product));
    }
    let base_amount = unit * (item.quantity as i64);
    Ok(LineItem {
        id: line_id,
        title,
        quantity: item.quantity,
        unit_price: Money { amount: unit, currency: owned("usd") },
        variant_id: None,
        sku,
        image_url,
        item: Some(item.clone()),
        base_amount,
        discount: 0,
        subtotal: base_amount,
        tax: 0,
        total: base_amount,
    })
}

/// The line items for `items`, item `i` priced from `products[i]`, each with
/// a fresh id; the first product with an unusable price refuses them all.
pub fn build_line_items(items: &Vec<Item>, products: &Vec<Option<ProductFacts>>) -> (r: Result<Vec<LineItem>, CheckoutError>)
    requires
        products.len() == items.len(),
        forall|i: int| 0 <= i < items.len() ==> priceable(#[trigger] items@[i], products@[i]),
    ensures
        match r {
            Ok(lis) => lis.len() == items.len() && forall|i: int| 0 <= i < items.len() ==> {
                &&& !price_missing(#[trigger] products@[i])
                &&& is_line_item_for(lis@[i], items@[i], products@[i])
            },
            Err(e) => exists|i: int| 0 <= i < items.len() && #[trigger] price_missing(products@[i]) && (forall|k: int|
                0 <= k < i ==> !price_missing(#[trigger] products@[k])) && e.kind() == Refusal::Internal && e.msg()
                == "Invalid price for product "@ + items@[i].id@,
        },
{
    let mut out: Vec<LineItem> = Vec::new();
    let mut i: usize = 0;
    while i < items.len()
        invariant
            i <= items.len() == products.len(),
            forall|k: int| 0 <= k < items.len() ==> priceable(#[trigger] items@[k], products@[k]),
            out.len() == i,
            forall|k: int| 0 <= k < i ==> {
                &&& !price_missing(#[trigger] products@[k])
                &&& is_line_item_for(out@[k], items@[k], products@[k])
            },
        decreases items.len() - i,
    {
        assert(priceable(items@[i as int], products@[i as int]));
        let li = line_item_for(&items[i], &products[i], crate::agentic::session::new_uuid());
        match li {
            Ok(li) => out.push(li),
            Err(e) => {
                return Err(e);
            },
        }
        i = i + 1;
    }
    Ok(out)
}

/// The sum of `f` over `s`.
pub open spec fn sum_of(s: Seq<LineItem>, f: spec_fn(LineItem) -> i64) -> int
    decreases s.len(),
{
    if s.len() == 0 {
        0
    } else {
        sum_of(s.drop_last(), f) + f(s.last()) as int
    }
}

pub open spec fn base_of(li: LineItem) -> i64 {
    li.base_amount
}

pub open spec fn discount_of(li: LineItem) -> i64 {
    li.discount
}

pub open spec fn tax_of(li: LineItem) -> i64 {
    li.tax
}

pub open spec fn fits_i64(x: int) -> bool {
    i64::MIN <= x <= i64::MAX
}

/// The promotion's discount, or none.
pub open spec fn promo_discount(promotion: Option<PromotionTerms>) -> int {
    match promotion {
        Some(p) => p.discount as int,
        None => 0,
    }
}

/// Shipping charged: the flat rate once an option is chosen, unless the
/// promotion makes it free.
pub open spec fn shipping_charge(option_chosen: bool, promotion: Option<PromotionTerms>) -> int {
    if !option_chosen {
        0
    } else {
        match promotion {
            Some(p) => if p.free_shipping { 0 } else { SHIPPING_COST_CENTS as int },
            None => SHIPPING_COST_CENTS as int,
        }
    }
}

pub open spec fn items_base(items: Seq<LineItem>) -> int {
    sum_of(items, |li: LineItem| base_of(li))
}

pub open spec fn items_discount(items: Seq<LineItem>, promotion: Option<PromotionTerms>) -> int {
    sum_of(items, |li: LineItem| discount_of(li)) + promo_discount(promotion)
}

pub open spec fn items_tax(items: Seq<LineItem>) -> int {
    sum_of(items, |li: LineItem| tax_of(li))
}

pub open spec fn subtotal_of(items: Seq<LineItem>, promotion: Option<PromotionTerms>) -> int {
    items_base(items) - items_discount(items, promotion)
}

pub open spec fn grand_total(items: Seq<LineItem>, option_chosen: bool, promotion: Option<PromotionTerms>) -> int {
    subtotal_of(items, promotion) + shipping_charge(option_chosen, promotion) + items_tax(items)
}

/// All the amounts a summary states fit an `i64`.
pub open spec fn totals_fit(items: Seq<LineItem>, option_chosen: bool, promotion: Option<PromotionTerms>) -> bool {
    &&& fits_i64(items_base(items))
    &&& fits_i64(items_discount(items, promotion))
    &&& fits_i64(-items_discount(items, promotion))
    &&& fits_i64(subtotal_of(items, promotion))
    &&& fits_i64(items_tax(items))
    &&& fits_i64(grand_total(items, option_chosen, promotion))
}

/// A total as type, text and amount.
pub open spec fn total_is(t: Total, ty: Seq<char>, text: Seq<char>, amount: int) -> bool {
    t.total_type@ == ty && t.display_text@ == text && t.amount == amount
}

/// The summary of a checkout, in order: items; the discount when there is
/// one; subtotal; shipping when an option is chosen; tax; total.
pub open spec fn is_totals_summary(
    ts: Seq<Total>,
    items: Seq<LineItem>,
    option_chosen: bool,
    promotion: Option<PromotionTerms>,
) -> bool {
    let disc = items_discount(items, promotion);
    let d = if disc > 0 { 1int } else { 0int };
    let f = if option_chosen { 1int } else { 0int };
    &&& ts.len() == 4 + d + f
    &&& total_is(ts[0], "items_base_amount"@, "Items"@, items_base(items))
    &&& (disc > 0 ==> total_is(ts[1], "items_discount"@, match promotion {
        Some(p) => "Discount ("@ + p.code@ + ")"@,
        None => "Discount"@,
    }, -disc))
    &&& total_is(ts[1 + d], "subtotal"@, "Subtotal"@, subtotal_of(items, promotion))
    &&& (option_chosen ==> total_is(ts[2 + d], "fulfillment"@, match promotion {
        Some(p) => if p.free_shipping { "Shipping (FREE with "@ + p.code@ + ")"@ } else { "Shipping"@ },
        None => "Shipping"@,
    }, shipping_charge(option_chosen, promotion)))
    &&& total_is(ts[2 + d + f], "tax"@, "Tax"@, items_tax(items))
    &&& total_is(ts[3 + d + f], "total"@, "Total"@, grand_total(items, option_chosen, promotion))
}

fn total(ty: &str, text: String, amount: i64) -> (t: Total)
    ensures
        t.total_type@ == ty@,
        t.display_text@ == text@,
        t.amount == amount,
{
    Total { total_type: owned(ty), display_text: text, amount }
}

proof fn lemma_sum_bound(s: Seq<LineItem>, f: spec_fn(LineItem) -> i64)
    ensures
        -(s.len() * 0x8000_0000_0000_0000) <= sum_of(s, f) <= s.len() * 0x8000_0000_0000_0000,
    decreases s.len(),
{
    if s.len() > 0 {
        lemma_sum_bound(s.drop_last(), f);
    }
}

/// The three per-item sums (base, discount, tax) of `items`.
fn item_sums(items: &Vec<LineItem>) -> (r: (i128, i128, i128))
    ensures
        r.0 == items_base(items@),
        r.1 == sum_of(items@, |li: LineItem| discount_of(li)),
        r.2 == items_tax(items@),
{
    let mut base: i128 = 0;
    let mut disc: i128 = 0;
    let mut tax: i128 = 0;
    let mut i: usize = 0;
    while i < items.len()
        invariant
            i <= items.len(),
            base == items_base(items@.take(i as int)),
            disc == sum_of(items@.take(i as int), |li: LineItem| discount_of(li)),
            tax == items_tax(items@.take(i as int)),
        decreases items.len() - i,
    {
        let ghost p = items@.take(i as int);
        let ghost q = items@.take(i + 1);
        proof {
            assert(q.drop_last() =~= p);
            lemma_sum_bound(p, |li: LineItem| base_of(li));
            lemma_sum_bound(p, |li: LineItem| discount_of(li));
            lemma_sum_bound(p, |li: LineItem| tax_of(li));
            assert(p.len() == i);
            assert(i < 0x1_0000_0000_0000_0000);
            assert(i * 0x8000_0000_0000_0000 <= 0x8000_0000_0000_0000_0000_0000_0000_0000) by (nonlinear_arith)
                requires i < 0x1_0000_0000_0000_0000;
        }
        base = base + items[i].base_amount as i128;
        disc = disc + items[i].discount as i128;
        tax = tax + items[i].tax as i128;
        i = i + 1;
    }
    assert(items@.take(i as int) =~= items@);
    (base, disc, tax)
}

/// The totals of a checkout: items, discount (line discounts plus the
/// promotion's), subtotal, shipping, tax and grand total.
pub fn calculate_totals_with_promotion(
    line_items: &Vec<LineItem>,
    fulfillment_option_id: Option<&str>,
    promotion: Option<&PromotionTerms>,
) -> (ts: Vec<Total>)
    requires
        totals_fit(line_items@, fulfillment_option_id is Some, match promotion {
            Some(p) => Some(*p),
            None => None,
        }),
    ensures
        is_totals_summary(ts@, line_items@, fulfillment_option_id is Some, match promotion {
            Some(p) => Some(*p),
            None => None,
        }),
{
    let ghost promo: Option<PromotionTerms> = match promotion {
        Some(p) => Some(*p),
        None => None,
    };
    let (base, line_disc, tax) = item_sums(line_items);
    let promo_disc: i64 = match promotion {
        Some(p) => p.discount,
        None => 0,
    };
    let discount = (line_disc + promo_disc as i128) as i64;
    let mut ts: Vec<Total> = Vec::new();
    ts.push(total("items_base_amount", owned("Items"), base as i64));
    if discount > 0 {
        let text = match promotion {
            Some(p) => concat3("Discount (", p.code.as_str(), ")"),
            None => owned("Discount"),
        };
        ts.push(total("items_discount", text, -discount));
    }
    let subtotal = (base as i64) - discount;
    ts.push(total("subtotal", owned("Subtotal"), subtotal));
    let mut fulfillment_cost: i64 = if fulfillment_option_id.is_some() {
        SHIPPING_COST_CENTS
    } else {
        0
    };
    if fulfillment_cost > 0 {
        match promotion {
            Some(p) => {
                if p.free_shipping {
                    fulfillment_cost = 0;
                    ts.push(total("fulfillment", concat3("Shipping (FREE with ", p.code.as_str(), ")"), 0));
                } else {
                    ts.push(total("fulfillment", owned("Shipping"), fulfillment_cost));
                }
            },
            None => {
                ts.push(total("fulfillment", owned("Shipping"), fulfillment_cost));
            },
        }
    }
    proof {
        assert(fulfillment_cost == shipping_charge(fulfillment_option_id is Some, promo));
    }
    ts.push(total("tax", owned("Tax"), tax as i64));
    ts.push(total("total", owned("Total"), (subtotal as i128 + fulfillment_cost as i128 + tax) as i64));
    ts
}

/// The totals without a promotion.
pub fn calculate_totals(line_items: &Vec<LineItem>, fulfillment_option_id: Option<&str>) -> (ts: Vec<Total>)
    requires
        totals_fit(line_items@, fulfillment_option_id is Some, None),
    ensures
        is_totals_summary(ts@, line_items@, fulfillment_option_id is Some, None),
{
    calculate_totals_with_promotion(line_items, fulfillment_option_id, None)
}

/// The first total of type `ty`.
pub open spec fn first_total(ts: Seq<Total>, ty: Seq<char>) -> Option<i64>
    decreases ts.len(),
{
    if ts.len() == 0 {
        None
    } else if ts[0].total_type@ == ty {
        Some(ts[0].amount)
    } else {
        first_total(ts.drop_first(), ty)
    }
}

/// The amount of the first total of type `total_type`.
pub fn find_total_amount(totals: &Vec<Total>, total_type: &str) -> (r: Option<i64>)
    ensures
        r == first_total(totals@, total_type@),
{
    let n = totals.len();
    let mut i: usize = 0;
    assert(totals@.subrange(0, n as int) =~= totals@);
    while i < n
        invariant
            i <= n == totals.len(),
            first_total(totals@, total_type@) == first_total(totals@.subrange(i as int, n as int), total_type@),
        decreases n - i,
    {
        assert(totals@.subrange(i as int, n as int).drop_first() =~= totals@.subrange(i + 1, n as int));
        assert(totals@.subrange(i as int, n as int)[0] == totals@[i as int]);
        if crate::text::str_eq(totals[i].total_type.as_str(), total_type) {
            return Some(totals[i].amount);
        }
        i = i + 1;
    }
    None
}

/// Whether `o` is the shipping option with the given id, title, subtitle,
/// carrier and prices.
pub open spec fn is_shipping_option(
    o: FulfillmentOption,
    id: Seq<char>,
    title: Seq<char>,
    subtitle: Seq<char>,
    carrier: Seq<char>,
    subtotal: Seq<char>,
    tax: Seq<char>,
    total: Seq<char>,
) -> bool {
    match o {
        FulfillmentOption::Shipping(s) => {
            &&& s.id@ == id
            &&& s.title@ == title
            &&& s.subtitle matches Some(x) && x@ == subtitle
            &&& s.carrier matches Some(x) && x@ == carrier
            &&& s.earliest_delivery_time is None
            &&& s.latest_delivery_time is None
            &&& s.subtotal@ == subtotal
            &&& s.tax@ == tax
            &&& s.total@ == total
        },
        _ => false,
    }
}

/// With an address: standard (USPS, $10.00 + $0.88) and express (FedEx,
/// $25.00 + $2.19) shipping; without one, nothing.
pub open spec fn is_fulfillment_offer(os: Seq<FulfillmentOption>, has_address: bool) -> bool {
    if has_address {
        &&& os.len() == 2
        &&& is_shipping_option(os[0], "standard_shipping"@, "Standard Shipping"@, "5-7 business days"@, "USPS"@, "1000"@, "88"@, "1088"@)
        &&& is_shipping_option(os[1], "express_shipping"@, "Express Shipping"@, "2-3 business days"@, "FedEx"@, "2500"@, "219"@, "2719"@)
    } else {
        os.len() == 0
    }
}

pub fn get_fulfillment_options(address: Option<&Address>) -> (os: Vec<FulfillmentOption>)
    ensures
        is_fulfillment_offer(os@, address is Some),
{
    let mut os: Vec<FulfillmentOption> = Vec::new();
    if address.is_some() {
        os.push(FulfillmentOption::Shipping(FulfillmentOptionShipping {
            id: owned("standard_shipping"),
            title: owned("Standard Shipping"),
            subtitle: Some(owned("5-7 business days")),
            carrier: Some(owned("USPS")),
            earliest_delivery_time: None,
            latest_delivery_time: None,
            subtotal: owned("1000"),
            tax: owned("88"),
            total: owned("1088"),
        }));
        os.push(FulfillmentOption::Shipping(FulfillmentOptionShipping {
            id: owned("express_shipping"),
            title: owned("Express Shipping"),
            subtitle: Some(owned("2-3 business days")),
            carrier: Some(owned("FedEx")),
            earliest_delivery_time: None,
            latest_delivery_time: None,
            subtotal: owned("2500"),
            tax: owned("219"),
            total: owned("2719"),
        }));
    }
    os
}

/// A new session is ready for payment once it has a buyer, an address and
/// at least one line item.
pub fn determine_status(request: &CheckoutSessionCreateRequest, line_items: &Vec<LineItem>) -> (s: String)
    ensures
        s@ == (if request.buyer is Some && request.fulfillment_address is Some && line_items.len() > 0 {
            crate::agentic::fsm::ready()
        } else {
            crate::agentic::fsm::not_ready()
        }),
{
    if request.buyer.is_some() && request.fulfillment_address.is_some() && line_items.len() > 0 {
        owned(crate::agentic::fsm::READY_FOR_PAYMENT)
    } else {
        owned(crate::agentic::fsm::NOT_READY_FOR_PAYMENT)
    }
}

/// Whether a session has all that payment needs: buyer, address, chosen
/// fulfillment option and line items.
pub open spec fn session_ready(session: CheckoutSession) -> bool {
    session.buyer is Some && session.fulfillment_address is Some && session.fulfillment_option_id is Some
        && session.line_items.len() > 0
}

/// A session is ready for payment once it has a buyer, an address, a
/// fulfillment option and at least one line item.
pub fn determine_status_from_session(session: &CheckoutSession) -> (s: String)
    ensures
        s@ == (if session_ready(*session) {
            crate::agentic::fsm::ready()
        } else {
            crate::agentic::fsm::not_ready()
        }),
        s@ == crate::agentic::fsm::ready() <==> (session.buyer is Some && session.fulfillment_address is Some
            && session.fulfillment_option_id is Some && session.line_items.len() > 0),
        session.fulfillment_option_id is None ==> s@ == crate::agentic::fsm::not_ready(),
{
    proof {
        reveal_strlit("ready_for_payment");
        reveal_strlit("not_ready_for_payment");
    }
    if session.buyer.is_some() && session.fulfillment_address.is_some() && session.fulfillment_option_id.is_some()
        && session.line_items.len() > 0 {
        owned(crate::agentic::fsm::READY_FOR_PAYMENT)
    } else {
        owned(crate::agentic::fsm::NOT_READY_FOR_PAYMENT)
    }
}

/// A session is ready for payment exactly when it has a buyer, a
/// fulfillment address, a chosen fulfillment option and at least one line
/// item; in particular no session without a chosen option is ready.
pub proof fn law_ready_for_payment_needs_a_chosen_option(s: CheckoutSession)
    ensures
        session_ready(s) ==> s.fulfillment_option_id is Some,
        session_ready(s) ==> s.buyer is Some && s.fulfillment_address is Some && s.line_items.len() > 0,
        s.buyer is Some && s.fulfillment_address is Some && s.fulfillment_option_id is Some && s.line_items.len() > 0
            ==> session_ready(s),
        !session_ready(CheckoutSession { fulfillment_option_id: None, ..s }),
{
}

} // verus!
