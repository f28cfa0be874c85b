//! The decisions taken while a paid session is turned into an order: what
//! is charged and shipped, how payment methods and statuses are named, and
//! what the session and the order summary record afterwards.
use vstd::prelude::*;
use crate::agentic::model::{CheckoutError, CheckoutSession, CheckoutSessionCompleteRequest, FulfillmentOption, LineItem, Link, Message, MessageInfo, Order, PaymentProvider};
use crate::agentic::pricing::{find_total_amount, first_total};
use crate::agentic::validate::{find_option_index, lower_seq, outcome, to_ascii_lowercase, Refusal};
use crate::text::{concat, concat3, is_blank, owned, push_str, str_eq, trim, trim_string};

verus! {

/// How a shipment travels.
#[derive(Debug, Clone, Copy, PartialEq, Eq, Structural)]
pub enum ShippingMethod {
    Standard,
    Express,
    Overnight,
    TwoDay,
    International,
}

/// How an order is paid.
#[derive(Debug, Clone, Copy, PartialEq, Eq, Structural)]
pub enum PaymentMethod {
    CreditCard,
    DebitCard,
    PayPal,
    BankTransfer,
    Cash,
    Check,
}

/// The shipping method named by a shipping option's id; unknown ids ship
/// standard.
pub open spec fn method_for_option(id: Seq<char>) -> ShippingMethod {
    if id == "express_shipping"@ {
        ShippingMethod::Express
    } else if id == "overnight_shipping"@ {
        ShippingMethod::Overnight
    } else if id == "two_day_shipping"@ || id == "two_day"@ {
        ShippingMethod::TwoDay
    } else if id == "international_shipping"@ {
        ShippingMethod::International
    } else {
        ShippingMethod::Standard
    }
}

/// A shipping option gives a method and its title as label; anything else
/// ships nothing.
pub fn derive_shipping_details(option: Option<&FulfillmentOption>) -> (r: (Option<ShippingMethod>, Option<String>))
    ensures
        match option {
            Some(FulfillmentOption::Shipping(s)) => {
                &&& r.0 == Some(method_for_option(s.id@))
                &&& r.1 matches Some(l) && l@ == s.title@
            },
            _ => r.0 is None && r.1 is None,
        },
{
    match option {
        Some(FulfillmentOption::Shipping(shipping)) => {
            let id = shipping.id.as_str();
            let method = if str_eq(id, "standard_shipping") {
                ShippingMethod::Standard
            } else if str_eq(id, "express_shipping") {
                ShippingMethod::Express
            } else if str_eq(id, "overnight_shipping") {
                ShippingMethod::Overnight
            } else if str_eq(id, "two_day_shipping") || str_eq(id, "two_day") {
                ShippingMethod::TwoDay
            } else if str_eq(id, "international_shipping") {
                ShippingMethod::International
            } else {
                ShippingMethod::Standard
            };
            proof {
                reveal_strlit("standard_shipping");
                reveal_strlit("express_shipping");
                reveal_strlit("overnight_shipping");
                reveal_strlit("two_day_shipping");
                reveal_strlit("two_day");
                reveal_strlit("international_shipping");
                assert("standard_shipping"@.len() == 17);
                assert("express_shipping"@.len() == 16);
                assert("overnight_shipping"@.len() == 18);
                assert("two_day_shipping"@.len() == 16);
                assert("two_day"@.len() == 7);
                assert("international_shipping"@.len() == 22);
                assert("express_shipping"@[0] != "two_day_shipping"@[0]);
            }
            (Some(method), Some(shipping.title.clone()))
        },
        _ => (None, None),
    }
}

/// The payment method a provider name stands for, in any case; unknown
/// providers are taken as credit card.
pub open spec fn method_for_provider(lower: Seq<char>) -> PaymentMethod {
    if lower == "debit_card"@ || lower == "debit"@ {
        PaymentMethod::DebitCard
    } else if lower == "paypal"@ {
        PaymentMethod::PayPal
    } else if lower == "bank_transfer"@ || lower == "ach"@ {
        PaymentMethod::BankTransfer
    } else if lower == "cash"@ {
        PaymentMethod::Cash
    } else if lower == "check"@ || lower == "cheque"@ {
        PaymentMethod::Check
    } else {
        PaymentMethod::CreditCard
    }
}

pub fn map_payment_method_from_provider(provider: &str) -> (m: PaymentMethod)
    ensures
        m == method_for_provider(lower_seq(provider@)),
{
    let l = to_ascii_lowercase(provider);
    let p = l.as_str();
    if str_eq(p, "debit_card") || str_eq(p, "debit") {
        PaymentMethod::DebitCard
    } else if str_eq(p, "paypal") {
        PaymentMethod::PayPal
    } else if str_eq(p, "bank_transfer") || str_eq(p, "ach") {
        PaymentMethod::BankTransfer
    } else if str_eq(p, "cash") {
        PaymentMethod::Cash
    } else if str_eq(p, "check") || str_eq(p, "cheque") {
        PaymentMethod::Check
    } else {
        PaymentMethod::CreditCard
    }
}

/// The order's payment status for a payment processor's status, in any
/// case.
pub open spec fn normalized_status(lower: Seq<char>) -> Seq<char> {
    if lower == "succeeded"@ || lower == "captured"@ {
        "paid"@
    } else if lower == "failed"@ {
        "failed"@
    } else if lower == "cancelled"@ || lower == "canceled"@ {
        "cancelled"@
    } else if lower == "refunded"@ {
        "refunded"@
    } else if lower == "processing"@ {
        "processing"@
    } else {
        "pending"@
    }
}

pub fn normalize_payment_status(status: &str) -> (s: String)
    ensures
        s@ == normalized_status(lower_seq(status@)),
{
    let l = to_ascii_lowercase(status);
    let p = l.as_str();
    if str_eq(p, "succeeded") || str_eq(p, "captured") {
        owned("paid")
    } else if str_eq(p, "failed") {
        owned("failed")
    } else if str_eq(p, "cancelled") || str_eq(p, "canceled") {
        owned("cancelled")
    } else if str_eq(p, "refunded") {
        owned("refunded")
    } else if str_eq(p, "processing") {
        owned("processing")
    } else {
        owned("pending")
    }
}

/// Who a shipment is addressed to: the address's name, else the buyer's
/// trimmed first and last names, else the buyer's e-mail.
pub open spec fn recipient_name(session: CheckoutSession) -> Option<Seq<char>> {
    if session.fulfillment_address is Some && trim(session.fulfillment_address.unwrap().name@).len() > 0 {
        Some(session.fulfillment_address.unwrap().name@)
    } else {
        match session.buyer {
            None => None,
            Some(b) => {
                let combined = trim(trim(b.first_name@) + " "@ + trim(b.last_name@));
                if combined.len() == 0 {
                    Some(b.email@)
                } else {
                    Some(combined)
                }
            },
        }
    }
}

pub fn derive_recipient_name(session: &CheckoutSession) -> (r: Option<String>)
    ensures
        match r {
            Some(n) => recipient_name(*session) == Some(n@),
            None => recipient_name(*session) is None,
        },
{
    if let Some(address) = &session.fulfillment_address {
        if !is_blank(address.name.as_str()) {
            return Some(address.name.clone());
        }
    }
    match &session.buyer {
        None => None,
        Some(buyer) => {
            let first = trim_string(buyer.first_name.as_str());
            let last = trim_string(buyer.last_name.as_str());
            let joined = concat3(first.as_str(), " ", last.as_str());
            let combined = trim_string(joined.as_str());
            if crate::text::chars_of(combined.as_str()).len() == 0 {
                Some(buyer.email.clone())
            } else {
                Some(combined)
            }
        },
    }
}

/// The links after setting the url of `link_type`: the first link of that
/// type gets it, or a new link is appended.
pub open spec fn upserted(links: Seq<Link>, link_type: Seq<char>, url: Seq<char>, result: Seq<Link>) -> bool {
    if exists|i: int| 0 <= i < links.len() && (#[trigger] links[i]).link_type@ == link_type {
        let i = choose|i: int|
            0 <= i < links.len() && (#[trigger] links[i]).link_type@ == link_type && forall|k: int|
                0 <= k < i ==> (#[trigger] links[k]).link_type@ != link_type;
        &&& result.len() == links.len()
        &&& result[i].link_type == links[i].link_type && result[i].url@ == url
        &&& forall|k: int| 0 <= k < links.len() && k != i ==> result[k] == links[k]
    } else {
        &&& result.len() == links.len() + 1
        &&& result.subrange(0, links.len() as int) == links
        &&& result.last().link_type@ == link_type && result.last().url@ == url
    }
}

/// Sets the url of the first link of `link_type`, or appends such a link.
pub fn upsert_link(links: &mut Vec<Link>, link_type: &str, url: String)
    ensures
        upserted(old(links)@, link_type@, url@, final(links)@),
{
    let mut i: usize = 0;
    while i < links.len()
        invariant
            i <= links.len(),
            links@ == old(links)@,
            forall|k: int| 0 <= k < i ==> (#[trigger] links@[k]).link_type@ != link_type@,
        decreases links.len() - i,
    {
        if str_eq(links[i].link_type.as_str(), link_type) {
            let ghost before = links@;
            let ghost j = choose|j: int|
                0 <= j < before.len() && (#[trigger] before[j]).link_type@ == link_type@ && forall|k: int|
                    0 <= k < j ==> (#[trigger] before[k]).link_type@ != link_type@;
            assert(0 <= i < before.len() && before[i as int].link_type@ == link_type@ && forall|k: int|
                0 <= k < i ==> (#[trigger] before[k]).link_type@ != link_type@);
            let kind = links[i].link_type.clone();
            links.set(i, Link { link_type: kind, url });
            proof {
                if j < i {
                    assert(before[j].link_type@ != link_type@);
                }
                if i < j {
                    assert(before[i as int].link_type@ != link_type@);
                }
            }
            return;
        }
        i = i + 1;
    }
    let kind = owned(link_type);
    links.push(Link { link_type: kind, url });
    assert(links@.subrange(0, old(links)@.len() as int) =~= old(links)@);
}

/// The order's page: by order number, or by id when the number is blank.
pub fn order_permalink(order_number: &str, order_id: &str) -> (s: String)
    ensures
        s@ == "https://merchant.example.com/orders/"@ + (if trim(order_number@).len() == 0 {
            order_id@
        } else {
            order_number@
        }),
{
    if is_blank(order_number) {
        concat("https://merchant.example.com/orders/", order_id)
    } else {
        concat("https://merchant.example.com/orders/", order_number)
    }
}

/// What the order for a paid session is made of.
#[derive(Debug, Clone)]
pub struct CompletionPlan {
    /// Grand total, in cents.
    pub total_cents: i64,
    pub currency: String,
    pub shipping_method: Option<ShippingMethod>,
    pub shipping_label: Option<String>,
    /// `unfulfilled` when something ships, `fulfilled` otherwise.
    pub fulfillment_status: String,
    pub payment_method: PaymentMethod,
}

/// What `str::to_uppercase` gives for `s`.
pub uninterp spec fn upper_case(s: Seq<char>) -> Seq<char>;

/// `str::to_uppercase`. Its documentation maps each character by Unicode's
/// uppercase mapping; on ASCII text that is the ASCII upper case.
#[verifier::external_body]
pub(crate) fn to_uppercase(s: &str) -> (r: String)
    ensures
        r@ == upper_case(s@),
        crate::agentic::validate::all_ascii(s@) ==> r@ == crate::agentic::validate::upper_seq(s@),
{
    s.to_uppercase()
}

/// The option a session has chosen, among those it offers.
pub open spec fn chosen_option(session: CheckoutSession) -> Option<FulfillmentOption> {
    match session.fulfillment_option_id {
        None => None,
        Some(id) => if crate::agentic::validate::has_option(session.fulfillment_options@, id@) {
            let i = choose|i: int|
                0 <= i < session.fulfillment_options.len() && (#[trigger] session.fulfillment_options@[i]).option_id()
                    == id@ && forall|k: int|
                    0 <= k < i ==> (#[trigger] session.fulfillment_options@[k]).option_id() != id@;
            Some(session.fulfillment_options@[i])
        } else {
            None
        },
    }
}

/// The plan for a session's order: its grand total (refused when missing),
/// its currency in upper case, the shipping of its chosen option, and the
/// payment method of the request's provider.
pub fn completion_plan(session: &CheckoutSession, request: &CheckoutSessionCompleteRequest) -> (r: Result<CompletionPlan, CheckoutError>)
    ensures
        match r {
            Err(e) => first_total(session.totals@, "total"@) is None && e.kind() == Refusal::InvalidOperation
                && e.msg() == "Checkout session totals missing grand total amount"@,
            Ok(p) => {
                &&& first_total(session.totals@, "total"@) == Some(p.total_cents)
                &&& p.currency@ == upper_case(session.currency@)
                &&& match chosen_option(*session) {
                    Some(FulfillmentOption::Shipping(s)) => {
                        &&& p.shipping_method == Some(method_for_option(s.id@))
                        &&& p.shipping_label matches Some(l) && l@ == s.title@
                    },
                    _ => p.shipping_method is None && p.shipping_label is None,
                }
                &&& p.fulfillment_status@ == (if p.shipping_method is Some { "unfulfilled"@ } else { "fulfilled"@ })
                &&& p.payment_method == method_for_provider(lower_seq(request.payment_data.provider@))
            },
        },
{
    let total_cents = match find_total_amount(&session.totals, "total") {
        None => {
            return Err(CheckoutError::InvalidOperation(owned("Checkout session totals missing grand total amount")));
        },
        Some(t) => t,
    };
    let currency = to_uppercase(session.currency.as_str());
    let selected: Option<&FulfillmentOption> = match &session.fulfillment_option_id {
        None => None,
        Some(id) => match find_option_index(&session.fulfillment_options, id.as_str()) {
            None => None,
            Some(i) => {
                proof {
                    let opts = session.fulfillment_options@;
                    let j = choose|j: int|
                        0 <= j < opts.len() && (#[trigger] opts[j]).option_id() == id@ && forall|k: int|
                            0 <= k < j ==> (#[trigger] opts[k]).option_id() != id@;
                    assert(opts[i as int].option_id() == id@);
                    if j < i {
                        assert(opts[j].option_id() != id@);
                    }
                    if i < j {
                        assert(opts[i as int].option_id() != id@);
                    }
                }
                Some(&session.fulfillment_options[i])
            },
        },
    };
    let (shipping_method, shipping_label) = derive_shipping_details(selected);
    let fulfillment_status = if shipping_method.is_some() {
        owned("unfulfilled")
    } else {
        owned("fulfilled")
    };
    let payment_method = map_payment_method_from_provider(request.payment_data.provider.as_str());
    Ok(CompletionPlan { total_cents, currency, shipping_method, shipping_label, fulfillment_status, payment_method })
}

/// A shipment tracking number: `trk_` and the hex digits of `uuid`.
pub fn tracking_number_from(uuid: &str) -> (s: String)
    ensures
        s@ == "trk_"@ + crate::agentic::session::without_hyphens(uuid@),
{
    let digits = crate::agentic::session::strip_hyphens(uuid);
    concat("trk_", digits.as_str())
}

/// The carrier's tracking page for a tracking number.
pub fn tracking_url(tracking: &str) -> (s: String)
    ensures
        s@ == "https://carrier.example.com/track/"@ + tracking@,
{
    concat("https://carrier.example.com/track/", tracking)
}

/// The fulfillment status an order is left with: `processing` once a
/// shipment exists, else the one it has.
pub fn order_fulfillment_status(has_shipment: bool, current: &str) -> (s: String)
    ensures
        s@ == (if has_shipment { "processing"@ } else { current@ }),
{
    if has_shipment {
        owned("processing")
    } else {
        owned(current)
    }
}

/// What the order, payment, invoice, sale and shipment services returned
/// for a completed session.
#[derive(Debug, Clone)]
pub struct CompletionRecord {
    pub order_id: String,
    pub order_number: String,
    pub order_status: String,
    pub payment_status: String,
    pub fulfillment_status: String,
    pub order_payment_method: Option<String>,
    pub order_shipping_method: Option<String>,
    pub order_tracking_number: Option<String>,
    pub payment_id: String,
    /// The payment method the payment service recorded.
    pub payment_method: String,
    pub invoice_id: String,
    pub cash_sale_id: String,
    pub shipment_id: Option<String>,
    pub tracking_number: Option<String>,
}

/// The summary of the order of a session.
pub fn compose_order_summary(session: &CheckoutSession, rec: &CompletionRecord, permalink_url: String) -> (o: Order)
    ensures
        o.id == rec.order_id,
        o.checkout_session_id == session.id,
        o.permalink_url == permalink_url,
        o.order_number == Some(rec.order_number),
        o.status == Some(rec.order_status),
        o.payment_status == Some(rec.payment_status),
        o.fulfillment_status == Some(rec.fulfillment_status),
        o.payment_id == session.payment_id,
        o.payment_method == rec.order_payment_method,
        o.invoice_id == session.invoice_id,
        o.cash_sale_id == session.cash_sale_id,
        o.shipment_id == session.shipment_id,
        o.shipping_method == rec.order_shipping_method,
        o.tracking_number == rec.order_tracking_number,
{
    Order {
        id: rec.order_id.clone(),
        checkout_session_id: session.id.clone(),
        permalink_url,
        order_number: Some(rec.order_number.clone()),
        status: Some(rec.order_status.clone()),
        payment_status: Some(rec.payment_status.clone()),
        fulfillment_status: Some(rec.fulfillment_status.clone()),
        payment_id: crate::agentic::model::clone_opt(&session.payment_id),
        payment_method: crate::agentic::model::clone_opt(&rec.order_payment_method),
        invoice_id: crate::agentic::model::clone_opt(&session.invoice_id),
        cash_sale_id: crate::agentic::model::clone_opt(&session.cash_sale_id),
        shipment_id: crate::agentic::model::clone_opt(&session.shipment_id),
        shipping_method: crate::agentic::model::clone_opt(&rec.order_shipping_method),
        tracking_number: crate::agentic::model::clone_opt(&rec.order_tracking_number),
    }
}

/// The confirmation message of an order.
pub open spec fn confirmation_text(rec: CompletionRecord) -> Seq<char> {
    "Order "@ + rec.order_number@ + " confirmed. Invoice "@ + rec.invoice_id@ + " and payment "@ + rec.payment_id@
        + " recorded."@
}

/// Records the outcome of completion in the session (order, payment,
/// invoice, sale and shipment references; the provider with the recorded
/// method in lower case; tracking and order links; a confirmation message)
/// and returns the order summary.
pub fn record_completion(session: &mut CheckoutSession, provider: &str, rec: &CompletionRecord) -> (o: Order)
    ensures
        final(session).order_id matches Some(x) && x@ == rec.order_id@,
        final(session).payment_id matches Some(x) && x@ == rec.payment_id@,
        final(session).invoice_id matches Some(x) && x@ == rec.invoice_id@,
        final(session).cash_sale_id matches Some(x) && x@ == rec.cash_sale_id@,
        final(session).shipment_id == rec.shipment_id,
        final(session).payment_provider matches Some(p) && p.provider@ == provider@
            && p.supported_payment_methods@.len() == 1 && p.supported_payment_methods@[0]@ == lower_seq(rec.payment_method@),
        final(session).messages@.len() == old(session).messages@.len() + 1,
        final(session).messages@.subrange(0, old(session).messages@.len() as int) == old(session).messages@,
        match final(session).messages@.last() {
            Message::Info(m) => {
                &&& m.message_type@ == "order_update"@
                &&& m.param matches Some(p) && p@ == rec.order_number@
                &&& m.content_type@ == "text"@
                &&& m.content@ == confirmation_text(*rec)
            },
            _ => false,
        },
        o.id == rec.order_id,
        o.checkout_session_id == old(session).id,
        o.permalink_url@ == "https://merchant.example.com/orders/"@ + (if trim(rec.order_number@).len() == 0 {
            rec.order_id@
        } else {
            rec.order_number@
        }),
        exists|mid: Seq<Link>| {
            &&& match rec.tracking_number {
                Some(t) => upserted(old(session).links@, "shipment_tracking"@, "https://carrier.example.com/track/"@ + t@, mid),
                None => mid == old(session).links@,
            }
            &&& #[trigger] upserted(mid, "order"@, o.permalink_url@, final(session).links@)
        },
        final(session).id == old(session).id,
        final(session).status == old(session).status,
        final(session).line_items == old(session).line_items,
        final(session).totals == old(session).totals,
        final(session).buyer == old(session).buyer,
        final(session).fulfillment_address == old(session).fulfillment_address,
        final(session).fulfillment_option_id == old(session).fulfillment_option_id,
{
    let ghost start = session.links@;
    session.order_id = Some(rec.order_id.clone());
    session.payment_id = Some(rec.payment_id.clone());
    session.invoice_id = Some(rec.invoice_id.clone());
    session.cash_sale_id = Some(rec.cash_sale_id.clone());
    session.shipment_id = crate::agentic::model::clone_opt(&rec.shipment_id);
    let mut methods: Vec<String> = Vec::new();
    methods.push(to_ascii_lowercase(rec.payment_method.as_str()));
    session.payment_provider = Some(PaymentProvider { provider: owned(provider), supported_payment_methods: methods });
    if let Some(tracking) = &rec.tracking_number {
        upsert_link(&mut session.links, "shipment_tracking", tracking_url(tracking.as_str()));
    }
    let ghost mid = session.links@;
    assert(match rec.tracking_number {
        Some(t) => upserted(start, "shipment_tracking"@, "https://carrier.example.com/track/"@ + t@, mid),
        None => mid == start,
    });
    let permalink = order_permalink(rec.order_number.as_str(), rec.order_id.as_str());
    upsert_link(&mut session.links, "order", permalink.clone());
    assert(upserted(mid, "order"@, permalink@, session.links@));
    let mut content = concat3("Order ", rec.order_number.as_str(), " confirmed. Invoice ");
    push_str(&mut content, rec.invoice_id.as_str());
    push_str(&mut content, " and payment ");
    push_str(&mut content, rec.payment_id.as_str());
    push_str(&mut content, " recorded.");
    let ghost before = session.messages@;
    session.messages.push(Message::Info(MessageInfo {
        message_type: owned("order_update"),
        param: Some(rec.order_number.clone()),
        content_type: owned("text"),
        content,
    }));
    assert(session.messages@.subrange(0, before.len() as int) =~= before);
    let ghost fin = session.links@;
    let o = compose_order_summary(session, rec, permalink);
    assert(upserted(mid, "order"@, o.permalink_url@, fin));
    o
}

/// What a line item contributes to an order: its SKU (or its id), its
/// title, its quantity, its unit price in cents, and its tax and subtotal
/// when both are positive (their ratio is the tax rate).
#[derive(Debug, Clone)]
pub struct OrderItemPlan {
    pub sku: String,
    pub name: String,
    pub quantity: i32,
    pub unit_price_cents: i64,
    pub tax_basis: Option<(i64, i64)>,
    /// The first of the variant id and the item id that is a UUID.
    pub product_ref: Option<String>,
}

/// An ASCII hexadecimal digit, in either case.
pub open spec fn hex_char(c: char) -> bool {
    ('0' <= c <= '9') || ('a' <= c <= 'f') || ('A' <= c <= 'F')
}

/// A UUID in its hyphenated form: 36 characters, hyphens at 8, 13, 18 and
/// 23, hexadecimal digits everywhere else.
pub open spec fn hyphenated_uuid(s: Seq<char>) -> bool {
    &&& s.len() == 36
    &&& forall|i: int|
        0 <= i < 36 ==> if i == 8 || i == 13 || i == 18 || i == 23 {
            s[i] == '-'
        } else {
            hex_char(#[trigger] s[i])
        }
}

/// `c` is the letter `lower`, in either case, or the same other character.
pub open spec fn same_ignoring_ascii_case(c: char, lower: char) -> bool {
    c == lower || ('a' <= lower <= 'z' && c as int + 32 == lower as int)
}

/// The text begins with `urn:uuid:`, its letters in either case.
pub open spec fn urn_uuid_prefix(s: Seq<char>) -> bool {
    &&& s.len() >= 9
    &&& forall|i: int| 0 <= i < 9 ==> same_ignoring_ascii_case(#[trigger] s[i], seq!['u', 'r', 'n', ':', 'u', 'u', 'i', 'd', ':'][i])
}

/// The texts `uuid::Uuid::parse_str` accepts: 32 hexadecimal digits, the
/// hyphenated form, the hyphenated form in braces, or the hyphenated form
/// after `urn:uuid:`.
pub open spec fn uuid_text(s: Seq<char>) -> bool {
    ||| s.len() == 32 && forall|i: int| 0 <= i < 32 ==> hex_char(#[trigger] s[i])
    ||| hyphenated_uuid(s)
    ||| s.len() == 38 && s[0] == '{' && s[37] == '}' && hyphenated_uuid(s.subrange(1, 37))
    ||| s.len() == 45 && urn_uuid_prefix(s) && hyphenated_uuid(s.subrange(9, 45))
}

/// `uuid::Uuid::parse_str` succeeds: its parser goes by the input's length
/// (32, 36, 38 or 45 bytes) to one of the four forms of `uuid_text`, and
/// checks the hyphens and hexadecimal digits of that form.
#[verifier::external_body]
fn is_uuid(s: &str) -> (r: bool)
    ensures
        r == uuid_text(s@),
{
    uuid::Uuid::parse_str(s).is_ok()
}

/// The contribution of a line item to its order.
pub fn order_item_plan(li: &LineItem) -> (p: OrderItemPlan)
    ensures
        p.sku@ == (match li.sku {
            Some(s) => s@,
            None => li.id@,
        }),
        p.name@ == li.title@,
        p.quantity == li.quantity,
        p.unit_price_cents == li.unit_price.amount,
        p.tax_basis == (if li.subtotal > 0 && li.tax > 0 { Some((li.tax, li.subtotal)) } else { None }),
        p.product_ref == (match li.variant_id {
            Some(v) => if uuid_text(v@) {
                Some(v)
            } else {
                match li.item {
                    Some(it) => if uuid_text(it.id@) { Some(it.id) } else { None },
                    None => None,
                }
            },
            None => match li.item {
                Some(it) => if uuid_text(it.id@) { Some(it.id) } else { None },
                None => None,
            },
        }),
{
    let sku = match &li.sku {
        Some(s) => s.clone(),
        None => li.id.clone(),
    };
    let from_item: Option<String> = match &li.item {
        Some(it) => if is_uuid(it.id.as_str()) { Some(it.id.clone()) } else { None },
        None => None,
    };
    let product_ref = match &li.variant_id {
        Some(v) => if is_uuid(v.as_str()) { Some(v.clone()) } else { from_item },
        None => from_item,
    };
    let tax_basis = if li.subtotal > 0 && li.tax > 0 {
        Some((li.tax, li.subtotal))
    } else {
        None
    };
    OrderItemPlan {
        sku,
        name: li.title.clone(),
        quantity: li.quantity,
        unit_price_cents: li.unit_price.amount,
        tax_basis,
        product_ref,
    }
}

/// The contributions of all line items, in order.
pub fn build_order_item_inputs(line_items: &Vec<LineItem>) -> (ps: Vec<OrderItemPlan>)
    ensures
        ps.len() == line_items.len(),
        forall|i: int| 0 <= i < line_items.len() ==> {
            &&& (#[trigger] ps@[i]).quantity == line_items@[i].quantity
            &&& ps@[i].unit_price_cents == line_items@[i].unit_price.amount
            &&& ps@[i].name@ == line_items@[i].title@
        },
{
    let mut ps: Vec<OrderItemPlan> = Vec::new();
    let mut i: usize = 0;
    while i < line_items.len()
        invariant
            i <= line_items.len(),
            ps.len() == i,
            forall|k: int| 0 <= k < i ==> {
                &&& (#[trigger] ps@[k]).quantity == line_items@[k].quantity
                &&& ps@[k].unit_price_cents == line_items@[k].unit_price.amount
                &&& ps@[k].name@ == line_items@[k].title@
            },
        decreases line_items.len() - i,
    {
        ps.push(order_item_plan(&line_items[i]));
        i = i + 1;
    }
    ps
}

} // verus!
