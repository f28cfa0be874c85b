//! The state changes of a checkout session: creation, update, cancellation,
//! payment authorization and capture, and completion.
use vstd::prelude::*;
use crate::agentic::fsm::{self, canceled, completed, not_ready, ready};
use crate::agentic::model::{Address, Buyer, CheckoutError, CheckoutSession, CheckoutSessionCompleteRequest, CheckoutSessionCreateRequest, CheckoutSessionUpdateRequest, LineItem, Link, PaymentData, PaymentIntent, PaymentIntentStatus, PaymentProvider};
use crate::agentic::pricing::{calculate_totals, calculate_totals_with_promotion, determine_status, determine_status_from_session, find_total_amount, first_total, get_fulfillment_options, is_fulfillment_offer, is_totals_summary, session_ready, totals_fit, PromotionTerms};
use crate::agentic::validate::{check_complete_request, check_fulfillment_selection, check_payment_provider, check_session_open, check_update_request, ensure_session_open, invalid, outcome, validate_complete_request, validate_fulfillment_selection, validate_payment_provider, validate_update_request, Outcome, Refusal};
use crate::text::{concat, concat3, owned, str_eq, trim};

verus! {

/// The links every new session carries: terms of use and privacy policy.
pub open spec fn is_default_links(links: Seq<Link>) -> bool {
    &&& links.len() == 2
    &&& links[0].link_type@ == "terms_of_use"@ && links[0].url@ == "https://merchant.example.com/terms"@
    &&& links[1].link_type@ == "privacy_policy"@ && links[1].url@ == "https://merchant.example.com/privacy"@
}

/// A new session: paid through Stripe by card, in USD, with the request's
/// buyer, address and promotion code, the given line items, the offered
/// fulfillment options, totals without shipping, and expiry `ttl_ms` after
/// `now`.
pub fn new_session(
    id: String,
    request: CheckoutSessionCreateRequest,
    line_items: Vec<LineItem>,
    promotion: Option<&PromotionTerms>,
    now: i64,
    ttl_ms: i64,
) -> (s: CheckoutSession)
    requires
        totals_fit(line_items@, false, match promotion {
            Some(p) => Some(*p),
            None => None,
        }),
        now as int + ttl_ms as int <= i64::MAX,
        now as int + ttl_ms as int >= i64::MIN,
    ensures
        s.id == id,
        s.buyer == request.buyer,
        s.payment_provider matches Some(p) && p.provider@ == "stripe"@ && p.supported_payment_methods@.len() == 1
            && p.supported_payment_methods@[0]@ == "card"@,
        s.order_id is None && s.payment_id is None && s.invoice_id is None && s.cash_sale_id is None,
        s.shipment_id is None,
        s.status@ == (if request.buyer is Some && request.fulfillment_address is Some && line_items.len() > 0 {
            ready()
        } else {
            not_ready()
        }),
        s.currency@ == "USD"@,
        s.line_items@ == line_items@,
        s.fulfillment_address == request.fulfillment_address,
        is_fulfillment_offer(s.fulfillment_options@, request.fulfillment_address is Some),
        s.fulfillment_option_id is None,
        s.promotion_code == request.promotion_code,
        is_totals_summary(s.totals@, line_items@, false, match promotion {
            Some(p) => Some(*p),
            None => None,
        }),
        s.messages@.len() == 0,
        is_default_links(s.links@),
        s.created_at == now,
        s.updated_at is None,
        s.expires_at == now + ttl_ms,
        s.completed_at is None && s.canceled_at is None && s.payment_intent_id is None,
{
    let totals = calculate_totals_with_promotion(&line_items, None, promotion);
    let fulfillment_options = get_fulfillment_options(request.fulfillment_address.as_ref());
    let status = determine_status(&request, &line_items);
    let mut methods: Vec<String> = Vec::new();
    methods.push(owned("card"));
    let mut links: Vec<Link> = Vec::new();
    links.push(Link { link_type: owned("terms_of_use"), url: owned("https://merchant.example.com/terms") });
    links.push(Link { link_type: owned("privacy_policy"), url: owned("https://merchant.example.com/privacy") });
    CheckoutSession {
        id,
        buyer: request.buyer,
        payment_provider: Some(PaymentProvider { provider: owned("stripe"), supported_payment_methods: methods }),
        order_id: None,
        payment_id: None,
        invoice_id: None,
        cash_sale_id: None,
        shipment_id: None,
        status,
        currency: owned("USD"),
        line_items,
        fulfillment_address: request.fulfillment_address,
        fulfillment_options,
        fulfillment_option_id: None,
        promotion_code: request.promotion_code,
        totals,
        messages: Vec::new(),
        links,
        created_at: now,
        updated_at: None,
        expires_at: now + ttl_ms,
        completed_at: None,
        canceled_at: None,
        payment_intent_id: None,
    }
}

/// Field-by-field equality of optional strings.
pub open spec fn opt_str_eq(a: Option<String>, b: Option<String>) -> bool {
    match (a, b) {
        (Some(x), Some(y)) => x@ == y@,
        (None, None) => true,
        _ => false,
    }
}

/// Two addresses with the same text in every field.
pub open spec fn same_address(a: Address, b: Address) -> bool {
    &&& a.name@ == b.name@
    &&& a.line_one@ == b.line_one@
    &&& opt_str_eq(a.line_two, b.line_two)
    &&& a.city@ == b.city@
    &&& a.state@ == b.state@
    &&& a.country@ == b.country@
    &&& a.postal_code@ == b.postal_code@
    &&& opt_str_eq(a.phone, b.phone)
    &&& opt_str_eq(a.email, b.email)
}

fn opt_eq(a: &Option<String>, b: &Option<String>) -> (r: bool)
    ensures
        r == opt_str_eq(*a, *b),
{
    match (a, b) {
        (Some(x), Some(y)) => str_eq(x.as_str(), y.as_str()),
        (None, None) => true,
        _ => false,
    }
}

/// Whether two addresses agree in every field (`Address`'s `==`).
pub fn addresses_equal(a: &Address, b: &Address) -> (r: bool)
    ensures
        r == same_address(*a, *b),
{
    str_eq(a.name.as_str(), b.name.as_str()) && str_eq(a.line_one.as_str(), b.line_one.as_str())
        && opt_eq(&a.line_two, &b.line_two) && str_eq(a.city.as_str(), b.city.as_str())
        && str_eq(a.state.as_str(), b.state.as_str()) && str_eq(a.country.as_str(), b.country.as_str())
        && str_eq(a.postal_code.as_str(), b.postal_code.as_str()) && opt_eq(&a.phone, &b.phone)
        && opt_eq(&a.email, &b.email)
}

/// Whether the option `id` is offered once the update is applied: a new
/// address brings the standard options, otherwise the session's stand.
pub open spec fn offered_after(session: CheckoutSession, request: CheckoutSessionUpdateRequest, id: Seq<char>) -> bool {
    if request.fulfillment_address is Some {
        id == "standard_shipping"@ || id == "express_shipping"@
    } else {
        crate::agentic::validate::has_option(session.fulfillment_options@, id)
    }
}

/// The refusal, if any, of choosing the request's fulfillment option.
pub open spec fn check_selection_after(session: CheckoutSession, request: CheckoutSessionUpdateRequest) -> Outcome<()> {
    match request.fulfillment_option_id {
        None => Ok(()),
        Some(id) => if trim(id@).len() == 0 {
            invalid("Fulfillment option id cannot be blank"@)
        } else if !offered_after(session, request, id@) {
            Err((Refusal::InvalidInput, "Invalid fulfillment option"@))
        } else if request.fulfillment_address is None && session.fulfillment_address is None {
            Err((Refusal::InvalidOperation, "Fulfillment address must be provided before selecting an option"@))
        } else {
            Ok(())
        },
    }
}

/// Why an update is refused, in the order the checks are made: the session
/// must be open, the request valid, and a chosen option offered.
pub open spec fn update_refusal(session: CheckoutSession, request: CheckoutSessionUpdateRequest, now: i64) -> Outcome<()> {
    match check_session_open(session, now) {
        Err(e) => Err(e),
        Ok(_) => match check_update_request(request) {
            Err(e) => Err(e),
            Ok(_) => check_selection_after(session, request),
        },
    }
}

/// The line items a session holds after an update.
pub open spec fn items_after(session: CheckoutSession, line_items: Option<Vec<LineItem>>) -> Seq<LineItem> {
    match line_items {
        Some(li) => li@,
        None => session.line_items@,
    }
}

/// Whether the update replaces the address with a different one.
pub open spec fn address_changes(session: CheckoutSession, request: CheckoutSessionUpdateRequest) -> bool {
    match request.fulfillment_address {
        Some(a) => match session.fulfillment_address {
            Some(old) => !same_address(old, a),
            None => true,
        },
        None => false,
    }
}

/// The option id a session holds after an update: the one chosen, else none
/// when the address changed, else the one it had.
pub open spec fn option_after(session: CheckoutSession, request: CheckoutSessionUpdateRequest) -> Option<String> {
    match request.fulfillment_option_id {
        Some(id) => Some(id),
        None => if address_changes(session, request) {
            None
        } else {
            session.fulfillment_option_id
        },
    }
}

/// Everything but the updated fields is the same in `a` and `b`.
pub open spec fn same_record(a: CheckoutSession, b: CheckoutSession) -> bool {
    &&& a.id == b.id
    &&& a.payment_provider == b.payment_provider
    &&& a.order_id == b.order_id
    &&& a.payment_id == b.payment_id
    &&& a.invoice_id == b.invoice_id
    &&& a.cash_sale_id == b.cash_sale_id
    &&& a.shipment_id == b.shipment_id
    &&& a.currency == b.currency
    &&& a.promotion_code == b.promotion_code
    &&& a.messages == b.messages
    &&& a.links == b.links
    &&& a.created_at == b.created_at
    &&& a.completed_at == b.completed_at
    &&& a.canceled_at == b.canceled_at
    &&& a.payment_intent_id == b.payment_intent_id
}

/// Applies an update to an open session. `line_items` holds the items built
/// from the request's items, when it has any. The buyer, items, address and
/// option are replaced by those given; a changed address brings the
/// standard options and drops the chosen one; totals (without promotion) and
/// status are recomputed; the session is extended to `ttl_ms` after `now`.
pub fn apply_update(
    session: CheckoutSession,
    request: CheckoutSessionUpdateRequest,
    line_items: Option<Vec<LineItem>>,
    now: i64,
    ttl_ms: i64,
) -> (r: Result<CheckoutSession, CheckoutError>)
    requires
        line_items is Some == request.items is Some,
        totals_fit(items_after(session, line_items), true, None),
        totals_fit(items_after(session, line_items), false, None),
        now as int + ttl_ms as int <= i64::MAX,
        now as int + ttl_ms as int >= i64::MIN,
    ensures
        match r {
            Err(e) => update_refusal(session, request, now) == Outcome::<()>::Err((e.kind(), e.msg())),
            Ok(s) => {
                &&& update_refusal(session, request, now) is Ok
                &&& s.buyer == (if request.buyer is Some { request.buyer } else { session.buyer })
                &&& s.line_items@ == items_after(session, line_items)
                &&& s.fulfillment_address == (if request.fulfillment_address is Some {
                    request.fulfillment_address
                } else {
                    session.fulfillment_address
                })
                &&& (request.fulfillment_address is Some ==> is_fulfillment_offer(s.fulfillment_options@, true))
                &&& (request.fulfillment_address is None ==> s.fulfillment_options == session.fulfillment_options)
                &&& s.fulfillment_option_id == option_after(session, request)
                &&& is_totals_summary(s.totals@, s.line_items@, s.fulfillment_option_id is Some, None)
                &&& s.status@ == (if session_ready(s) { ready() } else { not_ready() })
                &&& (s.status@ == ready() <==> (s.buyer is Some && s.fulfillment_address is Some
                    && s.fulfillment_option_id is Some && s.line_items.len() > 0))
                &&& (s.fulfillment_option_id is None ==> s.status@ == not_ready())
                &&& s.updated_at == Some(now)
                &&& s.expires_at == now + ttl_ms
                &&& same_record(s, session)
            },
        },
{
    let mut session = session;
    let ghost old_session = session;
    let r = ensure_session_open(&session, now);
    if let Err(e) = r {
        return Err(e);
    }
    let r = validate_update_request(&request);
    if let Err(e) = r {
        return Err(e);
    }
    let CheckoutSessionUpdateRequest { buyer, items: _, fulfillment_address, fulfillment_option_id, promotion_code: _ } = request;
    if let Some(b) = buyer {
        session.buyer = Some(b);
    }
    if let Some(li) = line_items {
        session.line_items = li;
    }
    if let Some(address) = fulfillment_address {
        let changed = match &session.fulfillment_address {
            Some(existing) => !addresses_equal(existing, &address),
            None => true,
        };
        session.fulfillment_address = Some(address);
        session.fulfillment_options = get_fulfillment_options(session.fulfillment_address.as_ref());
        if changed {
            session.fulfillment_option_id = None;
        }
    }
    if let Some(option_id) = fulfillment_option_id {
        proof {
            assert(session.fulfillment_address is Some <==> (request.fulfillment_address is Some
                || old_session.fulfillment_address is Some));
            if request.fulfillment_address is Some {
                assert(crate::agentic::validate::has_option(session.fulfillment_options@, option_id@)
                    <==> offered_after(old_session, request, option_id@)) by {
                    if option_id@ == "standard_shipping"@ {
                        assert(session.fulfillment_options@[0].option_id() == option_id@);
                    }
                    if option_id@ == "express_shipping"@ {
                        assert(session.fulfillment_options@[1].option_id() == option_id@);
                    }
                }
            }
        }
        let r = validate_fulfillment_selection(&session, option_id.as_str());
        if let Err(e) = r {
            return Err(e);
        }
        session.fulfillment_option_id = Some(option_id);
    }
    let chosen: Option<&str> = match &session.fulfillment_option_id {
        Some(o) => Some(o.as_str()),
        None => None,
    };
    session.totals = calculate_totals(&session.line_items, chosen);
    session.status = determine_status_from_session(&session);
    session.updated_at = Some(now);
    session.expires_at = now + ttl_ms;
    Ok(session)
}

/// Cancels an open session at `now`.
pub fn cancel(session: CheckoutSession, now: i64) -> (r: Result<CheckoutSession, CheckoutError>)
    ensures
        match r {
            Err(e) => check_session_open(session, now) == Outcome::<()>::Err((e.kind(), e.msg())),
            Ok(s) => {
                &&& check_session_open(session, now) is Ok
                &&& s.status@ == canceled()
                &&& s.canceled_at == Some(now)
                &&& s.updated_at == Some(now)
                &&& s.buyer == session.buyer
                &&& s.line_items == session.line_items
                &&& s.fulfillment_address == session.fulfillment_address
                &&& s.fulfillment_options == session.fulfillment_options
                &&& s.fulfillment_option_id == session.fulfillment_option_id
                &&& s.totals == session.totals
                &&& s.expires_at == session.expires_at
                &&& s.id == session.id
                &&& s.payment_provider == session.payment_provider
                &&& s.order_id == session.order_id
                &&& s.payment_id == session.payment_id
                &&& s.invoice_id == session.invoice_id
                &&& s.cash_sale_id == session.cash_sale_id
                &&& s.shipment_id == session.shipment_id
                &&& s.currency == session.currency
                &&& s.promotion_code == session.promotion_code
                &&& s.messages == session.messages
                &&& s.links == session.links
                &&& s.created_at == session.created_at
                &&& s.completed_at == session.completed_at
                &&& s.payment_intent_id == session.payment_intent_id
            },
        },
{
    let mut session = session;
    let r = ensure_session_open(&session, now);
    if let Err(e) = r {
        return Err(e);
    }
    session.status = owned(fsm::CANCELED);
    session.canceled_at = Some(now);
    session.updated_at = Some(now);
    Ok(session)
}

/// Why completion is refused before any payment is attempted, in the order
/// the checks are made.
pub open spec fn completion_refusal(session: CheckoutSession, request: CheckoutSessionCompleteRequest, now: i64) -> Outcome<()> {
    let buyer = if request.buyer is Some { request.buyer } else { session.buyer };
    match check_session_open(session, now) {
        Err(e) => Err(e),
        Ok(_) => match check_complete_request(request) {
            Err(e) => Err(e),
            Ok(_) => if buyer is None {
                Err((Refusal::InvalidOperation, "Buyer information required"@))
            } else if session.fulfillment_address is None {
                Err((Refusal::InvalidOperation, "Fulfillment address required"@))
            } else if session.fulfillment_option_id is None {
                Err((Refusal::InvalidOperation, "Fulfillment option required"@))
            } else {
                match check_fulfillment_selection(session, session.fulfillment_option_id.unwrap()@) {
                    Err(e) => Err(e),
                    Ok(_) => check_payment_provider(session, request.payment_data),
                }
            },
        },
    }
}

/// The checks made before payment when a session is completed; on success
/// the session with the request's buyer, if it names one.
pub fn prepare_completion(session: CheckoutSession, request: &CheckoutSessionCompleteRequest, now: i64) -> (r: Result<CheckoutSession, CheckoutError>)
    ensures
        match r {
            Err(e) => completion_refusal(session, *request, now) == Outcome::<()>::Err((e.kind(), e.msg())),
            Ok(s) => completion_refusal(session, *request, now) is Ok && s == (CheckoutSession {
                buyer: if request.buyer is Some { request.buyer } else { session.buyer },
                ..session
            }),
        },
{
    let mut session = session;
    let r = ensure_session_open(&session, now);
    if let Err(e) = r {
        return Err(e);
    }
    let r = validate_complete_request(request);
    if let Err(e) = r {
        return Err(e);
    }
    if let Some(buyer) = &request.buyer {
        session.buyer = Some(buyer.clone());
    }
    if session.buyer.is_none() {
        return Err(CheckoutError::InvalidOperation(owned("Buyer information required")));
    }
    if session.fulfillment_address.is_none() {
        return Err(CheckoutError::InvalidOperation(owned("Fulfillment address required")));
    }
    match &session.fulfillment_option_id {
        None => {
            return Err(CheckoutError::InvalidOperation(owned("Fulfillment option required")));
        },
        Some(option_id) => {
            let r = validate_fulfillment_selection(&session, option_id.as_str());
            if let Err(e) = r {
                return Err(e);
            }
        },
    }
    let r = validate_payment_provider(&session, &request.payment_data);
    if let Err(e) = r {
        return Err(e);
    }
    Ok(session)
}

/// What authorizing a payment checks and charges: a ready session, whose
/// provider accepts the payment, with a grand total.
pub open spec fn authorization(session: CheckoutSession, payment: PaymentData) -> Outcome<i64> {
    if session.status@ != ready() {
        Err((Refusal::InvalidOperation, "Session must be ready_for_payment to authorize. Current status: "@ + session.status@))
    } else {
        match check_payment_provider(session, payment) {
            Err(e) => Err(e),
            Ok(_) => match first_total(session.totals@, "total"@) {
                None => Err((Refusal::Internal, "Total not found"@)),
                Some(a) => Ok(a),
            },
        }
    }
}

/// The amount to authorize for a session, in cents.
pub fn authorization_amount(session: &CheckoutSession, payment_data: &PaymentData) -> (r: Result<i64, CheckoutError>)
    ensures
        outcome(r) == authorization(*session, *payment_data),
{
    if !str_eq(session.status.as_str(), fsm::READY_FOR_PAYMENT) {
        return Err(CheckoutError::InvalidOperation(concat(
            "Session must be ready_for_payment to authorize. Current status: ",
            session.status.as_str(),
        )));
    }
    let r = validate_payment_provider(session, payment_data);
    if let Err(e) = r {
        return Err(e);
    }
    match find_total_amount(&session.totals, "total") {
        None => Err(CheckoutError::InternalError(owned("Total not found"))),
        Some(a) => Ok(a),
    }
}

/// `s` is a UUID in the hyphenated form `Uuid`'s `Display` writes:
/// 36 characters, hyphens at 8, 13, 18 and 23, lowercase hex digits
/// elsewhere.
pub open spec fn uuid_text(s: Seq<char>) -> bool {
    &&& s.len() == 36
    &&& forall|i: int| 0 <= i < 36 ==> {
        if i == 8 || i == 13 || i == 18 || i == 23 {
            s[i] == '-'
        } else {
            ('0' <= #[trigger] s[i] <= '9') || ('a' <= s[i] <= 'f')
        }
    }
}

/// A fresh random identifier: `Uuid::new_v4` written by its `Display`,
/// which is the hyphenated lowercase form. Only that form is stated: the
/// digits are random.
#[verifier::external_body]
pub(crate) fn new_uuid() -> (s: String)
    ensures
        uuid_text(s@),
{
    uuid::Uuid::new_v4().to_string()
}

/// `s` without its hyphens.
pub open spec fn without_hyphens(s: Seq<char>) -> Seq<char> {
    s.filter(|c: char| c != '-')
}

pub fn strip_hyphens(t: &str) -> (s: String)
    ensures
        s@ == without_hyphens(t@),
{
    let v = crate::text::chars_of(t);
    let mut s = String::new();
    let mut i: usize = 0;
    while i < v.len()
        invariant
            i <= v.len(),
            v@ == t@,
            s@ == without_hyphens(v@.take(i as int)),
        decreases v.len() - i,
    {
        proof {
            let p = v@.take(i as int);
            let q = v@.take(i + 1);
            assert(q.drop_last() =~= p);
            assert(q.filter(|c: char| c != '-') == p.filter(|c: char| c != '-') + (if v@[i as int] != '-' {
                seq![v@[i as int]]
            } else {
                Seq::<char>::empty()
            })) by {
                reveal(Seq::filter);
                assert(q.last() == v@[i as int]);
            }
        }
        if v[i] != '-' {
            crate::text::push_char(&mut s, v[i]);
        }
        i = i + 1;
        assert(s@ =~= without_hyphens(v@.take(i as int)));
    }
    assert(v@.take(i as int) =~= v@);
    s
}

/// A payment intent id: `pi_` and the hex digits of `uuid`.
pub fn intent_id_from(uuid: &str) -> (s: String)
    ensures
        s@ == "pi_"@ + without_hyphens(uuid@),
{
    let digits = strip_hyphens(uuid);
    concat("pi_", digits.as_str())
}

/// Authorizes the payment of a session at `now`: an authorized intent for
/// its grand total, in its currency, with the payment's provider.
pub fn authorize(session: &CheckoutSession, payment_data: &PaymentData, now: i64) -> (r: Result<PaymentIntent, CheckoutError>)
    ensures
        match r {
            Err(e) => authorization(*session, *payment_data) == Outcome::<i64>::Err((e.kind(), e.msg())),
            Ok(p) => {
                &&& authorization(*session, *payment_data) == Outcome::<i64>::Ok(p.amount)
                &&& p.status == PaymentIntentStatus::Authorized
                &&& p.currency == session.currency
                &&& p.provider == payment_data.provider
                &&& p.created_at == now
                &&& crate::text::is_prefix("pi_"@, p.id@)
            },
        },
{
    let amount = match authorization_amount(session, payment_data) {
        Err(e) => {
            return Err(e);
        },
        Ok(a) => a,
    };
    let id = intent_id_from(new_uuid().as_str());
    proof {
        reveal_strlit("pi_");
        assert(id@.subrange(0, 3) =~= "pi_"@);
    }
    Ok(PaymentIntent {
        id,
        status: PaymentIntentStatus::Authorized,
        amount,
        currency: session.currency.clone(),
        provider: payment_data.provider.clone(),
        created_at: now,
    })
}

/// The name of a payment intent status, as `Debug` prints it.
pub open spec fn status_name(s: PaymentIntentStatus) -> Seq<char> {
    match s {
        PaymentIntentStatus::Authorized => "Authorized"@,
        PaymentIntentStatus::Captured => "Captured"@,
        PaymentIntentStatus::Cancelled => "Cancelled"@,
        PaymentIntentStatus::Failed => "Failed"@,
    }
}

fn status_text(s: PaymentIntentStatus) -> (t: &'static str)
    ensures
        t@ == status_name(s),
{
    match s {
        PaymentIntentStatus::Authorized => "Authorized",
        PaymentIntentStatus::Captured => "Captured",
        PaymentIntentStatus::Cancelled => "Cancelled",
        PaymentIntentStatus::Failed => "Failed",
    }
}

/// Captures an authorized intent; any other is refused and left as it is.
pub fn capture(intent: PaymentIntent) -> (r: Result<PaymentIntent, CheckoutError>)
    ensures
        match r {
            Err(e) => intent.status != PaymentIntentStatus::Authorized && e.kind() == Refusal::PaymentFailed
                && e.msg() == "Payment intent "@ + intent.id@ + " is in state "@ + status_name(intent.status)
                + ", expected Authorized"@,
            Ok(p) => intent.status == PaymentIntentStatus::Authorized && p == (PaymentIntent {
                status: PaymentIntentStatus::Captured,
                ..intent
            }),
        },
{
    if intent.status != PaymentIntentStatus::Authorized {
        let mut m = concat3("Payment intent ", intent.id.as_str(), " is in state ");
        crate::text::push_str(&mut m, status_text(intent.status));
        crate::text::push_str(&mut m, ", expected Authorized");
        return Err(CheckoutError::PaymentFailed(m));
    }
    let mut intent = intent;
    intent.status = PaymentIntentStatus::Captured;
    Ok(intent)
}

/// Marks a session completed at `now`, extending it to `ttl_ms` after.
pub fn mark_completed(session: &mut CheckoutSession, now: i64, ttl_ms: i64)
    requires
        now as int + ttl_ms as int <= i64::MAX,
        now as int + ttl_ms as int >= i64::MIN,
    ensures
        final(session).status@ == completed(),
        *final(session) == (CheckoutSession {
            status: final(session).status,
            completed_at: Some(now),
            updated_at: Some(now),
            expires_at: (now + ttl_ms) as i64,
            ..*old(session)
        }),
{
    session.status = owned(fsm::COMPLETED);
    session.completed_at = Some(now);
    session.updated_at = Some(now);
    session.expires_at = now + ttl_ms;
}

} // verus!
