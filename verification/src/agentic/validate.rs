//! What an agent may submit: limits on items, names, addresses, payment data
//! and idempotency keys, each refusal with the message the agent sees.
use sha2::Digest;
use vstd::prelude::*;
use crate::agentic::model::{
    Address, Buyer, CheckoutError, CheckoutSession, CheckoutSessionCompleteRequest,
    CheckoutSessionCreateRequest, CheckoutSessionUpdateRequest, FulfillmentOption, Item, PaymentData,
};
use crate::num::{dec_str, push_u128};
use crate::text::{
    chars_of, concat, concat3, has_char, push_str, str_eq, trim, trim_string, utf8_len, utf8_len_of,
};

verus! {

pub const MAX_LINE_ITEMS: usize = 50;
pub const MAX_ITEM_QUANTITY: i32 = 99;
pub const MAX_ITEM_ID_LENGTH: usize = 128;
pub const MAX_NAME_LENGTH: usize = 120;
pub const MAX_ADDRESS_FIELD_LENGTH: usize = 120;
pub const MAX_EMAIL_LENGTH: usize = 254;
pub const MIN_IDEMPOTENCY_KEY_LENGTH: usize = 8;
pub const MAX_IDEMPOTENCY_KEY_LENGTH: usize = 255;

/// The kind of a refusal, without its message.
#[derive(Debug, Clone, Copy, PartialEq, Eq, Structural)]
pub enum Refusal {
    Validation,
    InvalidInput,
    InvalidOperation,
    PaymentFailed,
    NotFound,
    Internal,
    Cache,
}

impl CheckoutError {
    pub open spec fn kind(self) -> Refusal {
        match self {
            CheckoutError::ValidationError(_) => Refusal::Validation,
            CheckoutError::InvalidInput(_) => Refusal::InvalidInput,
            CheckoutError::InvalidOperation(_) => Refusal::InvalidOperation,
            CheckoutError::PaymentFailed(_) => Refusal::PaymentFailed,
            CheckoutError::NotFound(_) => Refusal::NotFound,
            CheckoutError::InternalError(_) => Refusal::Internal,
            CheckoutError::CacheError(_) => Refusal::Cache,
        }
    }

    pub open spec fn msg(self) -> Seq<char> {
        match self {
            CheckoutError::ValidationError(m) => m@,
            CheckoutError::InvalidInput(m) => m@,
            CheckoutError::InvalidOperation(m) => m@,
            CheckoutError::PaymentFailed(m) => m@,
            CheckoutError::NotFound(m) => m@,
            CheckoutError::InternalError(m) => m@,
            CheckoutError::CacheError(m) => m@,
        }
    }

    /// The error's display text.
    pub fn message(&self) -> (s: String)
        ensures
            s@ == self.msg(),
    {
        match self {
            CheckoutError::ValidationError(m) => crate::text::owned(m.as_str()),
            CheckoutError::InvalidInput(m) => crate::text::owned(m.as_str()),
            CheckoutError::InvalidOperation(m) => crate::text::owned(m.as_str()),
            CheckoutError::PaymentFailed(m) => crate::text::owned(m.as_str()),
            CheckoutError::NotFound(m) => crate::text::owned(m.as_str()),
            CheckoutError::InternalError(m) => crate::text::owned(m.as_str()),
            CheckoutError::CacheError(m) => crate::text::owned(m.as_str()),
        }
    }
}

/// A refusal seen as its kind and message.
pub type Outcome<T> = Result<T, (Refusal, Seq<char>)>;

/// The outcome of an executable result, errors by kind and message.
pub open spec fn outcome<T>(r: Result<T, CheckoutError>) -> Outcome<T> {
    match r {
        Ok(v) => Ok(v),
        Err(e) => Err((e.kind(), e.msg())),
    }
}

pub open spec fn invalid(m: Seq<char>) -> Outcome<()> {
    Err((Refusal::Validation, m))
}

/// `field` longer than `max` characters is refused.
pub open spec fn check_length(field: Seq<char>, value: Seq<char>, max: nat) -> Outcome<()> {
    if value.len() > max {
        invalid(field + " must be "@ + dec_str(max) + " characters or fewer"@)
    } else {
        Ok(())
    }
}

/// `value`, trimmed, must be non-empty and at most `max` characters.
pub open spec fn check_non_empty(field: Seq<char>, value: Seq<char>, max: nat) -> Outcome<()> {
    if trim(value).len() == 0 {
        invalid(field + " cannot be empty"@)
    } else {
        check_length(field, trim(value), max)
    }
}

pub open spec fn is_ascii_char(c: char) -> bool {
    (c as u32) < 128
}

pub open spec fn is_ascii_digit(c: char) -> bool {
    '0' <= c <= '9'
}

pub open spec fn is_ascii_alpha(c: char) -> bool {
    ('a' <= c <= 'z') || ('A' <= c <= 'Z')
}

/// Letters, digits and `- _ . : / #`.
pub open spec fn is_id_char(c: char) -> bool {
    is_ascii_alpha(c) || is_ascii_digit(c) || c == '-' || c == '_' || c == '.' || c == ':' || c
        == '/' || c == '#'
}

pub open spec fn all_ascii(s: Seq<char>) -> bool {
    forall|i: int| 0 <= i < s.len() ==> is_ascii_char(#[trigger] s[i])
}

pub open spec fn all_id_chars(s: Seq<char>) -> bool {
    forall|i: int| 0 <= i < s.len() ==> is_id_char(#[trigger] s[i])
}

/// A trimmed, ASCII identifier of letters, digits and `- _ . : / #`, at
/// most `max` characters long.
pub open spec fn check_ascii_identifier(field: Seq<char>, value: Seq<char>, max: nat) -> Outcome<()> {
    let t = trim(value);
    if t.len() == 0 {
        invalid(field + " cannot be empty"@)
    } else if !all_ascii(t) {
        invalid(field + " must use ASCII characters"@)
    } else if !all_id_chars(t) {
        invalid(field + " contains unsupported characters"@)
    } else {
        check_length(field, t, max)
    }
}

pub open spec fn is_phone_char(c: char) -> bool {
    is_ascii_digit(c) || c == ' ' || c == '+' || c == '-' || c == '(' || c == ')' || c == '.'
}

pub open spec fn count_digits(s: Seq<char>) -> nat
    decreases s.len(),
{
    if s.len() == 0 {
        0
    } else {
        count_digits(s.drop_last()) + if is_ascii_digit(s.last()) { 1nat } else { 0nat }
    }
}

/// Digits, spaces and `+ - ( ) .`, not blank, with 7 to 16 digits.
pub open spec fn spec_valid_phone(phone: Seq<char>) -> bool {
    &&& trim(phone).len() > 0
    &&& forall|i: int| 0 <= i < phone.len() ==> is_phone_char(#[trigger] phone[i])
    &&& 7 <= count_digits(phone) <= 16
}

fn validation(m: String) -> (e: CheckoutError)
    ensures
        e.kind() == Refusal::Validation,
        e.msg() == m@,
{
    CheckoutError::ValidationError(m)
}

fn length_message(field: &str, max_len: usize) -> (s: String)
    ensures
        s@ == field@ + " must be "@ + dec_str(max_len as nat) + " characters or fewer"@,
{
    let mut s = concat(field, " must be ");
    push_u128(&mut s, max_len as u128);
    push_str(&mut s, " characters or fewer");
    s
}

/// Refuses `value` when it has more than `max_len` characters.
pub fn ensure_length(field: &str, value: &str, max_len: usize) -> (r: Result<(), CheckoutError>)
    ensures
        outcome(r) == check_length(field@, value@, max_len as nat),
{
    let v = chars_of(value);
    if v.len() > max_len {
        return Err(validation(length_message(field, max_len)));
    }
    Ok(())
}

/// Refuses `value` when blank, or when its trimmed form is too long.
pub fn ensure_non_empty(field: &str, value: &str, max_len: usize) -> (r: Result<(), CheckoutError>)
    ensures
        outcome(r) == check_non_empty(field@, value@, max_len as nat),
{
    let t = trim_string(value);
    let v = chars_of(t.as_str());
    if v.len() == 0 {
        return Err(validation(concat(field, " cannot be empty")));
    }
    ensure_length(field, t.as_str(), max_len)
}

fn all_ascii_chars(v: &Vec<char>) -> (r: bool)
    ensures
        r == all_ascii(v@),
{
    let mut i: usize = 0;
    while i < v.len()
        invariant
            i <= v.len(),
            forall|k: int| 0 <= k < i ==> is_ascii_char(#[trigger] v@[k]),
        decreases v.len() - i,
    {
        if (v[i] as u32) >= 128 {
            return false;
        }
        i = i + 1;
    }
    true
}

fn id_char(c: char) -> (r: bool)
    ensures
        r == is_id_char(c),
{
    ('a' <= c && c <= 'z') || ('A' <= c && c <= 'Z') || ('0' <= c && c <= '9') || c == '-' || c
        == '_' || c == '.' || c == ':' || c == '/' || c == '#'
}

fn all_id_chars_of(v: &Vec<char>) -> (r: bool)
    ensures
        r == all_id_chars(v@),
{
    let mut i: usize = 0;
    while i < v.len()
        invariant
            i <= v.len(),
            forall|k: int| 0 <= k < i ==> is_id_char(#[trigger] v@[k]),
        decreases v.len() - i,
    {
        if !id_char(v[i]) {
            return false;
        }
        i = i + 1;
    }
    true
}

/// Refuses `value` unless, trimmed, it is a non-empty identifier of ASCII
/// letters, digits and `- _ . : / #` of at most `max_len` characters.
pub fn ensure_ascii_identifier(field: &str, value: &str, max_len: usize) -> (r: Result<(), CheckoutError>)
    ensures
        outcome(r) == check_ascii_identifier(field@, value@, max_len as nat),
{
    let t = trim_string(value);
    let v = chars_of(t.as_str());
    if v.len() == 0 {
        return Err(validation(concat(field, " cannot be empty")));
    }
    if !all_ascii_chars(&v) {
        return Err(validation(concat(field, " must use ASCII characters")));
    }
    if !all_id_chars_of(&v) {
        return Err(validation(concat(field, " contains unsupported characters")));
    }
    ensure_length(field, t.as_str(), max_len)
}

fn phone_char(c: char) -> (r: bool)
    ensures
        r == is_phone_char(c),
{
    ('0' <= c && c <= '9') || c == ' ' || c == '+' || c == '-' || c == '(' || c == ')' || c == '.'
}

/// Whether `phone` is a plausible phone number.
pub fn is_valid_phone(phone: &str) -> (r: bool)
    ensures
        r == spec_valid_phone(phone@),
{
    if crate::text::is_blank(phone) {
        return false;
    }
    let v = chars_of(phone);
    let mut digits: usize = 0;
    let mut i: usize = 0;
    while i < v.len()
        invariant
            i <= v.len(),
            v@ == phone@,
            digits == count_digits(v@.take(i as int)),
            digits <= i,
            forall|k: int| 0 <= k < i ==> is_phone_char(#[trigger] v@[k]),
        decreases v.len() - i,
    {
        let c = v[i];
        if !phone_char(c) {
            return false;
        }
        assert(v@.take(i + 1).drop_last() =~= v@.take(i as int));
        if '0' <= c && c <= '9' {
            digits = digits + 1;
        }
        i = i + 1;
    }
    assert(v@.take(i as int) =~= v@);
    digits >= 7 && digits <= 16
}

/// Quantity within 1..=99, and an identifier of at most 128 characters.
pub open spec fn check_item(item: Item) -> Outcome<()> {
    if item.quantity < 1 || item.quantity > 99 {
        invalid("Quantity for item "@ + item.id@ + " must be between 1 and 99"@)
    } else {
        check_ascii_identifier("item id"@, item.id@, 128)
    }
}

/// The first refusal among `items`, in order.
pub open spec fn check_each_item(items: Seq<Item>) -> Outcome<()>
    decreases items.len(),
{
    if items.len() == 0 {
        Ok(())
    } else {
        match check_item(items[0]) {
            Ok(_) => check_each_item(items.drop_first()),
            Err(e) => Err(e),
        }
    }
}

/// One to fifty items, each valid.
pub open spec fn check_items(items: Seq<Item>) -> Outcome<()> {
    if items.len() == 0 {
        invalid("At least one item is required"@)
    } else if items.len() > 50 {
        invalid("A maximum of 50 line items are supported"@)
    } else {
        check_each_item(items)
    }
}

pub fn validate_item(item: &Item) -> (r: Result<(), CheckoutError>)
    ensures
        outcome(r) == check_item(*item),
{
    if item.quantity < 1 || item.quantity > MAX_ITEM_QUANTITY {
        return Err(validation(concat3("Quantity for item ", item.id.as_str(), " must be between 1 and 99")));
    }
    proof { reveal_strlit("item id"); }
    ensure_ascii_identifier("item id", item.id.as_str(), MAX_ITEM_ID_LENGTH)
}

pub fn validate_items(items: &Vec<Item>) -> (r: Result<(), CheckoutError>)
    ensures
        outcome(r) == check_items(items@),
{
    if items.len() == 0 {
        return Err(validation(crate::text::owned("At least one item is required")));
    }
    if items.len() > MAX_LINE_ITEMS {
        return Err(validation(crate::text::owned("A maximum of 50 line items are supported")));
    }
    let n = items.len();
    let mut i: usize = 0;
    assert(items@.subrange(0, n as int) =~= items@);
    while i < n
        invariant
            i <= n == items.len(),
            0 < n <= 50,
            check_each_item(items@) == check_each_item(items@.subrange(i as int, n as int)),
        decreases n - i,
    {
        assert(items@.subrange(i as int, n as int).drop_first() =~= items@.subrange(i + 1, n as int));
        assert(items@.subrange(i as int, n as int)[0] == items@[i as int]);
        let r = validate_item(&items[i]);
        if r.is_err() {
            return r;
        }
        i = i + 1;
    }
    assert(items@.subrange(n as int, n as int).len() == 0);
    Ok(())
}

/// What `validator::validate_email` decides of an address.
pub uninterp spec fn email_is_valid(email: Seq<char>) -> bool;

/// `validator::validate_email`. The crate's source refuses, before anything
/// else, an empty address and one without `@`; its further rules (user and
/// domain patterns, IDNA) are not stated.
#[verifier::external_body]
fn email_valid(email: &str) -> (r: bool)
    ensures
        r == email_is_valid(email@),
        r ==> has_char(email@, '@'),
{
    validator::validate_email(email)
}

/// Names and e-mail present and not too long, the e-mail accepted by the
/// e-mail check (`email_ok`), and the phone number, when given, plausible.
pub open spec fn check_buyer_with(buyer: Buyer, email_ok: bool) -> Outcome<()> {
    match check_non_empty("buyer.first_name"@, buyer.first_name@, 120) {
        Err(e) => Err(e),
        Ok(_) => match check_non_empty("buyer.last_name"@, buyer.last_name@, 120) {
            Err(e) => Err(e),
            Ok(_) => match check_non_empty("buyer.email"@, buyer.email@, 254) {
                Err(e) => Err(e),
                Ok(_) => if !email_ok {
                    invalid("buyer.email is not a valid email address"@)
                } else {
                    match buyer.phone_number {
                        Some(p) => if !spec_valid_phone(p@) {
                            invalid("buyer.phone_number is not a valid phone number"@)
                        } else {
                            Ok(())
                        },
                        None => Ok(()),
                    }
                },
            },
        },
    }
}

pub open spec fn check_buyer(buyer: Buyer) -> Outcome<()> {
    check_buyer_with(buyer, email_is_valid(buyer.email@))
}

/// The buyer checks, given whether the e-mail address was accepted.
pub fn validate_buyer_with(buyer: &Buyer, email_ok: bool) -> (r: Result<(), CheckoutError>)
    ensures
        outcome(r) == check_buyer_with(*buyer, email_ok),
{
    proof {
        reveal_strlit("buyer.first_name");
        reveal_strlit("buyer.last_name");
        reveal_strlit("buyer.email");
    }
    let r = ensure_non_empty("buyer.first_name", buyer.first_name.as_str(), MAX_NAME_LENGTH);
    if r.is_err() {
        return r;
    }
    let r = ensure_non_empty("buyer.last_name", buyer.last_name.as_str(), MAX_NAME_LENGTH);
    if r.is_err() {
        return r;
    }
    let r = ensure_non_empty("buyer.email", buyer.email.as_str(), MAX_EMAIL_LENGTH);
    if r.is_err() {
        return r;
    }
    if !email_ok {
        return Err(validation(crate::text::owned("buyer.email is not a valid email address")));
    }
    if let Some(phone) = &buyer.phone_number {
        if !is_valid_phone(phone.as_str()) {
            return Err(validation(crate::text::owned("buyer.phone_number is not a valid phone number")));
        }
    }
    Ok(())
}

pub fn validate_buyer(buyer: &Buyer) -> (r: Result<(), CheckoutError>)
    ensures
        outcome(r) == check_buyer(*buyer),
{
    let ok = email_valid(buyer.email.as_str());
    validate_buyer_with(buyer, ok)
}

pub open spec fn all_alpha(s: Seq<char>) -> bool {
    forall|i: int| 0 <= i < s.len() ==> is_ascii_alpha(#[trigger] s[i])
}

/// Name, first line, city, state and postal code present and at most 120
/// characters, the second line at most 120, and a two-letter country code.
pub open spec fn check_address(a: Address) -> Outcome<()> {
    match check_non_empty("fulfillment_address.name"@, a.name@, 120) {
        Err(e) => Err(e),
        Ok(_) => match check_non_empty("fulfillment_address.line_one"@, a.line_one@, 120) {
            Err(e) => Err(e),
            Ok(_) => match (match a.line_two {
                Some(l) => check_length("fulfillment_address.line_two"@, l@, 120),
                None => Ok(()),
            }) {
                Err(e) => Err(e),
                Ok(_) => match check_non_empty("fulfillment_address.city"@, a.city@, 120) {
                    Err(e) => Err(e),
                    Ok(_) => match check_non_empty("fulfillment_address.state"@, a.state@, 120) {
                        Err(e) => Err(e),
                        Ok(_) => match check_non_empty("fulfillment_address.postal_code"@, a.postal_code@, 120) {
                            Err(e) => Err(e),
                            Ok(_) => if trim(a.country@).len() != 2 || !all_alpha(trim(a.country@)) {
                                invalid("fulfillment_address.country must be a two-character ISO country code"@)
                            } else {
                                Ok(())
                            },
                        },
                    },
                },
            },
        },
    }
}

fn all_alpha_chars(v: &Vec<char>) -> (r: bool)
    ensures
        r == all_alpha(v@),
{
    let mut i: usize = 0;
    while i < v.len()
        invariant
            i <= v.len(),
            forall|k: int| 0 <= k < i ==> is_ascii_alpha(#[trigger] v@[k]),
        decreases v.len() - i,
    {
        let c = v[i];
        if !(('a' <= c && c <= 'z') || ('A' <= c && c <= 'Z')) {
            return false;
        }
        i = i + 1;
    }
    true
}

pub fn validate_address(address: &Address) -> (r: Result<(), CheckoutError>)
    ensures
        outcome(r) == check_address(*address),
{
    proof {
        reveal_strlit("fulfillment_address.name");
        reveal_strlit("fulfillment_address.line_one");
        reveal_strlit("fulfillment_address.line_two");
        reveal_strlit("fulfillment_address.city");
        reveal_strlit("fulfillment_address.state");
        reveal_strlit("fulfillment_address.postal_code");
    }
    let r = ensure_non_empty("fulfillment_address.name", address.name.as_str(), MAX_NAME_LENGTH);
    if r.is_err() {
        return r;
    }
    let r = ensure_non_empty("fulfillment_address.line_one", address.line_one.as_str(), MAX_ADDRESS_FIELD_LENGTH);
    if r.is_err() {
        return r;
    }
    if let Some(line_two) = &address.line_two {
        let r = ensure_length("fulfillment_address.line_two", line_two.as_str(), MAX_ADDRESS_FIELD_LENGTH);
        if r.is_err() {
            return r;
        }
    }
    let r = ensure_non_empty("fulfillment_address.city", address.city.as_str(), MAX_ADDRESS_FIELD_LENGTH);
    if r.is_err() {
        return r;
    }
    let r = ensure_non_empty("fulfillment_address.state", address.state.as_str(), MAX_ADDRESS_FIELD_LENGTH);
    if r.is_err() {
        return r;
    }
    let r = ensure_non_empty("fulfillment_address.postal_code", address.postal_code.as_str(), MAX_ADDRESS_FIELD_LENGTH);
    if r.is_err() {
        return r;
    }
    let country = trim_string(address.country.as_str());
    let cv = chars_of(country.as_str());
    if cv.len() != 2 || !all_alpha_chars(&cv) {
        return Err(validation(crate::text::owned("fulfillment_address.country must be a two-character ISO country code")));
    }
    Ok(())
}

/// A token of at most 256 characters, a provider identifier of at most 64,
/// and a valid billing address when one is given.
pub open spec fn check_payment_data(p: PaymentData) -> Outcome<()> {
    match check_non_empty("payment_data.token"@, p.token@, 256) {
        Err(e) => Err(e),
        Ok(_) => match check_ascii_identifier("payment_data.provider"@, p.provider@, 64) {
            Err(e) => Err(e),
            Ok(_) => match p.billing_address {
                Some(a) => check_address(a),
                None => Ok(()),
            },
        },
    }
}

pub fn validate_payment_data(payment_data: &PaymentData) -> (r: Result<(), CheckoutError>)
    ensures
        outcome(r) == check_payment_data(*payment_data),
{
    proof {
        reveal_strlit("payment_data.token");
        reveal_strlit("payment_data.provider");
    }
    let r = ensure_non_empty("payment_data.token", payment_data.token.as_str(), 256);
    if r.is_err() {
        return r;
    }
    let r = ensure_ascii_identifier("payment_data.provider", payment_data.provider.as_str(), 64);
    if r.is_err() {
        return r;
    }
    if let Some(address) = &payment_data.billing_address {
        return validate_address(address);
    }
    Ok(())
}

pub open spec fn check_create_request(req: CheckoutSessionCreateRequest) -> Outcome<()> {
    match check_items(req.items@) {
        Err(e) => Err(e),
        Ok(_) => match (match req.buyer {
            Some(b) => check_buyer(b),
            None => Ok(()),
        }) {
            Err(e) => Err(e),
            Ok(_) => match req.fulfillment_address {
                Some(a) => check_address(a),
                None => Ok(()),
            },
        },
    }
}

pub fn validate_create_request(request: &CheckoutSessionCreateRequest) -> (r: Result<(), CheckoutError>)
    ensures
        outcome(r) == check_create_request(*request),
{
    let r = validate_items(&request.items);
    if r.is_err() {
        return r;
    }
    if let Some(buyer) = &request.buyer {
        let r = validate_buyer(buyer);
        if r.is_err() {
            return r;
        }
    }
    if let Some(address) = &request.fulfillment_address {
        return validate_address(address);
    }
    Ok(())
}

/// At least one of buyer, items, address and fulfillment option, each of
/// them valid; a fulfillment option id must not be blank.
pub open spec fn check_update_request(req: CheckoutSessionUpdateRequest) -> Outcome<()> {
    if req.buyer is None && req.items is None && req.fulfillment_address is None
        && req.fulfillment_option_id is None {
        invalid("At least one field must be supplied to update a checkout session"@)
    } else {
        match (match req.items {
            Some(items) => check_items(items@),
            None => Ok(()),
        }) {
            Err(e) => Err(e),
            Ok(_) => match (match req.buyer {
                Some(b) => check_buyer(b),
                None => Ok(()),
            }) {
                Err(e) => Err(e),
                Ok(_) => match (match req.fulfillment_address {
                    Some(a) => check_address(a),
                    None => Ok(()),
                }) {
                    Err(e) => Err(e),
                    Ok(_) => match req.fulfillment_option_id {
                        Some(o) => if trim(o@).len() == 0 {
                            invalid("Fulfillment option id cannot be blank"@)
                        } else {
                            Ok(())
                        },
                        None => Ok(()),
                    },
                },
            },
        }
    }
}

pub fn validate_update_request(request: &CheckoutSessionUpdateRequest) -> (r: Result<(), CheckoutError>)
    ensures
        outcome(r) == check_update_request(*request),
{
    if request.buyer.is_none() && request.items.is_none() && request.fulfillment_address.is_none()
        && request.fulfillment_option_id.is_none() {
        return Err(validation(crate::text::owned("At least one field must be supplied to update a checkout session")));
    }
    if let Some(items) = &request.items {
        let r = validate_items(items);
        if r.is_err() {
            return r;
        }
    }
    if let Some(buyer) = &request.buyer {
        let r = validate_buyer(buyer);
        if r.is_err() {
            return r;
        }
    }
    if let Some(address) = &request.fulfillment_address {
        let r = validate_address(address);
        if r.is_err() {
            return r;
        }
    }
    if let Some(option_id) = &request.fulfillment_option_id {
        if crate::text::is_blank(option_id.as_str()) {
            return Err(validation(crate::text::owned("Fulfillment option id cannot be blank")));
        }
    }
    Ok(())
}

pub open spec fn check_complete_request(req: CheckoutSessionCompleteRequest) -> Outcome<()> {
    match (match req.buyer {
        Some(b) => check_buyer(b),
        None => Ok(()),
    }) {
        Err(e) => Err(e),
        Ok(_) => check_payment_data(req.payment_data),
    }
}

pub fn validate_complete_request(request: &CheckoutSessionCompleteRequest) -> (r: Result<(), CheckoutError>)
    ensures
        outcome(r) == check_complete_request(*request),
{
    if let Some(buyer) = &request.buyer {
        let r = validate_buyer(buyer);
        if r.is_err() {
            return r;
        }
    }
    validate_payment_data(&request.payment_data)
}

/// Whether some option of `options` has id `id`.
pub open spec fn has_option(options: Seq<FulfillmentOption>, id: Seq<char>) -> bool {
    exists|i: int| 0 <= i < options.len() && (#[trigger] options[i]).option_id() == id
}

/// The option id must not be blank, must name one of the session's options,
/// and the session must have an address.
pub open spec fn check_fulfillment_selection(session: CheckoutSession, option_id: Seq<char>) -> Outcome<()> {
    if trim(option_id).len() == 0 {
        invalid("Fulfillment option id cannot be blank"@)
    } else if !has_option(session.fulfillment_options@, option_id) {
        Err((Refusal::InvalidInput, "Invalid fulfillment option"@))
    } else if session.fulfillment_address is None {
        Err((Refusal::InvalidOperation, "Fulfillment address must be provided before selecting an option"@))
    } else {
        Ok(())
    }
}

/// The position of the option with id `id`, if any.
pub fn find_option_index(options: &Vec<FulfillmentOption>, id: &str) -> (r: Option<usize>)
    ensures
        match r {
            Some(i) => i < options.len() && options@[i as int].option_id() == id@ && forall|k: int|
                0 <= k < i ==> (#[trigger] options@[k]).option_id() != id@,
            None => !has_option(options@, id@),
        },
{
    let mut i: usize = 0;
    while i < options.len()
        invariant
            i <= options.len(),
            forall|k: int| 0 <= k < i ==> (#[trigger] options@[k]).option_id() != id@,
        decreases options.len() - i,
    {
        let same = match &options[i] {
            FulfillmentOption::Shipping(s) => str_eq(s.id.as_str(), id),
            FulfillmentOption::Digital(d) => str_eq(d.id.as_str(), id),
        };
        if same {
            return Some(i);
        }
        i = i + 1;
    }
    None
}

pub fn validate_fulfillment_selection(session: &CheckoutSession, option_id: &str) -> (r: Result<(), CheckoutError>)
    ensures
        outcome(r) == check_fulfillment_selection(*session, option_id@),
{
    if crate::text::is_blank(option_id) {
        return Err(validation(crate::text::owned("Fulfillment option id cannot be blank")));
    }
    if find_option_index(&session.fulfillment_options, option_id).is_none() {
        return Err(CheckoutError::InvalidInput(crate::text::owned("Invalid fulfillment option")));
    }
    if session.fulfillment_address.is_none() {
        return Err(CheckoutError::InvalidOperation(crate::text::owned("Fulfillment address must be provided before selecting an option")));
    }
    Ok(())
}

pub open spec fn lower_ascii(c: char) -> char {
    if 'A' <= c <= 'Z' {
        ((c as u32) + 32) as char
    } else {
        c
    }
}

/// ASCII case-insensitive equality (`str::eq_ignore_ascii_case`).
pub open spec fn eq_ignore_ascii_case(a: Seq<char>, b: Seq<char>) -> bool {
    a.len() == b.len() && forall|i: int| 0 <= i < a.len() ==> lower_ascii(#[trigger] a[i]) == lower_ascii(b[i])
}

fn lower_char(c: char) -> (r: char)
    ensures
        r == lower_ascii(c),
{
    if 'A' <= c && c <= 'Z' {
        let u = (c as u32) + 32;
        assert(0x61 <= u <= 0x7a);
        char_from_ascii(u)
    } else {
        c
    }
}

fn char_from_ascii(u: u32) -> (c: char)
    requires
        u < 128,
    ensures
        c as u32 == u,
        c == u as char,
{
    let b = u as u8;
    b as char
}

pub fn eq_ignore_case(a: &str, b: &str) -> (r: bool)
    ensures
        r == eq_ignore_ascii_case(a@, b@),
{
    let x = chars_of(a);
    let y = chars_of(b);
    if x.len() != y.len() {
        return false;
    }
    let mut i: usize = 0;
    while i < x.len()
        invariant
            i <= x.len() == y.len(),
            x@ == a@,
            y@ == b@,
            forall|k: int| 0 <= k < i ==> lower_ascii(#[trigger] x@[k]) == lower_ascii(y@[k]),
        decreases x.len() - i,
    {
        if lower_char(x[i]) != lower_char(y[i]) {
            return false;
        }
        i = i + 1;
    }
    true
}

/// Whether some method of `methods` is `card`, in any case.
pub open spec fn accepts_card(methods: Seq<String>) -> bool {
    exists|i: int| 0 <= i < methods.len() && eq_ignore_ascii_case((#[trigger] methods[i])@, "card"@)
}

/// The session must have a provider, the same as the payment's, that
/// accepts cards.
pub open spec fn check_payment_provider(session: CheckoutSession, payment: PaymentData) -> Outcome<()> {
    match session.payment_provider {
        None => Err((Refusal::PaymentFailed, "Checkout session does not have an associated payment provider"@)),
        Some(p) => if p.provider@ != payment.provider@ {
            Err((Refusal::PaymentFailed, "Payment provider "@ + payment.provider@ + " is not supported for this session"@))
        } else if !accepts_card(p.supported_payment_methods@) {
            Err((Refusal::PaymentFailed, "No supported payment methods are available for this session"@))
        } else {
            Ok(())
        },
    }
}

pub fn validate_payment_provider(session: &CheckoutSession, payment_data: &PaymentData) -> (r: Result<(), CheckoutError>)
    ensures
        outcome(r) == check_payment_provider(*session, *payment_data),
{
    match &session.payment_provider {
        None => Err(CheckoutError::PaymentFailed(crate::text::owned("Checkout session does not have an associated payment provider"))),
        Some(provider) => {
            if !str_eq(provider.provider.as_str(), payment_data.provider.as_str()) {
                return Err(CheckoutError::PaymentFailed(concat3("Payment provider ", payment_data.provider.as_str(), " is not supported for this session")));
            }
            let methods = &provider.supported_payment_methods;
            let mut i: usize = 0;
            while i < methods.len()
                invariant
                    i <= methods.len(),
                    session.payment_provider == Some(*provider),
                    methods == &provider.supported_payment_methods,
                    provider.provider@ == payment_data.provider@,
                    forall|k: int| 0 <= k < i ==> !eq_ignore_ascii_case((#[trigger] methods@[k])@, "card"@),
                decreases methods.len() - i,
            {
                if eq_ignore_case(methods[i].as_str(), "card") {
                    assert(eq_ignore_ascii_case(methods@[i as int]@, "card"@));
                    return Ok(());
                }
                i = i + 1;
            }
            Err(CheckoutError::PaymentFailed(crate::text::owned("No supported payment methods are available for this session")))
        },
    }
}

/// A session can be changed only while it is open and unexpired at `now`.
pub open spec fn check_session_open(session: CheckoutSession, now: i64) -> Outcome<()> {
    if crate::agentic::fsm::spec_is_terminal(session.status@) {
        Err((Refusal::InvalidOperation, "Session is in terminal state '"@ + session.status@ + "' and cannot be modified"@))
    } else if session.expires_at <= now {
        Err((Refusal::InvalidOperation, "Checkout session has expired"@))
    } else {
        Ok(())
    }
}

pub fn ensure_session_open(session: &CheckoutSession, now: i64) -> (r: Result<(), CheckoutError>)
    ensures
        outcome(r) == check_session_open(*session, now),
{
    if crate::agentic::fsm::is_terminal(session.status.as_str()) {
        return Err(CheckoutError::InvalidOperation(concat3("Session is in terminal state '", session.status.as_str(), "' and cannot be modified")));
    }
    if session.expires_at <= now {
        return Err(CheckoutError::InvalidOperation(crate::text::owned("Checkout session has expired")));
    }
    Ok(())
}

/// Visible ASCII, `!` through `~`.
pub open spec fn is_ascii_graphic(c: char) -> bool {
    '!' <= c <= '~'
}

pub open spec fn all_graphic(s: Seq<char>) -> bool {
    forall|i: int| 0 <= i < s.len() ==> is_ascii_graphic(#[trigger] s[i])
}

/// The bytes of an ASCII string.
pub open spec fn ascii_bytes(s: Seq<char>) -> Seq<u8> {
    Seq::new(s.len(), |i: int| (s[i] as u32) as u8)
}

pub open spec fn hex_digit(n: u8) -> char {
    if n < 10 {
        (('0' as u32) + (n as u32)) as char
    } else {
        (('a' as u32) + (n as u32) - 10) as char
    }
}

/// Two lower-case hexadecimal digits per byte, most significant first.
pub open spec fn lower_hex(b: Seq<u8>) -> Seq<char> {
    Seq::new(2 * b.len(), |i: int| if i % 2 == 0 { hex_digit(b[i / 2] / 16) } else { hex_digit(b[i / 2] % 16) })
}

/// What SHA-256 gives for `data`.
pub uninterp spec fn sha256_digest(data: Seq<u8>) -> Seq<u8>;

/// `sha2::Sha256`: the digest of `data`, 32 bytes long.
#[verifier::external_body]
fn sha256(data: &Vec<u8>) -> (d: Vec<u8>)
    ensures
        d@ == sha256_digest(data@),
        d@.len() == 32,
{
    let mut hasher = sha2::Sha256::new();
    hasher.update(data.as_slice());
    hasher.finalize().to_vec()
}

fn hex_char(n: u8) -> (c: char)
    requires
        n < 16,
    ensures
        c == hex_digit(n),
{
    if n < 10 {
        char_from_ascii(('0' as u32) + (n as u32))
    } else {
        char_from_ascii(('a' as u32) + (n as u32) - 10)
    }
}

/// The lower-case hexadecimal form of `bytes`.
pub fn to_lower_hex(bytes: &Vec<u8>) -> (s: String)
    ensures
        s@ == lower_hex(bytes@),
{
    let mut s = String::new();
    let mut i: usize = 0;
    while i < bytes.len()
        invariant
            i <= bytes.len(),
            s@ == lower_hex(bytes@.take(i as int)),
        decreases bytes.len() - i,
    {
        let b = bytes[i];
        let ghost before = s@;
        crate::text::push_char(&mut s, hex_char(b / 16));
        crate::text::push_char(&mut s, hex_char(b % 16));
        proof {
            let p = bytes@.take(i as int);
            let q = bytes@.take(i + 1);
            assert forall|k: int| 0 <= k < 2 * q.len() implies #[trigger] lower_hex(q)[k] == s@[k] by {
                if k < 2 * i {
                    assert(q[k / 2] == p[k / 2]);
                    assert(s@[k] == before[k]);
                }
            }
            assert(lower_hex(q) =~= s@);
        }
        i = i + 1;
    }
    assert(bytes@.take(i as int) =~= bytes@);
    s
}

/// The bytes of a string known to be ASCII.
fn ascii_bytes_of(v: &Vec<char>) -> (b: Vec<u8>)
    requires
        all_graphic(v@),
    ensures
        b@ == ascii_bytes(v@),
{
    let mut b: Vec<u8> = Vec::new();
    let mut i: usize = 0;
    while i < v.len()
        invariant
            i <= v.len(),
            all_graphic(v@),
            b@ == ascii_bytes(v@.take(i as int)),
        decreases v.len() - i,
    {
        assert(is_ascii_graphic(v@[i as int]));
        let u = v[i] as u32;
        b.push(u as u8);
        assert(b@ =~= ascii_bytes(v@.take(i + 1)));
        i = i + 1;
    }
    assert(v@.take(i as int) =~= v@);
    b
}

/// A trimmed key of 8 to 255 bytes of visible ASCII is hashed; others are
/// refused.
pub open spec fn check_idempotency_key(key: Seq<char>) -> Outcome<Seq<char>> {
    let t = trim(key);
    if utf8_len(t) < 8 {
        Err((Refusal::Validation, "Idempotency key must be at least 8 characters long"@))
    } else if utf8_len(t) > 255 {
        Err((Refusal::Validation, "Idempotency key must be 255 characters or fewer"@))
    } else if !all_graphic(t) {
        Err((Refusal::Validation, "Idempotency key must contain visible ASCII characters only"@))
    } else {
        Ok(lower_hex(sha256_digest(ascii_bytes(t))))
    }
}

/// The SHA-256 digest, in lower-case hex, of a trimmed idempotency key.
pub fn hash_idempotency_key(key: &str) -> (r: Result<String, CheckoutError>)
    ensures
        match r {
            Ok(h) => check_idempotency_key(key@) == Outcome::<Seq<char>>::Ok(h@),
            Err(e) => check_idempotency_key(key@) == Outcome::<Seq<char>>::Err((e.kind(), e.msg())),
        },
{
    let t = trim_string(key);
    let v = chars_of(t.as_str());
    let n = utf8_len_of(&v);
    if n < MIN_IDEMPOTENCY_KEY_LENGTH as u128 {
        return Err(validation(crate::text::owned("Idempotency key must be at least 8 characters long")));
    }
    if n > MAX_IDEMPOTENCY_KEY_LENGTH as u128 {
        return Err(validation(crate::text::owned("Idempotency key must be 255 characters or fewer")));
    }
    let mut i: usize = 0;
    while i < v.len()
        invariant
            i <= v.len(),
            v@ == trim(key@),
            8 <= utf8_len(v@) <= 255,
            forall|k: int| 0 <= k < i ==> is_ascii_graphic(#[trigger] v@[k]),
        decreases v.len() - i,
    {
        let c = v[i];
        if !('!' <= c && c <= '~') {
            assert(!is_ascii_graphic(v@[i as int]));
            return Err(validation(crate::text::owned("Idempotency key must contain visible ASCII characters only")));
        }
        i = i + 1;
    }
    let bytes = ascii_bytes_of(&v);
    let digest = sha256(&bytes);
    Ok(to_lower_hex(&digest))
}


pub open spec fn upper_ascii(c: char) -> char {
    if 'a' <= c <= 'z' {
        ((c as u32) - 32) as char
    } else {
        c
    }
}

pub open spec fn lower_seq(s: Seq<char>) -> Seq<char> {
    Seq::new(s.len(), |i: int| lower_ascii(s[i]))
}

pub open spec fn upper_seq(s: Seq<char>) -> Seq<char> {
    Seq::new(s.len(), |i: int| upper_ascii(s[i]))
}

fn upper_char(c: char) -> (r: char)
    ensures
        r == upper_ascii(c),
{
    if 'a' <= c && c <= 'z' {
        let u = (c as u32) - 32;
        char_from_ascii(u)
    } else {
        c
    }
}

/// `str::to_ascii_lowercase`.
pub fn to_ascii_lowercase(t: &str) -> (s: String)
    ensures
        s@ == lower_seq(t@),
{
    let v = chars_of(t);
    let mut s = String::new();
    let mut i: usize = 0;
    while i < v.len()
        invariant
            i <= v.len(),
            v@ == t@,
            s@ == lower_seq(v@.take(i as int)),
        decreases v.len() - i,
    {
        crate::text::push_char(&mut s, lower_char(v[i]));
        i = i + 1;
        assert(s@ =~= lower_seq(v@.take(i as int)));
    }
    assert(v@.take(i as int) =~= v@);
    s
}

/// `str::to_uppercase` restricted to ASCII letters.
pub fn to_ascii_uppercase(t: &str) -> (s: String)
    ensures
        s@ == upper_seq(t@),
{
    let v = chars_of(t);
    let mut s = String::new();
    let mut i: usize = 0;
    while i < v.len()
        invariant
            i <= v.len(),
            v@ == t@,
            s@ == upper_seq(v@.take(i as int)),
        decreases v.len() - i,
    {
        crate::text::push_char(&mut s, upper_char(v[i]));
        i = i + 1;
        assert(s@ =~= upper_seq(v@.take(i as int)));
    }
    assert(v@.take(i as int) =~= v@);
    s
}

} // verus!
