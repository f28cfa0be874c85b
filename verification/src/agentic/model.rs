//! The values exchanged with a checkout agent. Money is in cents; instants
//! are milliseconds since the Unix epoch.
use vstd::prelude::*;

verus! {

#[derive(Debug, PartialEq, Eq)]
pub struct Address {
    pub name: String,
    pub line_one: String,
    pub line_two: Option<String>,
    pub city: String,
    pub state: String,
    pub country: String,
    pub postal_code: String,
    pub phone: Option<String>,
    pub email: Option<String>,
}

#[derive(Debug, PartialEq, Eq)]
pub struct Buyer {
    pub first_name: String,
    pub last_name: String,
    pub email: String,
    pub phone_number: Option<String>,
}

#[derive(Debug)]
pub struct Item {
    pub id: String,
    pub quantity: i32,
}

/// A copy of an optional string, equal to it.
pub fn clone_opt(s: &Option<String>) -> (r: Option<String>)
    ensures
        r == *s,
{
    match s {
        Some(v) => Some(v.clone()),
        None => None,
    }
}

impl Clone for Address {
    fn clone(&self) -> (r: Self)
        ensures
            r == *self,
    {
        Address {
            name: self.name.clone(),
            line_one: self.line_one.clone(),
            line_two: clone_opt(&self.line_two),
            city: self.city.clone(),
            state: self.state.clone(),
            country: self.country.clone(),
            postal_code: self.postal_code.clone(),
            phone: clone_opt(&self.phone),
            email: clone_opt(&self.email),
        }
    }
}

impl Clone for Buyer {
    fn clone(&self) -> (r: Self)
        ensures
            r == *self,
    {
        Buyer {
            first_name: self.first_name.clone(),
            last_name: self.last_name.clone(),
            email: self.email.clone(),
            phone_number: clone_opt(&self.phone_number),
        }
    }
}

impl Clone for Item {
    fn clone(&self) -> (r: Self)
        ensures
            r == *self,
    {
        Item { id: self.id.clone(), quantity: self.quantity }
    }
}

#[derive(Debug, Clone)]
pub struct PaymentProvider {
    pub provider: String,
    pub supported_payment_methods: Vec<String>,
}

#[derive(Debug, Clone)]
pub struct Money {
    pub amount: i64,
    pub currency: String,
}

#[derive(Debug, Clone)]
pub struct LineItem {
    pub id: String,
    pub title: String,
    pub quantity: i32,
    pub unit_price: Money,
    pub variant_id: Option<String>,
    pub sku: Option<String>,
    pub image_url: Option<String>,
    pub item: Option<Item>,
    pub base_amount: i64,
    pub discount: i64,
    pub subtotal: i64,
    pub tax: i64,
    pub total: i64,
}

#[derive(Debug, Clone)]
pub struct Total {
    pub total_type: String,
    pub display_text: String,
    pub amount: i64,
}

#[derive(Debug, Clone)]
pub struct FulfillmentOptionShipping {
    pub id: String,
    pub title: String,
    pub subtitle: Option<String>,
    pub carrier: Option<String>,
    pub earliest_delivery_time: Option<String>,
    pub latest_delivery_time: Option<String>,
    pub subtotal: String,
    pub tax: String,
    pub total: String,
}

#[derive(Debug, Clone)]
pub struct FulfillmentOptionDigital {
    pub id: String,
    pub title: String,
    pub subtitle: Option<String>,
    pub subtotal: String,
    pub tax: String,
    pub total: String,
}

#[derive(Debug, Clone)]
pub enum FulfillmentOption {
    Shipping(FulfillmentOptionShipping),
    Digital(FulfillmentOptionDigital),
}

impl FulfillmentOption {
    /// The option's identifier, whichever kind it is.
    pub open spec fn option_id(self) -> Seq<char> {
        match self {
            FulfillmentOption::Shipping(s) => s.id@,
            FulfillmentOption::Digital(d) => d.id@,
        }
    }
}

#[derive(Debug, Clone)]
pub struct MessageInfo {
    pub message_type: String,
    pub param: Option<String>,
    pub content_type: String,
    pub content: String,
}

#[derive(Debug, Clone)]
pub struct MessageError {
    pub message_type: String,
    pub code: String,
    pub param: Option<String>,
    pub content_type: String,
    pub content: String,
}

#[derive(Debug, Clone)]
pub enum Message {
    Info(MessageInfo),
    Error(MessageError),
}

#[derive(Debug, Clone)]
pub struct Link {
    pub link_type: String,
    pub url: String,
}

#[derive(Debug, Clone)]
pub struct PaymentData {
    pub token: String,
    pub provider: String,
    pub billing_address: Option<Address>,
}

#[derive(Debug, Clone)]
pub struct Order {
    pub id: String,
    pub checkout_session_id: String,
    pub permalink_url: String,
    pub order_number: Option<String>,
    pub status: Option<String>,
    pub payment_status: Option<String>,
    pub fulfillment_status: Option<String>,
    pub payment_id: Option<String>,
    pub payment_method: Option<String>,
    pub invoice_id: Option<String>,
    pub cash_sale_id: Option<String>,
    pub shipment_id: Option<String>,
    pub shipping_method: Option<String>,
    pub tracking_number: Option<String>,
}

/// Where a payment stands in the authorize-then-capture flow.
#[derive(Debug, Clone, Copy, PartialEq, Eq, Structural)]
pub enum PaymentIntentStatus {
    /// Funds have been reserved but not captured.
    Authorized,
    /// Funds have been charged to the customer.
    Captured,
    /// The authorization expired or was canceled.
    Cancelled,
    /// The payment failed.
    Failed,
}

/// A payment reserved by authorization, to be captured later.
#[derive(Debug, Clone)]
pub struct PaymentIntent {
    pub id: String,
    pub status: PaymentIntentStatus,
    pub amount: i64,
    pub currency: String,
    pub provider: String,
    pub created_at: i64,
}

#[derive(Debug, Clone)]
pub struct CheckoutSession {
    pub id: String,
    pub buyer: Option<Buyer>,
    pub payment_provider: Option<PaymentProvider>,
    pub order_id: Option<String>,
    pub payment_id: Option<String>,
    pub invoice_id: Option<String>,
    pub cash_sale_id: Option<String>,
    pub shipment_id: Option<String>,
    pub status: String,
    pub currency: String,
    pub line_items: Vec<LineItem>,
    pub fulfillment_address: Option<Address>,
    pub fulfillment_options: Vec<FulfillmentOption>,
    pub fulfillment_option_id: Option<String>,
    pub promotion_code: Option<String>,
    pub totals: Vec<Total>,
    pub messages: Vec<Message>,
    pub links: Vec<Link>,
    pub created_at: i64,
    pub updated_at: Option<i64>,
    pub expires_at: i64,
    pub completed_at: Option<i64>,
    pub canceled_at: Option<i64>,
    pub payment_intent_id: Option<String>,
}

#[derive(Debug, Clone)]
pub struct CheckoutSessionWithOrder {
    pub session: CheckoutSession,
    pub order: Order,
}

#[derive(Debug, Clone)]
pub struct CreateSessionResult {
    pub session: CheckoutSession,
    pub was_created: bool,
}

#[derive(Debug, Clone)]
pub struct CheckoutSessionCreateRequest {
    pub buyer: Option<Buyer>,
    pub items: Vec<Item>,
    pub fulfillment_address: Option<Address>,
    pub promotion_code: Option<String>,
}

#[derive(Debug, Clone)]
pub struct CheckoutSessionUpdateRequest {
    pub buyer: Option<Buyer>,
    pub items: Option<Vec<Item>>,
    pub fulfillment_address: Option<Address>,
    pub fulfillment_option_id: Option<String>,
    pub promotion_code: Option<String>,
}

#[derive(Debug, Clone)]
pub struct CheckoutSessionCompleteRequest {
    pub buyer: Option<Buyer>,
    pub payment_data: PaymentData,
}

/// Why a checkout operation was refused.
#[derive(Debug, Clone)]
pub enum CheckoutError {
    ValidationError(String),
    InvalidInput(String),
    InvalidOperation(String),
    PaymentFailed(String),
    NotFound(String),
    InternalError(String),
    /// The session cache could not be read or written.
    CacheError(String),
}

} // verus!
