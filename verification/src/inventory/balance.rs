//! Stock balances at a location, and how sales order lines and purchase
//! receipts move them: allocation, shipment, deallocation, return and
//! receipt, each with the transaction it records.
use vstd::prelude::*;
use crate::decimal::{
    add_fits, dec_add, dec_gt, dec_sub, decimal_display, round_half_even, round_to_i32, shown, spec_add,
    spec_sub, sub_fits, DecimalValue,
};
use crate::num::{int_str, push_i128};
use crate::text::{concat, owned, push_str};

verus! {

/// Why an inventory operation was refused.
#[derive(Debug, Clone)]
pub enum InventoryError {
    ValidationError(String),
    NotFound(String),
    InvalidOperation(String),
    Conflict(String),
    /// A reservation asks for more than is available.
    InsufficientStock(String),
}

/// The kind of a refusal.
#[derive(Debug, Clone, Copy, PartialEq, Eq, Structural)]
pub enum InventoryRefusal {
    Validation,
    NotFound,
    InvalidOperation,
    Conflict,
    InsufficientStock,
}

impl InventoryError {
    pub open spec fn kind(self) -> InventoryRefusal {
        match self {
            InventoryError::ValidationError(_) => InventoryRefusal::Validation,
            InventoryError::NotFound(_) => InventoryRefusal::NotFound,
            InventoryError::InvalidOperation(_) => InventoryRefusal::InvalidOperation,
            InventoryError::Conflict(_) => InventoryRefusal::Conflict,
            InventoryError::InsufficientStock(_) => InventoryRefusal::InsufficientStock,
        }
    }

    pub open spec fn msg(self) -> Seq<char> {
        match self {
            InventoryError::ValidationError(m) => m@,
            InventoryError::NotFound(m) => m@,
            InventoryError::InvalidOperation(m) => m@,
            InventoryError::Conflict(m) => m@,
            InventoryError::InsufficientStock(m) => m@,
        }
    }
}

/// What a movement of stock records.
#[derive(Debug, Clone, Copy, PartialEq, Eq, Structural)]
pub enum TransactionType {
    Allocate,
    Ship,
    Deallocate,
    Return,
    Receive,
}

/// The stock of one item at one location. Available stock is what is on
/// hand and not allocated.
#[derive(Debug, Clone, Copy, PartialEq, Eq, Structural)]
pub struct InventoryBalance {
    pub inventory_item_id: i64,
    pub location_id: i32,
    pub quantity_on_hand: DecimalValue,
    pub quantity_allocated: DecimalValue,
    pub quantity_available: DecimalValue,
    pub version: i32,
}

impl InventoryBalance {
    pub open spec fn wf(self) -> bool {
        self.quantity_on_hand.wf() && self.quantity_allocated.wf() && self.quantity_available.wf()
    }

    /// Available stock is on hand minus allocated.
    pub open spec fn consistent(self) -> bool {
        self.quantity_available.value() == self.quantity_on_hand.value() - self.quantity_allocated.value()
    }
}

/// A line of a sales order.
#[derive(Debug, Clone, Copy)]
pub struct SalesOrderLine {
    pub line_id: i64,
    pub header_id: Option<i64>,
    pub inventory_item_id: Option<i64>,
    pub location_id: Option<i32>,
    pub ordered_quantity: Option<DecimalValue>,
}

/// A line of a purchase order.
#[derive(Debug, Clone, Copy)]
pub struct PurchaseOrderLine {
    pub po_line_id: i64,
    pub po_header_id: Option<i64>,
    pub item_id: Option<i64>,
}

/// The record of a stock movement: quantities rounded to whole units, the
/// document it refers to, and why it happened.
#[derive(Debug, Clone)]
pub struct TransactionRecord {
    pub item_id: i64,
    pub location_id: i32,
    pub kind: TransactionType,
    pub quantity: i32,
    pub previous_quantity: i32,
    pub new_quantity: i32,
    pub reference_id: Option<i64>,
    pub reference_type: String,
    pub reason: String,
    pub notes: String,
}

/// The outcome of a movement as reported to the caller.
#[derive(Debug, Clone, Copy)]
pub struct InventoryAdjustmentResult {
    pub item_id: i64,
    pub location_id: i32,
    pub adjustment_type: TransactionType,
    pub quantity_adjusted: DecimalValue,
    pub new_on_hand: DecimalValue,
    pub new_available: DecimalValue,
    pub new_allocated: DecimalValue,
}

/// A movement applied: the new balance, its record and its report.
#[derive(Debug, Clone)]
pub struct LineOutcome {
    pub balance: InventoryBalance,
    pub transaction: TransactionRecord,
    pub result: InventoryAdjustmentResult,
}

pub open spec fn zero() -> DecimalValue {
    DecimalValue { mantissa: 0, scale: 0 }
}

/// The quantity of a line: its ordered quantity, or zero.
pub open spec fn line_qty(line: SalesOrderLine) -> DecimalValue {
    match line.ordered_quantity {
        Some(q) => q,
        None => zero(),
    }
}

pub open spec fn fits_i32(n: int) -> bool {
    i32::MIN <= n <= i32::MAX
}

/// Every quantity recorded fits an `i32` once rounded.
pub open spec fn all_fit(qs: Seq<DecimalValue>) -> bool {
    forall|i: int| 0 <= i < qs.len() ==> fits_i32(round_half_even(#[trigger] qs[i]))
}

/// Whether `t` records a movement of kind `kind`, with the given rounded
/// quantities and references.
pub open spec fn records(
    t: TransactionRecord,
    item_id: i64,
    location_id: i32,
    kind: TransactionType,
    qty: DecimalValue,
    previous: int,
    new: int,
    reference_id: Option<i64>,
    reference_type: Seq<char>,
    reason: Seq<char>,
    notes: Seq<char>,
) -> bool {
    &&& t.item_id == item_id
    &&& t.location_id == location_id
    &&& t.kind == kind
    &&& t.quantity == round_half_even(qty)
    &&& t.previous_quantity == previous
    &&& t.new_quantity == new
    &&& t.reference_id == reference_id
    &&& t.reference_type@ == reference_type
    &&& t.reason@ == reason
    &&& t.notes@ == notes
}

/// Whether `r` reports a movement of `qty` that left balance `b`.
pub open spec fn reports(r: InventoryAdjustmentResult, kind: TransactionType, qty: DecimalValue, b: InventoryBalance) -> bool {
    &&& r.item_id == b.inventory_item_id
    &&& r.location_id == b.location_id
    &&& r.adjustment_type == kind
    &&& r.quantity_adjusted == qty
    &&& r.new_on_hand == b.quantity_on_hand
    &&& r.new_available == b.quantity_available
    &&& r.new_allocated == b.quantity_allocated
}

fn round_or_overflow(d: &DecimalValue) -> (r: Result<i32, InventoryError>)
    requires
        d.wf(),
    ensures
        match r {
            Ok(n) => n == round_half_even(*d),
            Err(e) => !fits_i32(round_half_even(*d)) && e.kind() == InventoryRefusal::Validation
                && e.msg() == "Quantity overflow"@,
        },
{
    match round_to_i32(d) {
        Some(n) => Ok(n),
        None => Err(InventoryError::ValidationError(owned("Quantity overflow"))),
    }
}

/// `Decimal::round().to_i32()`, with an overflow refused.
pub fn decimal_to_i32(value: &DecimalValue) -> (r: Result<i32, InventoryError>)
    requires
        value.wf(),
    ensures
        match r {
            Ok(n) => n == round_half_even(*value),
            Err(e) => !fits_i32(round_half_even(*value)) && e.kind() == InventoryRefusal::Validation
                && e.msg() == "Quantity overflow"@,
        },
{
    round_or_overflow(value)
}

/// ` for item <item> at location <location>`.
pub open spec fn at_text(item: i64, location: i32) -> Seq<char> {
    " for item "@ + int_str(item as int) + " at location "@ + int_str(location as int)
}

fn push_at(s: &mut String, item: i64, location: i32)
    ensures
        final(s)@ == old(s)@ + at_text(item, location),
{
    push_str(s, " for item ");
    push_i128(s, item as i128);
    push_str(s, " at location ");
    push_i128(s, location as i128);
    assert(final(s)@ =~= old(s)@ + at_text(item, location));
}

pub open spec fn insufficient_text(item: i64, location: i32, available: DecimalValue, required: DecimalValue) -> Seq<char> {
    "Insufficient inventory"@ + at_text(item, location) + ". Available: "@ + shown(
        available.mantissa as int,
        available.scale as nat,
    ) + ", Required: "@ + shown(required.mantissa as int, required.scale as nat)
}

pub(crate) fn insufficient_message(item: i64, location: i32, available: &DecimalValue, required: &DecimalValue) -> (s: String)
    requires
        available.wf(),
        required.wf(),
    ensures
        s@ == insufficient_text(item, location, *available, *required),
{
    let mut s = owned("Insufficient inventory");
    push_at(&mut s, item, location);
    push_str(&mut s, ". Available: ");
    let a = decimal_display(available);
    push_str(&mut s, a.as_str());
    push_str(&mut s, ", Required: ");
    let r = decimal_display(required);
    push_str(&mut s, r.as_str());
    s
}

/// `Cannot <verb> <qty> units when only <have> are <state><at>`.
pub open spec fn cannot_text(verb: Seq<char>, qty: DecimalValue, have: DecimalValue, state: Seq<char>, item: i64, location: i32) -> Seq<char> {
    "Cannot "@ + verb + " "@ + shown(qty.mantissa as int, qty.scale as nat) + " units when only "@ + shown(
        have.mantissa as int,
        have.scale as nat,
    ) + " are "@ + state + at_text(item, location)
}

fn cannot_message(verb: &str, qty: &DecimalValue, have: &DecimalValue, state: &str, item: i64, location: i32) -> (s: String)
    requires
        qty.wf(),
        have.wf(),
    ensures
        s@ == cannot_text(verb@, *qty, *have, state@, item, location),
{
    let mut s = concat("Cannot ", verb);
    push_str(&mut s, " ");
    let q = decimal_display(qty);
    push_str(&mut s, q.as_str());
    push_str(&mut s, " units when only ");
    let h = decimal_display(have);
    push_str(&mut s, h.as_str());
    push_str(&mut s, " are ");
    push_str(&mut s, state);
    push_at(&mut s, item, location);
    s
}

/// The balance key of a line, refusing lines without an item or a location.
pub fn line_key(line: &SalesOrderLine) -> (r: Result<(i64, i32), InventoryError>)
    ensures
        match r {
            Ok((item, loc)) => line.inventory_item_id == Some(item) && line.location_id == Some(loc),
            Err(e) => e.kind() == InventoryRefusal::Validation && if line.inventory_item_id is None {
                e.msg() == "Order line missing inventory_item_id"@
            } else {
                line.location_id is None && e.msg() == "Order line missing location_id"@
            },
        },
{
    let item = match line.inventory_item_id {
        Some(i) => i,
        None => {
            return Err(InventoryError::ValidationError(owned("Order line missing inventory_item_id")));
        },
    };
    let loc = match line.location_id {
        Some(l) => l,
        None => {
            return Err(InventoryError::ValidationError(owned("Order line missing location_id")));
        },
    };
    Ok((item, loc))
}

/// The refusal for a balance that does not exist.
pub fn not_found(item: i64, location: i32) -> (e: InventoryError)
    ensures
        e.kind() == InventoryRefusal::NotFound,
        e.msg() == "Inventory not found"@ + at_text(item, location),
{
    let mut s = owned("Inventory not found");
    push_at(&mut s, item, location);
    InventoryError::NotFound(s)
}

/// Notes naming an order line.
fn line_notes(lead: &str, line_id: i64) -> (s: String)
    ensures
        s@ == lead@ + int_str(line_id as int),
{
    let mut s = owned(lead);
    push_i128(&mut s, line_id as i128);
    s
}

/// The arithmetic an allocation needs fits a `Decimal`.
pub open spec fn allocation_fits(b: InventoryBalance, q: DecimalValue) -> bool {
    &&& q.value() > 0 ==> add_fits(b.quantity_allocated, q) && sub_fits(b.quantity_on_hand, spec_add(b.quantity_allocated, q))
    &&& allocation_refusal(b, q) is None ==> b.version < i32::MAX
}

/// Why allocating `q` from `b` is refused, if it is.
pub open spec fn allocation_refusal(b: InventoryBalance, q: DecimalValue) -> Option<(InventoryRefusal, Seq<char>)> {
    let new_available = spec_sub(b.quantity_on_hand, spec_add(b.quantity_allocated, q));
    if q.value() <= 0 {
        Some((InventoryRefusal::Validation, "Ordered quantity must be positive"@))
    } else if new_available.value() < 0 {
        Some((InventoryRefusal::InvalidOperation, insufficient_text(b.inventory_item_id, b.location_id, b.quantity_available, q)))
    } else if !all_fit(seq![q, b.quantity_on_hand]) {
        Some((InventoryRefusal::Validation, "Quantity overflow"@))
    } else {
        None
    }
}

/// Allocates a line's quantity from the balance of its item at its location.
pub fn allocate_line(line: &SalesOrderLine, balance: &InventoryBalance) -> (r: Result<LineOutcome, InventoryError>)
    requires
        line.inventory_item_id == Some(balance.inventory_item_id),
        line.location_id == Some(balance.location_id),
        balance.wf(),
        line_qty(*line).wf(),
        allocation_fits(*balance, line_qty(*line)),
    ensures
        match r {
            Err(e) => allocation_refusal(*balance, line_qty(*line)) == Some((e.kind(), e.msg())),
            Ok(o) => {
                let q = line_qty(*line);
                &&& allocation_refusal(*balance, q) is None
                &&& o.balance == (InventoryBalance {
                    quantity_allocated: spec_add(balance.quantity_allocated, q),
                    quantity_available: spec_sub(balance.quantity_on_hand, spec_add(balance.quantity_allocated, q)),
                    version: (balance.version + 1) as i32,
                    ..*balance
                })
                &&& o.balance.consistent()
                &&& records(o.transaction, balance.inventory_item_id, balance.location_id, TransactionType::Allocate, q,
                    round_half_even(balance.quantity_on_hand), round_half_even(balance.quantity_on_hand), line.header_id,
                    "SALES_ORDER"@, "Order allocation"@, "Allocated for order line "@ + int_str(line.line_id as int))
                &&& reports(o.result, TransactionType::Allocate, q, o.balance)
            },
        },
{
    let q = match line.ordered_quantity {
        Some(q) => q,
        None => DecimalValue::zero(),
    };
    assert(q == line_qty(*line));
    if !q.is_positive() {
        return Err(InventoryError::ValidationError(owned("Ordered quantity must be positive")));
    }
    let new_allocated = dec_add(&balance.quantity_allocated, &q);
    let new_available = dec_sub(&balance.quantity_on_hand, &new_allocated);
    if dec_gt(&DecimalValue::zero(), &new_available) {
        return Err(InventoryError::InvalidOperation(insufficient_message(
            balance.inventory_item_id,
            balance.location_id,
            &balance.quantity_available,
            &q,
        )));
    }
    let qty = match round_or_overflow(&q) {
        Ok(n) => n,
        Err(e) => {
            assert(!fits_i32(round_half_even(seq![q, balance.quantity_on_hand][0])));
            return Err(e);
        },
    };
    let prev = match round_or_overflow(&balance.quantity_on_hand) {
        Ok(n) => n,
        Err(e) => {
            assert(!fits_i32(round_half_even(seq![q, balance.quantity_on_hand][1])));
            return Err(e);
        },
    };
    let updated = InventoryBalance {
        quantity_allocated: new_allocated,
        quantity_available: new_available,
        version: balance.version + 1,
        ..*balance
    };
    let transaction = TransactionRecord {
        item_id: balance.inventory_item_id,
        location_id: balance.location_id,
        kind: TransactionType::Allocate,
        quantity: qty,
        previous_quantity: prev,
        new_quantity: prev,
        reference_id: line.header_id,
        reference_type: owned("SALES_ORDER"),
        reason: owned("Order allocation"),
        notes: line_notes("Allocated for order line ", line.line_id),
    };
    let result = InventoryAdjustmentResult {
        item_id: balance.inventory_item_id,
        location_id: balance.location_id,
        adjustment_type: TransactionType::Allocate,
        quantity_adjusted: q,
        new_on_hand: updated.quantity_on_hand,
        new_available: updated.quantity_available,
        new_allocated: updated.quantity_allocated,
    };
    Ok(LineOutcome { balance: updated, transaction, result })
}

/// The arithmetic a shipment needs fits a `Decimal`.
pub open spec fn shipment_fits(b: InventoryBalance, q: DecimalValue) -> bool {
    &&& q.value() > 0 && b.quantity_allocated.value() >= q.value() && b.quantity_on_hand.value() >= q.value() ==> {
        &&& sub_fits(b.quantity_on_hand, q)
        &&& sub_fits(b.quantity_allocated, q)
        &&& sub_fits(spec_sub(b.quantity_on_hand, q), spec_sub(b.quantity_allocated, q))
    }
    &&& shipment_refusal(b, q) is None ==> b.version < i32::MAX
}

/// Why shipping `q` from `b` is refused, if it is.
pub open spec fn shipment_refusal(b: InventoryBalance, q: DecimalValue) -> Option<(InventoryRefusal, Seq<char>)> {
    if q.value() <= 0 {
        Some((InventoryRefusal::Validation, "Ship quantity must be positive"@))
    } else if b.quantity_allocated.value() < q.value() {
        Some((InventoryRefusal::InvalidOperation, cannot_text("ship"@, q, b.quantity_allocated, "allocated"@, b.inventory_item_id, b.location_id)))
    } else if b.quantity_on_hand.value() < q.value() {
        Some((InventoryRefusal::InvalidOperation, cannot_text("ship"@, q, b.quantity_on_hand, "on-hand"@, b.inventory_item_id, b.location_id)))
    } else if !all_fit(seq![q, b.quantity_on_hand, spec_sub(b.quantity_on_hand, q)]) {
        Some((InventoryRefusal::Validation, "Quantity overflow"@))
    } else {
        None
    }
}

/// Ships a line's quantity: it leaves both the stock on hand and the
/// allocation.
pub fn ship_line(line: &SalesOrderLine, balance: &InventoryBalance) -> (r: Result<LineOutcome, InventoryError>)
    requires
        line.inventory_item_id == Some(balance.inventory_item_id),
        line.location_id == Some(balance.location_id),
        balance.wf(),
        line_qty(*line).wf(),
        shipment_fits(*balance, line_qty(*line)),
    ensures
        match r {
            Err(e) => shipment_refusal(*balance, line_qty(*line)) == Some((e.kind(), e.msg())),
            Ok(o) => {
                let q = line_qty(*line);
                let on_hand = spec_sub(balance.quantity_on_hand, q);
                let allocated = spec_sub(balance.quantity_allocated, q);
                &&& shipment_refusal(*balance, q) is None
                &&& o.balance == (InventoryBalance {
                    quantity_on_hand: on_hand,
                    quantity_allocated: allocated,
                    quantity_available: spec_sub(on_hand, allocated),
                    version: (balance.version + 1) as i32,
                    ..*balance
                })
                &&& o.balance.consistent()
                &&& records(o.transaction, balance.inventory_item_id, balance.location_id, TransactionType::Ship, q,
                    round_half_even(balance.quantity_on_hand), round_half_even(on_hand), line.header_id,
                    "SALES_ORDER_SHIPMENT"@, "Order shipment"@, "Shipped for order line "@ + int_str(line.line_id as int))
                &&& reports(o.result, TransactionType::Ship, q, o.balance)
            },
        },
{
    let q = match line.ordered_quantity {
        Some(q) => q,
        None => DecimalValue::zero(),
    };
    assert(q == line_qty(*line));
    if !q.is_positive() {
        return Err(InventoryError::ValidationError(owned("Ship quantity must be positive")));
    }
    if dec_gt(&q, &balance.quantity_allocated) {
        return Err(InventoryError::InvalidOperation(cannot_message(
            "ship", &q, &balance.quantity_allocated, "allocated", balance.inventory_item_id, balance.location_id)));
    }
    if dec_gt(&q, &balance.quantity_on_hand) {
        return Err(InventoryError::InvalidOperation(cannot_message(
            "ship", &q, &balance.quantity_on_hand, "on-hand", balance.inventory_item_id, balance.location_id)));
    }
    let new_on_hand = dec_sub(&balance.quantity_on_hand, &q);
    let new_allocated = dec_sub(&balance.quantity_allocated, &q);
    let new_available = dec_sub(&new_on_hand, &new_allocated);
    let ghost qs = seq![q, balance.quantity_on_hand, new_on_hand];
    let qty = match round_or_overflow(&q) {
        Ok(n) => n,
        Err(e) => {
            assert(!fits_i32(round_half_even(qs[0])));
            return Err(e);
        },
    };
    let prev = match round_or_overflow(&balance.quantity_on_hand) {
        Ok(n) => n,
        Err(e) => {
            assert(!fits_i32(round_half_even(qs[1])));
            return Err(e);
        },
    };
    let next = match round_or_overflow(&new_on_hand) {
        Ok(n) => n,
        Err(e) => {
            assert(!fits_i32(round_half_even(qs[2])));
            return Err(e);
        },
    };
    assert(all_fit(qs));
    let updated = InventoryBalance {
        quantity_on_hand: new_on_hand,
        quantity_allocated: new_allocated,
        quantity_available: new_available,
        version: balance.version + 1,
        ..*balance
    };
    let transaction = TransactionRecord {
        item_id: balance.inventory_item_id,
        location_id: balance.location_id,
        kind: TransactionType::Ship,
        quantity: qty,
        previous_quantity: prev,
        new_quantity: next,
        reference_id: line.header_id,
        reference_type: owned("SALES_ORDER_SHIPMENT"),
        reason: owned("Order shipment"),
        notes: line_notes("Shipped for order line ", line.line_id),
    };
    let result = InventoryAdjustmentResult {
        item_id: balance.inventory_item_id,
        location_id: balance.location_id,
        adjustment_type: TransactionType::Ship,
        quantity_adjusted: q,
        new_on_hand: updated.quantity_on_hand,
        new_available: updated.quantity_available,
        new_allocated: updated.quantity_allocated,
    };
    Ok(LineOutcome { balance: updated, transaction, result })
}

/// The arithmetic a deallocation needs fits a `Decimal`.
pub open spec fn deallocation_fits(b: InventoryBalance, q: DecimalValue) -> bool {
    &&& q.value() > 0 && b.quantity_allocated.value() >= q.value() ==> sub_fits(b.quantity_allocated, q) && sub_fits(
        b.quantity_on_hand,
        spec_sub(b.quantity_allocated, q),
    )
    &&& deallocation_refusal(b, q) is None ==> b.version < i32::MAX
}

/// Why deallocating `q` from `b` is refused, if it is.
pub open spec fn deallocation_refusal(b: InventoryBalance, q: DecimalValue) -> Option<(InventoryRefusal, Seq<char>)> {
    if q.value() <= 0 {
        Some((InventoryRefusal::Validation, "Deallocate quantity must be positive"@))
    } else if b.quantity_allocated.value() < q.value() {
        Some((InventoryRefusal::InvalidOperation, cannot_text("deallocate"@, q, b.quantity_allocated, "allocated"@, b.inventory_item_id, b.location_id)))
    } else if !all_fit(seq![q, b.quantity_on_hand]) {
        Some((InventoryRefusal::Validation, "Quantity overflow"@))
    } else {
        None
    }
}

/// Releases a canceled line's allocation.
pub fn deallocate_line(line: &SalesOrderLine, balance: &InventoryBalance) -> (r: Result<LineOutcome, InventoryError>)
    requires
        line.inventory_item_id == Some(balance.inventory_item_id),
        line.location_id == Some(balance.location_id),
        balance.wf(),
        line_qty(*line).wf(),
        deallocation_fits(*balance, line_qty(*line)),
    ensures
        match r {
            Err(e) => deallocation_refusal(*balance, line_qty(*line)) == Some((e.kind(), e.msg())),
            Ok(o) => {
                let q = line_qty(*line);
                let allocated = spec_sub(balance.quantity_allocated, q);
                &&& deallocation_refusal(*balance, q) is None
                &&& o.balance == (InventoryBalance {
                    quantity_allocated: allocated,
                    quantity_available: spec_sub(balance.quantity_on_hand, allocated),
                    version: (balance.version + 1) as i32,
                    ..*balance
                })
                &&& o.balance.consistent()
                &&& records(o.transaction, balance.inventory_item_id, balance.location_id, TransactionType::Deallocate, q,
                    round_half_even(balance.quantity_on_hand), round_half_even(balance.quantity_on_hand), line.header_id,
                    "SALES_ORDER_CANCEL"@, "Order cancellation"@, "Deallocated for cancelled order line "@ + int_str(line.line_id as int))
                &&& reports(o.result, TransactionType::Deallocate, q, o.balance)
            },
        },
{
    let q = match line.ordered_quantity {
        Some(q) => q,
        None => DecimalValue::zero(),
    };
    assert(q == line_qty(*line));
    if !q.is_positive() {
        return Err(InventoryError::ValidationError(owned("Deallocate quantity must be positive")));
    }
    if dec_gt(&q, &balance.quantity_allocated) {
        return Err(InventoryError::InvalidOperation(cannot_message(
            "deallocate", &q, &balance.quantity_allocated, "allocated", balance.inventory_item_id, balance.location_id)));
    }
    let new_allocated = dec_sub(&balance.quantity_allocated, &q);
    let new_available = dec_sub(&balance.quantity_on_hand, &new_allocated);
    let ghost qs = seq![q, balance.quantity_on_hand];
    let qty = match round_or_overflow(&q) {
        Ok(n) => n,
        Err(e) => {
            assert(!fits_i32(round_half_even(qs[0])));
            return Err(e);
        },
    };
    let prev = match round_or_overflow(&balance.quantity_on_hand) {
        Ok(n) => n,
        Err(e) => {
            assert(!fits_i32(round_half_even(qs[1])));
            return Err(e);
        },
    };
    assert(all_fit(qs));
    let updated = InventoryBalance {
        quantity_allocated: new_allocated,
        quantity_available: new_available,
        version: balance.version + 1,
        ..*balance
    };
    let transaction = TransactionRecord {
        item_id: balance.inventory_item_id,
        location_id: balance.location_id,
        kind: TransactionType::Deallocate,
        quantity: qty,
        previous_quantity: prev,
        new_quantity: prev,
        reference_id: line.header_id,
        reference_type: owned("SALES_ORDER_CANCEL"),
        reason: owned("Order cancellation"),
        notes: line_notes("Deallocated for cancelled order line ", line.line_id),
    };
    let result = InventoryAdjustmentResult {
        item_id: balance.inventory_item_id,
        location_id: balance.location_id,
        adjustment_type: TransactionType::Deallocate,
        quantity_adjusted: q,
        new_on_hand: updated.quantity_on_hand,
        new_available: updated.quantity_available,
        new_allocated: updated.quantity_allocated,
    };
    Ok(LineOutcome { balance: updated, transaction, result })
}

/// The arithmetic a return needs fits a `Decimal`.
pub open spec fn return_fits(b: InventoryBalance, q: DecimalValue) -> bool {
    &&& q.value() > 0 ==> add_fits(b.quantity_on_hand, q) && sub_fits(spec_add(b.quantity_on_hand, q), b.quantity_allocated)
    &&& return_refusal(b, q) is None ==> b.version < i32::MAX
}

/// Why returning `q` to `b` is refused, if it is.
pub open spec fn return_refusal(b: InventoryBalance, q: DecimalValue) -> Option<(InventoryRefusal, Seq<char>)> {
    if q.value() <= 0 {
        Some((InventoryRefusal::Validation, "Return quantity must be positive"@))
    } else if !all_fit(seq![q, b.quantity_on_hand, spec_add(b.quantity_on_hand, q)]) {
        Some((InventoryRefusal::Validation, "Quantity overflow"@))
    } else {
        None
    }
}

/// Puts a returned line's quantity back on hand.
pub fn return_line(line: &SalesOrderLine, balance: &InventoryBalance) -> (r: Result<LineOutcome, InventoryError>)
    requires
        line.inventory_item_id == Some(balance.inventory_item_id),
        line.location_id == Some(balance.location_id),
        balance.wf(),
        line_qty(*line).wf(),
        return_fits(*balance, line_qty(*line)),
    ensures
        match r {
            Err(e) => return_refusal(*balance, line_qty(*line)) == Some((e.kind(), e.msg())),
            Ok(o) => {
                let q = line_qty(*line);
                let on_hand = spec_add(balance.quantity_on_hand, q);
                &&& return_refusal(*balance, q) is None
                &&& o.balance == (InventoryBalance {
                    quantity_on_hand: on_hand,
                    quantity_available: spec_sub(on_hand, balance.quantity_allocated),
                    version: (balance.version + 1) as i32,
                    ..*balance
                })
                &&& o.balance.consistent()
                &&& records(o.transaction, balance.inventory_item_id, balance.location_id, TransactionType::Return, q,
                    round_half_even(balance.quantity_on_hand), round_half_even(on_hand), line.header_id,
                    "SALES_ORDER_RETURN"@, "Order return"@, "Returned from order line "@ + int_str(line.line_id as int))
                &&& reports(o.result, TransactionType::Return, q, o.balance)
            },
        },
{
    let q = match line.ordered_quantity {
        Some(q) => q,
        None => DecimalValue::zero(),
    };
    assert(q == line_qty(*line));
    if !q.is_positive() {
        return Err(InventoryError::ValidationError(owned("Return quantity must be positive")));
    }
    let new_on_hand = dec_add(&balance.quantity_on_hand, &q);
    let new_available = dec_sub(&new_on_hand, &balance.quantity_allocated);
    let ghost qs = seq![q, balance.quantity_on_hand, new_on_hand];
    let qty = match round_or_overflow(&q) {
        Ok(n) => n,
        Err(e) => {
            assert(!fits_i32(round_half_even(qs[0])));
            return Err(e);
        },
    };
    let prev = match round_or_overflow(&balance.quantity_on_hand) {
        Ok(n) => n,
        Err(e) => {
            assert(!fits_i32(round_half_even(qs[1])));
            return Err(e);
        },
    };
    let next = match round_or_overflow(&new_on_hand) {
        Ok(n) => n,
        Err(e) => {
            assert(!fits_i32(round_half_even(qs[2])));
            return Err(e);
        },
    };
    assert(all_fit(qs));
    let updated = InventoryBalance {
        quantity_on_hand: new_on_hand,
        quantity_available: new_available,
        version: balance.version + 1,
        ..*balance
    };
    let transaction = TransactionRecord {
        item_id: balance.inventory_item_id,
        location_id: balance.location_id,
        kind: TransactionType::Return,
        quantity: qty,
        previous_quantity: prev,
        new_quantity: next,
        reference_id: line.header_id,
        reference_type: owned("SALES_ORDER_RETURN"),
        reason: owned("Order return"),
        notes: line_notes("Returned from order line ", line.line_id),
    };
    let result = InventoryAdjustmentResult {
        item_id: balance.inventory_item_id,
        location_id: balance.location_id,
        adjustment_type: TransactionType::Return,
        quantity_adjusted: q,
        new_on_hand: updated.quantity_on_hand,
        new_available: updated.quantity_available,
        new_allocated: updated.quantity_allocated,
    };
    Ok(LineOutcome { balance: updated, transaction, result })
}


/// What a sales order asks of inventory.
#[derive(Debug, Clone, Copy, PartialEq, Eq, Structural)]
pub enum SalesOrderAdjustmentType {
    Allocate,
    Ship,
    Cancel,
    Return,
}

impl SalesOrderAdjustmentType {
    pub open spec fn spec_name(self) -> Seq<char> {
        match self {
            SalesOrderAdjustmentType::Allocate => "ALLOCATE"@,
            SalesOrderAdjustmentType::Ship => "SHIP"@,
            SalesOrderAdjustmentType::Cancel => "CANCEL"@,
            SalesOrderAdjustmentType::Return => "RETURN"@,
        }
    }

    /// The adjustment's name in events.
    pub fn to_string(&self) -> (s: String)
        ensures
            s@ == self.spec_name(),
    {
        match self {
            SalesOrderAdjustmentType::Allocate => owned("ALLOCATE"),
            SalesOrderAdjustmentType::Ship => owned("SHIP"),
            SalesOrderAdjustmentType::Cancel => owned("CANCEL"),
            SalesOrderAdjustmentType::Return => owned("RETURN"),
        }
    }
}

/// A received quantity of a purchase order line, at a location.
#[derive(Debug, Clone, Copy)]
pub struct PurchaseOrderReceiptLine {
    pub po_line_id: i64,
    pub quantity_received: DecimalValue,
    pub location_id: i32,
}

/// An order with no lines cannot be adjusted.
pub fn require_order_lines(order_id: i64, line_count: usize) -> (r: Result<(), InventoryError>)
    ensures
        match r {
            Ok(_) => line_count > 0,
            Err(e) => line_count == 0 && e.kind() == InventoryRefusal::NotFound && e.msg() == "No order lines found for order "@
                + int_str(order_id as int),
        },
{
    if line_count == 0 {
        let mut s = owned("No order lines found for order ");
        push_i128(&mut s, order_id as i128);
        return Err(InventoryError::NotFound(s));
    }
    Ok(())
}

/// The refusal for a purchase order line that does not exist.
pub fn po_line_not_found(po_line_id: i64) -> (e: InventoryError)
    ensures
        e.kind() == InventoryRefusal::NotFound,
        e.msg() == "PO line "@ + int_str(po_line_id as int) + " not found"@,
{
    let mut s = owned("PO line ");
    push_i128(&mut s, po_line_id as i128);
    push_str(&mut s, " not found");
    InventoryError::NotFound(s)
}

} // verus!
