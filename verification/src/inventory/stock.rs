//! Direct stock operations on a balance: adjustments, reservations and
//! their release, transfers between locations, purchase receipts, stock
//! checks and per-item totals.
use vstd::prelude::*;
use crate::decimal::{add_fits, dec_add, dec_gt, dec_sub, decimal_display, round_half_even, shown, spec_add, spec_sub, sub_fits, DecimalValue};
use crate::inventory::balance::{all_fit, fits_i32, records, zero, InventoryAdjustmentResult, InventoryBalance, InventoryError, InventoryRefusal, LineOutcome, PurchaseOrderLine, TransactionRecord, TransactionType};
use crate::num::{int_str, push_i128};
use crate::text::{concat, owned, push_str, trim, trim_string};

verus! {

/// How an inventory item is looked up.
#[derive(Debug, Clone)]
pub enum ItemLookup {
    ById(i64),
    ByNumber(String),
}

/// By id when one is given, else by its trimmed item number when that is
/// not blank.
pub fn resolve_lookup(inventory_item_id: Option<i64>, item_number: Option<&str>) -> (r: Result<ItemLookup, InventoryError>)
    ensures
        match r {
            Ok(ItemLookup::ById(id)) => inventory_item_id == Some(id),
            Ok(ItemLookup::ByNumber(n)) => {
                &&& inventory_item_id is None
                &&& item_number matches Some(t) && n@ == trim(t@) && n@.len() > 0
            },
            Err(e) => inventory_item_id is None && (item_number matches Some(t) ==> trim(t@).len() == 0) && e.kind()
                == InventoryRefusal::Validation && e.msg() == "Either inventory_item_id or item_number must be provided"@,
        },
{
    if let Some(id) = inventory_item_id {
        return Ok(ItemLookup::ById(id));
    }
    if let Some(number) = item_number {
        let t = trim_string(number);
        if crate::text::chars_of(t.as_str()).len() > 0 {
            return Ok(ItemLookup::ByNumber(t));
        }
    }
    Err(InventoryError::ValidationError(owned("Either inventory_item_id or item_number must be provided")))
}

/// The refusal for an item that does not exist.
pub fn item_not_found(lookup: &ItemLookup) -> (e: InventoryError)
    ensures
        e.kind() == InventoryRefusal::NotFound,
        e.msg() == "Inventory item "@ + match lookup {
            ItemLookup::ById(id) => int_str(*id as int),
            ItemLookup::ByNumber(n) => n@,
        } + " not found"@,
{
    let mut s = owned("Inventory item ");
    match lookup {
        ItemLookup::ById(id) => push_i128(&mut s, *id as i128),
        ItemLookup::ByNumber(n) => push_str(&mut s, n.as_str()),
    }
    push_str(&mut s, " not found");
    InventoryError::NotFound(s)
}

/// `No inventory for item <item> at location <location>`.
pub open spec fn no_inventory_text(item: i64, location: i32) -> Seq<char> {
    "No inventory for item "@ + int_str(item as int) + " at location "@ + int_str(location as int)
}

fn no_inventory(item: i64, location: i32) -> (e: InventoryError)
    ensures
        e.kind() == InventoryRefusal::NotFound,
        e.msg() == no_inventory_text(item, location),
{
    let mut s = owned("No inventory for item ");
    push_i128(&mut s, item as i128);
    push_str(&mut s, " at location ");
    push_i128(&mut s, location as i128);
    InventoryError::NotFound(s)
}

pub open spec fn conflict_text(expected: i32, found: i32) -> Seq<char> {
    "Inventory was modified by another request. Expected version "@ + int_str(expected as int) + ", found "@
        + int_str(found as int) + ". Please refresh and retry."@
}

fn conflict(expected: i32, found: i32) -> (e: InventoryError)
    ensures
        e.kind() == InventoryRefusal::Conflict,
        e.msg() == conflict_text(expected, found),
{
    let mut s = owned("Inventory was modified by another request. Expected version ");
    push_i128(&mut s, expected as i128);
    push_str(&mut s, ", found ");
    push_i128(&mut s, found as i128);
    push_str(&mut s, ". Please refresh and retry.");
    InventoryError::Conflict(s)
}

fn push_dec(s: &mut String, d: &DecimalValue)
    requires
        d.wf(),
    ensures
        final(s)@ == old(s)@ + shown(d.mantissa as int, d.scale as nat),
{
    let t = decimal_display(d);
    push_str(s, t.as_str());
}

pub open spec fn dshown(d: DecimalValue) -> Seq<char> {
    shown(d.mantissa as int, d.scale as nat)
}

/// A new balance holding `q` on hand, none allocated.
pub open spec fn seeded(item: i64, location: i32, q: DecimalValue) -> InventoryBalance {
    InventoryBalance {
        inventory_item_id: item,
        location_id: location,
        quantity_on_hand: q,
        quantity_allocated: zero(),
        quantity_available: q,
        version: 1,
    }
}

/// The outcome of adjusting stock by `delta`: the previous stock on hand
/// and the new balance, or the refusal.
pub open spec fn adjustment(
    existing: Option<InventoryBalance>,
    item: i64,
    location: i32,
    delta: DecimalValue,
    expected_version: Option<i32>,
) -> Result<(DecimalValue, InventoryBalance), (InventoryRefusal, Seq<char>)> {
    if delta.value() == 0 {
        Err((InventoryRefusal::Validation, "Adjustment quantity must be non-zero"@))
    } else {
        match existing {
            Some(b) => {
                let on_hand = spec_add(b.quantity_on_hand, delta);
                let available = spec_sub(on_hand, b.quantity_allocated);
                if expected_version matches Some(v) && v != b.version {
                    Err((InventoryRefusal::Conflict, conflict_text(expected_version.unwrap(), b.version)))
                } else if on_hand.value() < 0 {
                    Err((InventoryRefusal::Validation, "Adjustment would result in negative on-hand quantity"@))
                } else if available.value() < 0 {
                    Err((InventoryRefusal::Validation, "Adjustment would result in negative available quantity"@))
                } else {
                    Ok((b.quantity_on_hand, InventoryBalance {
                        quantity_on_hand: on_hand,
                        quantity_available: available,
                        version: (b.version + 1) as i32,
                        ..b
                    }))
                }
            },
            None => if delta.value() < 0 {
                Err((InventoryRefusal::Validation, "Cannot seed inventory with a negative adjustment"@))
            } else {
                Ok((zero(), seeded(item, location, delta)))
            },
        }
    }
}

/// Adjusts the stock on hand by `delta`, seeding a balance when there is
/// none; available stock is recomputed as on hand minus allocated.
pub fn adjust_balance(
    existing: Option<&InventoryBalance>,
    item: i64,
    location: i32,
    delta: &DecimalValue,
    expected_version: Option<i32>,
) -> (r: Result<(DecimalValue, InventoryBalance), InventoryError>)
    requires
        delta.wf(),
        existing matches Some(b) ==> b.wf() && (delta.value() != 0 && !(expected_version matches Some(v) && v != b.version)
            ==> b.version < i32::MAX && add_fits(b.quantity_on_hand, *delta)
            && sub_fits(spec_add(b.quantity_on_hand, *delta), b.quantity_allocated)),
    ensures
        match r {
            Ok(v) => adjustment(match existing { Some(b) => Some(*b), None => None }, item, location, *delta, expected_version)
                == Result::<(DecimalValue, InventoryBalance), (InventoryRefusal, Seq<char>)>::Ok(v),
            Err(e) => adjustment(match existing { Some(b) => Some(*b), None => None }, item, location, *delta, expected_version)
                == Result::<(DecimalValue, InventoryBalance), (InventoryRefusal, Seq<char>)>::Err((e.kind(), e.msg())),
        },
{
    proof {
        crate::decimal::lemma_p10_positive((28 - delta.scale) as nat);
    }
    if delta.mantissa == 0 {
        assert(delta.value() == 0) by {
            let p = crate::decimal::p10((28 - delta.scale) as nat);
            assert(0 * p == 0) by (nonlinear_arith);
        }
        return Err(InventoryError::ValidationError(owned("Adjustment quantity must be non-zero")));
    }
    assert(delta.value() != 0) by {
        let p = crate::decimal::p10((28 - delta.scale) as nat);
        assert(delta.mantissa != 0 && p >= 1 ==> delta.mantissa * p != 0) by (nonlinear_arith);
    }
    match existing {
        Some(b) => {
            if let Some(v) = expected_version {
                if b.version != v {
                    return Err(conflict(v, b.version));
                }
            }
            let on_hand = dec_add(&b.quantity_on_hand, delta);
            let available = dec_sub(&on_hand, &b.quantity_allocated);
            let zero = DecimalValue::zero();
            if dec_gt(&zero, &on_hand) {
                return Err(InventoryError::ValidationError(owned("Adjustment would result in negative on-hand quantity")));
            }
            if dec_gt(&zero, &available) {
                return Err(InventoryError::ValidationError(owned("Adjustment would result in negative available quantity")));
            }
            Ok((b.quantity_on_hand, InventoryBalance {
                quantity_on_hand: on_hand,
                quantity_available: available,
                version: b.version + 1,
                ..*b
            }))
        },
        None => {
            if dec_gt(&DecimalValue::zero(), delta) {
                return Err(InventoryError::ValidationError(owned("Cannot seed inventory with a negative adjustment")));
            }
            Ok((DecimalValue::zero(), InventoryBalance {
                inventory_item_id: item,
                location_id: location,
                quantity_on_hand: *delta,
                quantity_allocated: DecimalValue::zero(),
                quantity_available: *delta,
                version: 1,
            }))
        },
    }
}

/// A reservation of `q`: allocated up by `q`, available recomputed.
pub open spec fn reserved(b: InventoryBalance, q: DecimalValue) -> InventoryBalance {
    let allocated = spec_add(b.quantity_allocated, q);
    InventoryBalance {
        quantity_allocated: allocated,
        quantity_available: spec_sub(b.quantity_on_hand, allocated),
        version: (b.version + 1) as i32,
        ..b
    }
}

/// A release of `q`: allocated down by `q`, available recomputed.
pub open spec fn released(b: InventoryBalance, q: DecimalValue) -> InventoryBalance {
    let allocated = spec_sub(b.quantity_allocated, q);
    InventoryBalance {
        quantity_allocated: allocated,
        quantity_available: spec_sub(b.quantity_on_hand, allocated),
        version: (b.version + 1) as i32,
        ..b
    }
}

pub open spec fn insufficient_reservation_text(item_number: Seq<char>, location: i32, q: DecimalValue, b: InventoryBalance) -> Seq<char> {
    "Insufficient available quantity for item "@ + item_number + " at location "@ + int_str(location as int)
        + ". Requested: "@ + dshown(q) + ", Available: "@ + dshown(b.quantity_available) + ", On-hand: "@ + dshown(
        b.quantity_on_hand,
    ) + ", Allocated: "@ + dshown(b.quantity_allocated)
}

/// The outcome of reserving `q` of an item at a location.
pub open spec fn reservation(
    existing: Option<InventoryBalance>,
    item: i64,
    item_number: Seq<char>,
    location: i32,
    q: DecimalValue,
    expected_version: Option<i32>,
) -> Result<InventoryBalance, (InventoryRefusal, Seq<char>)> {
    if q.value() <= 0 {
        Err((InventoryRefusal::Validation, "Reservation quantity must be positive"@))
    } else {
        match existing {
            None => Err((InventoryRefusal::NotFound, no_inventory_text(item, location))),
            Some(b) => if expected_version matches Some(v) && v != b.version {
                Err((InventoryRefusal::Conflict, conflict_text(expected_version.unwrap(), b.version)))
            } else if b.quantity_available.value() < q.value() {
                Err((InventoryRefusal::InsufficientStock, insufficient_reservation_text(item_number, location, q, b)))
            } else {
                Ok(reserved(b, q))
            },
        }
    }
}

/// Reserves `q` from a balance's available stock.
pub fn reserve_balance(
    existing: Option<&InventoryBalance>,
    item: i64,
    item_number: &str,
    location: i32,
    q: &DecimalValue,
    expected_version: Option<i32>,
) -> (r: Result<InventoryBalance, InventoryError>)
    requires
        q.wf(),
        existing matches Some(b) ==> b.wf() && (q.value() > 0 && !(expected_version matches Some(v) && v != b.version)
            && b.quantity_available.value() >= q.value() ==> b.version < i32::MAX && add_fits(b.quantity_allocated, *q)
            && sub_fits(b.quantity_on_hand, spec_add(b.quantity_allocated, *q))),
    ensures
        match r {
            Ok(b) => reservation(match existing { Some(b) => Some(*b), None => None }, item, item_number@, location, *q, expected_version)
                == Result::<InventoryBalance, (InventoryRefusal, Seq<char>)>::Ok(b),
            Err(e) => reservation(match existing { Some(b) => Some(*b), None => None }, item, item_number@, location, *q, expected_version)
                == Result::<InventoryBalance, (InventoryRefusal, Seq<char>)>::Err((e.kind(), e.msg())),
        },
{
    if !q.is_positive() {
        return Err(InventoryError::ValidationError(owned("Reservation quantity must be positive")));
    }
    let b = match existing {
        None => {
            return Err(no_inventory(item, location));
        },
        Some(b) => b,
    };
    if let Some(v) = expected_version {
        if b.version != v {
            return Err(conflict(v, b.version));
        }
    }
    if dec_gt(q, &b.quantity_available) {
        let mut s = concat("Insufficient available quantity for item ", item_number);
        push_str(&mut s, " at location ");
        push_i128(&mut s, location as i128);
        push_str(&mut s, ". Requested: ");
        push_dec(&mut s, q);
        push_str(&mut s, ", Available: ");
        push_dec(&mut s, &b.quantity_available);
        push_str(&mut s, ", On-hand: ");
        push_dec(&mut s, &b.quantity_on_hand);
        push_str(&mut s, ", Allocated: ");
        push_dec(&mut s, &b.quantity_allocated);
        return Err(InventoryError::InsufficientStock(s));
    }
    let allocated = dec_add(&b.quantity_allocated, q);
    let available = dec_sub(&b.quantity_on_hand, &allocated);
    Ok(InventoryBalance { quantity_allocated: allocated, quantity_available: available, version: b.version + 1, ..*b })
}

pub open spec fn over_release_text(item_number: Seq<char>, location: i32, q: DecimalValue, b: InventoryBalance) -> Seq<char> {
    "Cannot release "@ + dshown(q) + " units for item "@ + item_number + " at location "@ + int_str(location as int)
        + " when only "@ + dshown(b.quantity_allocated) + " is allocated. Available: "@ + dshown(b.quantity_available)
        + ", On-hand: "@ + dshown(b.quantity_on_hand)
}

/// The outcome of releasing `q` reserved of an item at a location.
pub open spec fn release(existing: Option<InventoryBalance>, item: i64, item_number: Seq<char>, location: i32, q: DecimalValue) -> Result<InventoryBalance, (InventoryRefusal, Seq<char>)> {
    if q.value() <= 0 {
        Err((InventoryRefusal::Validation, "Release quantity must be positive"@))
    } else {
        match existing {
            None => Err((InventoryRefusal::NotFound, no_inventory_text(item, location))),
            Some(b) => if b.quantity_allocated.value() < q.value() {
                Err((InventoryRefusal::Validation, over_release_text(item_number, location, q, b)))
            } else {
                Ok(released(b, q))
            },
        }
    }
}

/// Releases `q` of a reservation back to available stock.
pub fn release_balance(existing: Option<&InventoryBalance>, item: i64, item_number: &str, location: i32, q: &DecimalValue) -> (r: Result<InventoryBalance, InventoryError>)
    requires
        q.wf(),
        existing matches Some(b) ==> b.wf() && (q.value() > 0 && b.quantity_allocated.value() >= q.value()
            ==> b.version < i32::MAX && sub_fits(b.quantity_allocated, *q) && sub_fits(
            b.quantity_on_hand,
            spec_sub(b.quantity_allocated, *q),
        )),
    ensures
        match r {
            Ok(b) => release(match existing { Some(b) => Some(*b), None => None }, item, item_number@, location, *q)
                == Result::<InventoryBalance, (InventoryRefusal, Seq<char>)>::Ok(b),
            Err(e) => release(match existing { Some(b) => Some(*b), None => None }, item, item_number@, location, *q)
                == Result::<InventoryBalance, (InventoryRefusal, Seq<char>)>::Err((e.kind(), e.msg())),
        },
{
    if !q.is_positive() {
        return Err(InventoryError::ValidationError(owned("Release quantity must be positive")));
    }
    let b = match existing {
        None => {
            return Err(no_inventory(item, location));
        },
        Some(b) => b,
    };
    if dec_gt(q, &b.quantity_allocated) {
        let mut s = owned("Cannot release ");
        push_dec(&mut s, q);
        push_str(&mut s, " units for item ");
        push_str(&mut s, item_number);
        push_str(&mut s, " at location ");
        push_i128(&mut s, location as i128);
        push_str(&mut s, " when only ");
        push_dec(&mut s, &b.quantity_allocated);
        push_str(&mut s, " is allocated. Available: ");
        push_dec(&mut s, &b.quantity_available);
        push_str(&mut s, ", On-hand: ");
        push_dec(&mut s, &b.quantity_on_hand);
        return Err(InventoryError::ValidationError(s));
    }
    let allocated = dec_sub(&b.quantity_allocated, q);
    let available = dec_sub(&b.quantity_on_hand, &allocated);
    Ok(InventoryBalance { quantity_allocated: allocated, quantity_available: available, version: b.version + 1, ..*b })
}

/// Stock of `q` moved into a balance: on hand up by `q`, available
/// recomputed.
pub open spec fn stocked(b: InventoryBalance, q: DecimalValue) -> InventoryBalance {
    let on_hand = spec_add(b.quantity_on_hand, q);
    InventoryBalance {
        quantity_on_hand: on_hand,
        quantity_available: spec_sub(on_hand, b.quantity_allocated),
        version: (b.version + 1) as i32,
        ..b
    }
}

/// Stock of `q` moved out of a balance: on hand down by `q`, available
/// recomputed.
pub open spec fn destocked(b: InventoryBalance, q: DecimalValue) -> InventoryBalance {
    let on_hand = spec_sub(b.quantity_on_hand, q);
    InventoryBalance {
        quantity_on_hand: on_hand,
        quantity_available: spec_sub(on_hand, b.quantity_allocated),
        version: (b.version + 1) as i32,
        ..b
    }
}

pub open spec fn insufficient_source_text(item: i64, from: i32, q: DecimalValue, b: InventoryBalance) -> Seq<char> {
    "Insufficient stock at source location "@ + int_str(from as int) + " for item "@ + int_str(item as int)
        + ". Requested: "@ + dshown(q) + ", Available: "@ + dshown(b.quantity_available) + ", On-hand: "@ + dshown(
        b.quantity_on_hand,
    ) + ", Allocated: "@ + dshown(b.quantity_allocated)
}

/// The outcome of moving `q` of an item between locations: the source and
/// destination balances after the move. When both locations are the same,
/// the destination is the source as the move left it.
pub open spec fn transfer(
    item: i64,
    from: i32,
    to: i32,
    q: DecimalValue,
    source: Option<InventoryBalance>,
    dest: Option<InventoryBalance>,
) -> Result<(InventoryBalance, InventoryBalance), (InventoryRefusal, Seq<char>)> {
    if q.value() <= 0 {
        Err((InventoryRefusal::Validation, "Transfer quantity must be positive"@))
    } else {
        match source {
            None => Err((InventoryRefusal::NotFound, no_inventory_text(item, from))),
            Some(s) => if s.quantity_available.value() < q.value() {
                Err((InventoryRefusal::Validation, insufficient_source_text(item, from, q, s)))
            } else {
                let out = destocked(s, q);
                let target = if from == to { Some(out) } else { dest };
                match target {
                    Some(d) => Ok((out, stocked(d, q))),
                    None => Ok((out, seeded(item, to, q))),
                }
            },
        }
    }
}

/// The arithmetic of a transfer fits a `Decimal`.
pub open spec fn transfer_fits(from: i32, to: i32, q: DecimalValue, source: Option<InventoryBalance>, dest: Option<InventoryBalance>) -> bool {
    &&& q.wf()
    &&& source matches Some(s) ==> {
        &&& s.wf()
        &&& q.value() > 0 && s.quantity_available.value() >= q.value() ==> {
            &&& s.version < i32::MAX
            &&& sub_fits(s.quantity_on_hand, q)
            &&& sub_fits(spec_sub(s.quantity_on_hand, q), s.quantity_allocated)
            &&& from == to ==> {
                let out = destocked(s, q);
                &&& out.version < i32::MAX
                &&& add_fits(out.quantity_on_hand, q)
                &&& sub_fits(spec_add(out.quantity_on_hand, q), out.quantity_allocated)
            }
            &&& from != to ==> (dest matches Some(d) ==> d.wf() && d.version < i32::MAX && add_fits(d.quantity_on_hand, q)
                && sub_fits(spec_add(d.quantity_on_hand, q), d.quantity_allocated))
        }
    }
}

fn stock_in(d: &InventoryBalance, q: &DecimalValue) -> (r: InventoryBalance)
    requires
        d.wf(),
        q.wf(),
        d.version < i32::MAX,
        add_fits(d.quantity_on_hand, *q),
        sub_fits(spec_add(d.quantity_on_hand, *q), d.quantity_allocated),
    ensures
        r == stocked(*d, *q),
        r.wf(),
        r.consistent(),
{
    let on_hand = dec_add(&d.quantity_on_hand, q);
    let available = dec_sub(&on_hand, &d.quantity_allocated);
    InventoryBalance { quantity_on_hand: on_hand, quantity_available: available, version: d.version + 1, ..*d }
}

/// Moves `q` of an item from one location to another.
pub fn transfer_balances(
    item: i64,
    from: i32,
    to: i32,
    q: &DecimalValue,
    source: Option<&InventoryBalance>,
    dest: Option<&InventoryBalance>,
) -> (r: Result<(InventoryBalance, InventoryBalance), InventoryError>)
    requires
        transfer_fits(from, to, *q, match source { Some(s) => Some(*s), None => None }, match dest { Some(d) => Some(*d), None => None }),
    ensures
        match r {
            Ok(v) => transfer(item, from, to, *q, match source { Some(s) => Some(*s), None => None }, match dest { Some(d) => Some(*d), None => None })
                == Result::<(InventoryBalance, InventoryBalance), (InventoryRefusal, Seq<char>)>::Ok(v),
            Err(e) => transfer(item, from, to, *q, match source { Some(s) => Some(*s), None => None }, match dest { Some(d) => Some(*d), None => None })
                == Result::<(InventoryBalance, InventoryBalance), (InventoryRefusal, Seq<char>)>::Err((e.kind(), e.msg())),
        },
{
    if !q.is_positive() {
        return Err(InventoryError::ValidationError(owned("Transfer quantity must be positive")));
    }
    let s = match source {
        None => {
            return Err(no_inventory(item, from));
        },
        Some(s) => s,
    };
    if dec_gt(q, &s.quantity_available) {
        let mut m = owned("Insufficient stock at source location ");
        push_i128(&mut m, from as i128);
        push_str(&mut m, " for item ");
        push_i128(&mut m, item as i128);
        push_str(&mut m, ". Requested: ");
        push_dec(&mut m, q);
        push_str(&mut m, ", Available: ");
        push_dec(&mut m, &s.quantity_available);
        push_str(&mut m, ", On-hand: ");
        push_dec(&mut m, &s.quantity_on_hand);
        push_str(&mut m, ", Allocated: ");
        push_dec(&mut m, &s.quantity_allocated);
        return Err(InventoryError::ValidationError(m));
    }
    let on_hand = dec_sub(&s.quantity_on_hand, q);
    let available = dec_sub(&on_hand, &s.quantity_allocated);
    let out = InventoryBalance { quantity_on_hand: on_hand, quantity_available: available, version: s.version + 1, ..*s };
    if from == to {
        let back = stock_in(&out, q);
        return Ok((out, back));
    }
    match dest {
        Some(d) => Ok((out, stock_in(d, q))),
        None => Ok((out, InventoryBalance {
            inventory_item_id: item,
            location_id: to,
            quantity_on_hand: *q,
            quantity_allocated: DecimalValue::zero(),
            quantity_available: *q,
            version: 1,
        })),
    }
}

/// Whether a balance has at least `q` available.
pub fn is_in_stock(balance: Option<&InventoryBalance>, q: &DecimalValue) -> (r: bool)
    requires
        q.wf(),
        balance matches Some(b) ==> b.wf(),
    ensures
        r == (balance matches Some(b) && b.quantity_available.value() >= q.value()),
{
    match balance {
        Some(b) => !dec_gt(q, &b.quantity_available),
        None => false,
    }
}

/// The outcome of receiving `q` from a purchase order line at a location:
/// the balance afterwards and whether it was created.
pub open spec fn receipt(po: PurchaseOrderLine, existing: Option<InventoryBalance>, q: DecimalValue, location: i32) -> Result<(InventoryBalance, bool), (InventoryRefusal, Seq<char>)> {
    if q.value() <= 0 {
        Err((InventoryRefusal::Validation, "Received quantity must be positive"@))
    } else {
        let (b, created) = match existing {
            Some(b) => (stocked(b, q), false),
            None => (seeded(match po.item_id { Some(i) => i, None => 0 }, location, q), true),
        };
        let previous = if created { zero() } else { spec_sub(b.quantity_on_hand, q) };
        if !all_fit(seq![q, previous, b.quantity_on_hand]) {
            Err((InventoryRefusal::Validation, "Quantity overflow"@))
        } else {
            Ok((b, created))
        }
    }
}

/// The arithmetic of a receipt fits a `Decimal`.
pub open spec fn receipt_fits(existing: Option<InventoryBalance>, q: DecimalValue) -> bool {
    &&& q.wf()
    &&& existing matches Some(b) ==> {
        &&& b.wf()
        &&& q.value() > 0 ==> {
            &&& b.version < i32::MAX
            &&& add_fits(b.quantity_on_hand, q)
            &&& sub_fits(spec_add(b.quantity_on_hand, q), b.quantity_allocated)
            &&& sub_fits(spec_add(b.quantity_on_hand, q), q)
        }
    }
}

/// Receives stock from a purchase order line into a location, creating
/// the balance when there is none.
pub fn receive_inventory_for_po_line(
    po: &PurchaseOrderLine,
    existing: Option<&InventoryBalance>,
    quantity_received: &DecimalValue,
    location_id: i32,
) -> (r: Result<LineOutcome, InventoryError>)
    requires
        receipt_fits(match existing { Some(b) => Some(*b), None => None }, *quantity_received),
    ensures
        match r {
            Err(e) => receipt(*po, match existing { Some(b) => Some(*b), None => None }, *quantity_received, location_id)
                == Result::<(InventoryBalance, bool), (InventoryRefusal, Seq<char>)>::Err((e.kind(), e.msg())),
            Ok(o) => {
                let item = match po.item_id { Some(i) => i, None => 0 };
                let q = *quantity_received;
                &&& receipt(*po, match existing { Some(b) => Some(*b), None => None }, q, location_id) matches Ok((b, created))
                    && o.balance == b && records(o.transaction, item, location_id, TransactionType::Receive, q,
                    if created { 0 } else { round_half_even(spec_sub(b.quantity_on_hand, q)) },
                    round_half_even(b.quantity_on_hand), Some(match po.po_header_id { Some(h) => h, None => po.po_line_id }),
                    "PURCHASE_ORDER_RECEIPT"@, "PO receipt"@, "Received from PO line "@ + int_str(po.po_line_id as int))
                &&& o.result.item_id == item && o.result.location_id == location_id
                &&& o.result.adjustment_type == TransactionType::Receive && o.result.quantity_adjusted == q
                &&& o.result.new_on_hand == o.balance.quantity_on_hand
                &&& o.result.new_available == o.balance.quantity_available
                &&& o.result.new_allocated == o.balance.quantity_allocated
                &&& o.balance.consistent()
            },
        },
{
    let q = *quantity_received;
    if !q.is_positive() {
        return Err(InventoryError::ValidationError(owned("Received quantity must be positive")));
    }
    let item = match po.item_id {
        Some(i) => i,
        None => 0,
    };
    let (b, created) = match existing {
        Some(e) => (stock_in(e, &q), false),
        None => (InventoryBalance {
            inventory_item_id: item,
            location_id,
            quantity_on_hand: q,
            quantity_allocated: DecimalValue::zero(),
            quantity_available: q,
            version: 1,
        }, true),
    };
    let ghost previous = if created { zero() } else { spec_sub(b.quantity_on_hand, q) };
    let ghost qs = seq![q, previous, b.quantity_on_hand];
    let qty = match crate::inventory::balance::decimal_to_i32(&q) {
        Ok(n) => n,
        Err(e) => {
            assert(!fits_i32(round_half_even(qs[0])));
            return Err(e);
        },
    };
    let prev: i32 = if created {
        assert(round_half_even(zero()) == 0) by {
            assert(crate::decimal::p10(0) == 1);
        }
        0
    } else {
        let before = dec_sub(&b.quantity_on_hand, &q);
        match crate::inventory::balance::decimal_to_i32(&before) {
            Ok(n) => n,
            Err(e) => {
                assert(!fits_i32(round_half_even(qs[1])));
                return Err(e);
            },
        }
    };
    let next = match crate::inventory::balance::decimal_to_i32(&b.quantity_on_hand) {
        Ok(n) => n,
        Err(e) => {
            assert(!fits_i32(round_half_even(qs[2])));
            return Err(e);
        },
    };
    assert(all_fit(qs));
    let reference = match po.po_header_id {
        Some(h) => h,
        None => po.po_line_id,
    };
    let mut notes = owned("Received from PO line ");
    push_i128(&mut notes, po.po_line_id as i128);
    let transaction = TransactionRecord {
        item_id: item,
        location_id,
        kind: TransactionType::Receive,
        quantity: qty,
        previous_quantity: prev,
        new_quantity: next,
        reference_id: Some(reference),
        reference_type: owned("PURCHASE_ORDER_RECEIPT"),
        reason: owned("PO receipt"),
        notes,
    };
    let result = InventoryAdjustmentResult {
        item_id: item,
        location_id,
        adjustment_type: TransactionType::Receive,
        quantity_adjusted: q,
        new_on_hand: b.quantity_on_hand,
        new_available: b.quantity_available,
        new_allocated: b.quantity_allocated,
    };
    proof {
        let ex = match existing { Some(e) => Some(*e), None => None };
        assert(created == (existing is None));
        assert(receipt(*po, ex, q, location_id) == Result::<(InventoryBalance, bool), (InventoryRefusal, Seq<char>)>::Ok((b, created)));
        assert(zero().value() == 0) by {
            let p = crate::decimal::p10(28);
            assert(0 * p == 0) by (nonlinear_arith);
        }
        assert(b.consistent());
    }
    Ok(LineOutcome { balance: b, transaction, result })
}

} // verus!
