//! Properties of stock movements across operations.
use vstd::prelude::*;
use crate::decimal::{
    add_fits, lemma_spec_add_value, lemma_spec_add_wf, lemma_spec_sub_value, lemma_spec_sub_wf, spec_add,
    spec_sub, sub_fits, DecimalValue,
};
use crate::inventory::balance::InventoryBalance;
use crate::inventory::stock::{destocked, released, reserved, stocked, transfer, transfer_fits};

verus! {

/// Reserving `q` and then releasing `q` gives back the allocated and
/// available stock the balance had; only the version moves on.
pub proof fn law_reserve_then_release_restores(b: InventoryBalance, q: DecimalValue)
    requires
        b.wf(),
        q.wf(),
        b.consistent(),
        add_fits(b.quantity_allocated, q),
        sub_fits(b.quantity_on_hand, spec_add(b.quantity_allocated, q)),
        sub_fits(reserved(b, q).quantity_allocated, q),
        sub_fits(b.quantity_on_hand, spec_sub(reserved(b, q).quantity_allocated, q)),
    ensures
        released(reserved(b, q), q).quantity_allocated.value() == b.quantity_allocated.value(),
        released(reserved(b, q), q).quantity_available.value() == b.quantity_available.value(),
        released(reserved(b, q), q).quantity_on_hand == b.quantity_on_hand,
{
    let r = reserved(b, q);
    lemma_spec_add_value(b.quantity_allocated, q);
    lemma_spec_add_wf(b.quantity_allocated, q);
    lemma_spec_sub_value(r.quantity_allocated, q);
    lemma_spec_sub_wf(r.quantity_allocated, q);
    lemma_spec_sub_value(b.quantity_on_hand, spec_sub(r.quantity_allocated, q));
}

/// Reservations, releases and stock moved in or out all leave available
/// stock equal to stock on hand minus allocated stock.
pub proof fn law_stock_operations_keep_balances_consistent(b: InventoryBalance, q: DecimalValue)
    requires
        b.wf(),
        q.wf(),
    ensures
        add_fits(b.quantity_allocated, q) && sub_fits(b.quantity_on_hand, spec_add(b.quantity_allocated, q))
            ==> reserved(b, q).consistent(),
        sub_fits(b.quantity_allocated, q) && sub_fits(b.quantity_on_hand, spec_sub(b.quantity_allocated, q))
            ==> released(b, q).consistent(),
        add_fits(b.quantity_on_hand, q) && sub_fits(spec_add(b.quantity_on_hand, q), b.quantity_allocated)
            ==> stocked(b, q).consistent(),
        sub_fits(b.quantity_on_hand, q) && sub_fits(spec_sub(b.quantity_on_hand, q), b.quantity_allocated)
            ==> destocked(b, q).consistent(),
{
    if add_fits(b.quantity_allocated, q) && sub_fits(b.quantity_on_hand, spec_add(b.quantity_allocated, q)) {
        lemma_spec_add_wf(b.quantity_allocated, q);
        lemma_spec_sub_value(b.quantity_on_hand, spec_add(b.quantity_allocated, q));
    }
    if sub_fits(b.quantity_allocated, q) && sub_fits(b.quantity_on_hand, spec_sub(b.quantity_allocated, q)) {
        lemma_spec_sub_wf(b.quantity_allocated, q);
        lemma_spec_sub_value(b.quantity_on_hand, spec_sub(b.quantity_allocated, q));
    }
    if add_fits(b.quantity_on_hand, q) && sub_fits(spec_add(b.quantity_on_hand, q), b.quantity_allocated) {
        lemma_spec_add_wf(b.quantity_on_hand, q);
        lemma_spec_sub_value(spec_add(b.quantity_on_hand, q), b.quantity_allocated);
    }
    if sub_fits(b.quantity_on_hand, q) && sub_fits(spec_sub(b.quantity_on_hand, q), b.quantity_allocated) {
        lemma_spec_sub_wf(b.quantity_on_hand, q);
        lemma_spec_sub_value(spec_sub(b.quantity_on_hand, q), b.quantity_allocated);
    }
}

/// Moving stock between two balances keeps their total on hand.
pub proof fn law_transfer_conserves_stock(source: InventoryBalance, dest: InventoryBalance, q: DecimalValue)
    requires
        source.wf(),
        dest.wf(),
        q.wf(),
        sub_fits(source.quantity_on_hand, q),
        add_fits(dest.quantity_on_hand, q),
    ensures
        destocked(source, q).quantity_on_hand.value() + stocked(dest, q).quantity_on_hand.value()
            == source.quantity_on_hand.value() + dest.quantity_on_hand.value(),
{
    lemma_spec_sub_value(source.quantity_on_hand, q);
    lemma_spec_add_value(dest.quantity_on_hand, q);
}

/// A transfer between two locations keeps the item's stock on hand over
/// both: what leaves the source arrives at the destination (a destination
/// without a balance starts from nothing). Allocations stay, each side's
/// available stock is its on hand less its allocation, and each version
/// moves on by one (a new destination starts at version one).
pub proof fn law_transfer_between_locations_conserves_stock(
    item: i64,
    from: i32,
    to: i32,
    q: DecimalValue,
    source: InventoryBalance,
    dest: Option<InventoryBalance>,
)
    requires
        from != to,
        transfer_fits(from, to, q, Some(source), dest),
        transfer(item, from, to, q, Some(source), dest) is Ok,
    ensures
        transfer(item, from, to, q, Some(source), dest) matches Ok((s2, d2)) && {
            let dest_on_hand = match dest {
                Some(d) => d.quantity_on_hand.value(),
                None => 0,
            };
            let dest_allocated = match dest {
                Some(d) => d.quantity_allocated.value(),
                None => 0,
            };
            &&& s2.quantity_on_hand.value() + d2.quantity_on_hand.value() == source.quantity_on_hand.value() + dest_on_hand
            &&& s2.quantity_on_hand.value() == source.quantity_on_hand.value() - q.value()
            &&& d2.quantity_on_hand.value() == dest_on_hand + q.value()
            &&& s2.quantity_allocated == source.quantity_allocated
            &&& d2.quantity_allocated.value() == dest_allocated
            &&& s2.consistent() && d2.consistent()
            &&& s2.version == source.version + 1
            &&& d2.version == (match dest {
                Some(d) => d.version + 1,
                None => 1,
            })
        },
{
    lemma_spec_sub_value(source.quantity_on_hand, q);
    lemma_spec_sub_wf(source.quantity_on_hand, q);
    lemma_spec_sub_value(spec_sub(source.quantity_on_hand, q), source.quantity_allocated);
    match dest {
        Some(d) => {
            lemma_spec_add_value(d.quantity_on_hand, q);
            lemma_spec_add_wf(d.quantity_on_hand, q);
            lemma_spec_sub_value(spec_add(d.quantity_on_hand, q), d.quantity_allocated);
        },
        None => {},
    }
}

/// Shipping takes the same quantity off hand and off the allocation, so the
/// stock available does not change.
pub proof fn law_shipping_keeps_available(b: InventoryBalance, q: DecimalValue)
    requires
        b.wf(),
        q.wf(),
        b.consistent(),
        sub_fits(b.quantity_on_hand, q),
        sub_fits(b.quantity_allocated, q),
        sub_fits(spec_sub(b.quantity_on_hand, q), spec_sub(b.quantity_allocated, q)),
    ensures
        spec_sub(spec_sub(b.quantity_on_hand, q), spec_sub(b.quantity_allocated, q)).value()
            == b.quantity_available.value(),
{
    lemma_spec_sub_value(b.quantity_on_hand, q);
    lemma_spec_sub_value(b.quantity_allocated, q);
    lemma_spec_sub_wf(b.quantity_on_hand, q);
    lemma_spec_sub_wf(b.quantity_allocated, q);
    lemma_spec_sub_value(spec_sub(b.quantity_on_hand, q), spec_sub(b.quantity_allocated, q));
}

} // verus!
