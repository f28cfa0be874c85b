//! Per-item stock snapshots: balances grouped under their items with
//! totals, and the filters a listing applies to them.
use vstd::prelude::*;
use crate::agentic::model::clone_opt;
use crate::decimal::{dec_gt, running_total, sum_amounts, sum_fits, DecimalValue};
use crate::inventory::balance::InventoryError;
use crate::num::{parse_i64, parsed_i64};
use crate::text::{owned, trim, trim_string};

verus! {

/// An item of the item master, as a snapshot reports it.
#[derive(Debug, Clone)]
pub struct ItemRecord {
    pub inventory_item_id: i64,
    pub item_number: String,
    pub description: Option<String>,
    pub primary_uom_code: Option<String>,
    pub organization_id: i64,
}

/// Stock of an item at one location; `updated_at` is in milliseconds since
/// the Unix epoch.
#[derive(Debug, Clone)]
pub struct LocationBalance {
    pub location_id: i32,
    pub location_name: Option<String>,
    pub quantity_on_hand: DecimalValue,
    pub quantity_allocated: DecimalValue,
    pub quantity_available: DecimalValue,
    pub updated_at: i64,
    pub version: i32,
}

/// A balance row as fetched, with the item it belongs to.
#[derive(Debug, Clone)]
pub struct BalanceRow {
    pub inventory_item_id: i64,
    pub balance: LocationBalance,
}

/// An item with its balances at every location and their totals.
#[derive(Debug, Clone)]
pub struct InventorySnapshot {
    pub inventory_item_id: i64,
    pub item_number: String,
    pub description: Option<String>,
    pub primary_uom_code: Option<String>,
    pub organization_id: i64,
    pub total_on_hand: DecimalValue,
    pub total_allocated: DecimalValue,
    pub total_available: DecimalValue,
    pub locations: Vec<LocationBalance>,
}

pub open spec fn on_hand_column(ls: Seq<LocationBalance>) -> Seq<DecimalValue> {
    ls.map_values(|b: LocationBalance| b.quantity_on_hand)
}

pub open spec fn allocated_column(ls: Seq<LocationBalance>) -> Seq<DecimalValue> {
    ls.map_values(|b: LocationBalance| b.quantity_allocated)
}

pub open spec fn available_column(ls: Seq<LocationBalance>) -> Seq<DecimalValue> {
    ls.map_values(|b: LocationBalance| b.quantity_available)
}

/// The three columns of the balances can be added up.
pub open spec fn columns_fit(ls: Seq<LocationBalance>) -> bool {
    &&& sum_fits(on_hand_column(ls))
    &&& sum_fits(allocated_column(ls))
    &&& sum_fits(available_column(ls))
}

/// `s` reports `item` with exactly the balances `ls`, totalled column by
/// column from zero as `Decimal` adds.
pub open spec fn reports(s: InventorySnapshot, item: ItemRecord, ls: Seq<LocationBalance>) -> bool {
    &&& s.inventory_item_id == item.inventory_item_id
    &&& s.item_number == item.item_number
    &&& s.description == item.description
    &&& s.primary_uom_code == item.primary_uom_code
    &&& s.organization_id == item.organization_id
    &&& s.locations@ == ls
    &&& s.total_on_hand == running_total(on_hand_column(ls))
    &&& s.total_allocated == running_total(allocated_column(ls))
    &&& s.total_available == running_total(available_column(ls))
}

/// The balances of the rows that belong to item `id`, in row order.
pub open spec fn rows_for(rows: Seq<BalanceRow>, id: i64) -> Seq<LocationBalance>
    decreases rows.len(),
{
    if rows.len() == 0 {
        Seq::empty()
    } else if rows.last().inventory_item_id == id {
        rows_for(rows.drop_last(), id).push(rows.last().balance)
    } else {
        rows_for(rows.drop_last(), id)
    }
}

/// An earlier item has the same id (its snapshot took the balances).
pub open spec fn seen_before(items: Seq<ItemRecord>, k: int) -> bool {
    exists|j: int| 0 <= j < k && items[j].inventory_item_id == items[k].inventory_item_id
}

/// The balances the `k`-th item's snapshot lists: the item's rows, or none
/// when an earlier item with the same id already took them.
pub open spec fn balances_of(items: Seq<ItemRecord>, rows: Seq<BalanceRow>, k: int) -> Seq<LocationBalance> {
    if seen_before(items, k) {
        Seq::empty()
    } else {
        rows_for(rows, items[k].inventory_item_id)
    }
}

fn copy_balance(b: &LocationBalance) -> (c: LocationBalance)
    ensures
        c == *b,
{
    LocationBalance {
        location_id: b.location_id,
        location_name: clone_opt(&b.location_name),
        quantity_on_hand: b.quantity_on_hand,
        quantity_allocated: b.quantity_allocated,
        quantity_available: b.quantity_available,
        updated_at: b.updated_at,
        version: b.version,
    }
}

/// The snapshot of `item` over the balances `ls`.
pub fn snapshot_of(item: &ItemRecord, ls: Vec<LocationBalance>) -> (s: InventorySnapshot)
    requires
        columns_fit(ls@),
    ensures
        reports(s, *item, ls@),
        s.total_on_hand.wf(),
        s.total_allocated.wf(),
        s.total_available.wf(),
{
    let mut a: Vec<DecimalValue> = Vec::new();
    let mut b: Vec<DecimalValue> = Vec::new();
    let mut c: Vec<DecimalValue> = Vec::new();
    let mut i: usize = 0;
    while i < ls.len()
        invariant
            i <= ls.len(),
            a@ == on_hand_column(ls@).take(i as int),
            b@ == allocated_column(ls@).take(i as int),
            c@ == available_column(ls@).take(i as int),
        decreases ls.len() - i,
    {
        a.push(ls[i].quantity_on_hand);
        b.push(ls[i].quantity_allocated);
        c.push(ls[i].quantity_available);
        i = i + 1;
        assert(a@ =~= on_hand_column(ls@).take(i as int));
        assert(b@ =~= allocated_column(ls@).take(i as int));
        assert(c@ =~= available_column(ls@).take(i as int));
    }
    assert(a@ =~= on_hand_column(ls@));
    assert(b@ =~= allocated_column(ls@));
    assert(c@ =~= available_column(ls@));
    InventorySnapshot {
        inventory_item_id: item.inventory_item_id,
        item_number: item.item_number.clone(),
        description: clone_opt(&item.description),
        primary_uom_code: clone_opt(&item.primary_uom_code),
        organization_id: item.organization_id,
        total_on_hand: sum_amounts(&a),
        total_allocated: sum_amounts(&b),
        total_available: sum_amounts(&c),
        locations: ls,
    }
}

fn balances_for(rows: &Vec<BalanceRow>, id: i64) -> (ls: Vec<LocationBalance>)
    ensures
        ls@ == rows_for(rows@, id),
{
    let mut ls: Vec<LocationBalance> = Vec::new();
    let mut i: usize = 0;
    while i < rows.len()
        invariant
            i <= rows.len(),
            ls@ == rows_for(rows@.take(i as int), id),
        decreases rows.len() - i,
    {
        assert(rows@.take(i as int + 1).drop_last() =~= rows@.take(i as int));
        if rows[i].inventory_item_id == id {
            ls.push(copy_balance(&rows[i].balance));
        }
        i = i + 1;
    }
    assert(rows@.take(rows.len() as int) =~= rows@);
    ls
}

/// One snapshot per item, in item order, each with the balance rows of
/// its item in row order (an item id listed twice gets its rows once, the
/// first time, as a map taken out of would give them).
pub fn build_snapshots(items: &Vec<ItemRecord>, rows: &Vec<BalanceRow>) -> (ss: Vec<InventorySnapshot>)
    requires
        forall|k: int| 0 <= k < items.len() ==> columns_fit(#[trigger] rows_for(rows@, items@[k].inventory_item_id)),
    ensures
        ss.len() == items.len(),
        forall|k: int| 0 <= k < items.len() ==> reports(#[trigger] ss@[k], items@[k], balances_of(items@, rows@, k)),
{
    let mut ss: Vec<InventorySnapshot> = Vec::new();
    let mut k: usize = 0;
    while k < items.len()
        invariant
            k <= items.len(),
            ss.len() == k,
            forall|m: int| 0 <= m < items.len() ==> columns_fit(#[trigger] rows_for(rows@, items@[m].inventory_item_id)),
            forall|m: int| 0 <= m < k ==> reports(#[trigger] ss@[m], items@[m], balances_of(items@, rows@, m)),
        decreases items.len() - k,
    {
        let id = items[k].inventory_item_id;
        let mut seen = false;
        let mut j: usize = 0;
        while j < k
            invariant
                j <= k < items.len(),
                id == items@[k as int].inventory_item_id,
                seen == (exists|x: int| 0 <= x < j && items@[x].inventory_item_id == id),
            decreases k - j,
        {
            if items[j].inventory_item_id == id {
                seen = true;
            }
            j = j + 1;
        }
        let ls = if seen {
            Vec::new()
        } else {
            balances_for(rows, id)
        };
        proof {
            assert(seen == seen_before(items@, k as int));
            assert(ls@ == balances_of(items@, rows@, k as int));
            assert(columns_fit(rows_for(rows@, items@[k as int].inventory_item_id)));
            if seen {
                crate::decimal::lemma_p10_positive(28);
                assert(crate::decimal::max_value() >= 0) by (nonlinear_arith)
                    requires crate::decimal::p10(28) >= 1, crate::decimal::max_value() == crate::decimal::MAX_MANTISSA * crate::decimal::p10(28);
                assert(on_hand_column(ls@) =~= Seq::<DecimalValue>::empty());
                assert(allocated_column(ls@) =~= Seq::<DecimalValue>::empty());
                assert(available_column(ls@) =~= Seq::<DecimalValue>::empty());
            }
        }
        let s = snapshot_of(&items[k], ls);
        ss.push(s);
        k = k + 1;
    }
    ss
}

/// The balances at location `l`, in order.
pub open spec fn located(ls: Seq<LocationBalance>, l: i32) -> Seq<LocationBalance>
    decreases ls.len(),
{
    if ls.len() == 0 {
        Seq::empty()
    } else if ls.last().location_id == l {
        located(ls.drop_last(), l).push(ls.last())
    } else {
        located(ls.drop_last(), l)
    }
}

/// The balances a listing keeps of a snapshot: those at the location asked
/// for, or all of them.
pub open spec fn kept_balances(s: InventorySnapshot, location: Option<i32>) -> Seq<LocationBalance> {
    match location {
        Some(l) => located(s.locations@, l),
        None => s.locations@,
    }
}

/// The available total after the location filter.
pub open spec fn available_after(s: InventorySnapshot, location: Option<i32>) -> DecimalValue {
    match location {
        Some(l) => running_total(available_column(located(s.locations@, l))),
        None => s.total_available,
    }
}

/// A listing keeps a snapshot that has balances at the location asked for
/// and, under a low-stock threshold, whose available total is below it.
pub open spec fn listed(s: InventorySnapshot, location: Option<i32>, low_stock: Option<DecimalValue>) -> bool {
    &&& (location is Some ==> kept_balances(s, location).len() > 0)
    &&& (low_stock matches Some(t) ==> available_after(s, location).value() < t.value())
}

/// `out` is `s` as a listing shows it: narrowed to the location asked for,
/// with totals recomputed over the balances kept.
pub open spec fn shown_as(out: InventorySnapshot, s: InventorySnapshot, location: Option<i32>) -> bool {
    match location {
        Some(l) => reports(out, ItemRecord {
            inventory_item_id: s.inventory_item_id,
            item_number: s.item_number,
            description: s.description,
            primary_uom_code: s.primary_uom_code,
            organization_id: s.organization_id,
        }, located(s.locations@, l)),
        None => {
            &&& out.inventory_item_id == s.inventory_item_id
            &&& out.item_number == s.item_number
            &&& out.description == s.description
            &&& out.primary_uom_code == s.primary_uom_code
            &&& out.organization_id == s.organization_id
            &&& out.locations@ == s.locations@
            &&& out.total_on_hand == s.total_on_hand
            &&& out.total_allocated == s.total_allocated
            &&& out.total_available == s.total_available
        },
    }
}

/// The snapshots a listing shows, in order.
pub open spec fn listing(
    inp: Seq<InventorySnapshot>,
    out: Seq<InventorySnapshot>,
    location: Option<i32>,
    low_stock: Option<DecimalValue>,
) -> bool
    decreases inp.len(),
{
    if inp.len() == 0 {
        out.len() == 0
    } else if listed(inp.last(), location, low_stock) {
        &&& out.len() > 0
        &&& shown_as(out.last(), inp.last(), location)
        &&& listing(inp.drop_last(), out.drop_last(), location, low_stock)
    } else {
        listing(inp.drop_last(), out, location, low_stock)
    }
}

/// The snapshots can be filtered: the totals compared are decimals, and the
/// balances at the location asked for can be added up.
pub open spec fn filter_fits(ss: Seq<InventorySnapshot>, location: Option<i32>, low_stock: Option<DecimalValue>) -> bool {
    &&& (low_stock matches Some(t) ==> t.wf())
    &&& forall|k: int| 0 <= k < ss.len() ==> {
        &&& (#[trigger] ss[k]).total_available.wf()
        &&& (location matches Some(l) ==> columns_fit(located(ss[k].locations@, l)))
    }
}

fn balances_at(ls: &Vec<LocationBalance>, l: i32) -> (r: Vec<LocationBalance>)
    ensures
        r@ == located(ls@, l),
{
    let mut r: Vec<LocationBalance> = Vec::new();
    let mut i: usize = 0;
    while i < ls.len()
        invariant
            i <= ls.len(),
            r@ == located(ls@.take(i as int), l),
        decreases ls.len() - i,
    {
        assert(ls@.take(i as int + 1).drop_last() =~= ls@.take(i as int));
        if ls[i].location_id == l {
            r.push(copy_balance(&ls[i]));
        }
        i = i + 1;
    }
    assert(ls@.take(ls.len() as int) =~= ls@);
    r
}

/// The snapshots a listing shows: narrowed to a location (dropping those
/// with no balance there, and recomputing the totals over the balances
/// kept), then, under a low-stock threshold, only those whose available
/// total is below it.
pub fn filter_snapshots(snapshots: Vec<InventorySnapshot>, location: Option<i32>, low_stock: Option<DecimalValue>) -> (r: Vec<InventorySnapshot>)
    requires
        filter_fits(snapshots@, location, low_stock),
    ensures
        listing(snapshots@, r@, location, low_stock),
{
    let mut r: Vec<InventorySnapshot> = Vec::new();
    let mut i: usize = 0;
    while i < snapshots.len()
        invariant
            i <= snapshots.len(),
            filter_fits(snapshots@, location, low_stock),
            listing(snapshots@.take(i as int), r@, location, low_stock),
        decreases snapshots.len() - i,
    {
        let s = &snapshots[i];
        let ghost sv = snapshots@[i as int];
        assert(snapshots@.take(i as int + 1).drop_last() =~= snapshots@.take(i as int));
        assert(snapshots@.take(i as int + 1).last() == sv);
        let narrowed: Option<InventorySnapshot> = match location {
            Some(l) => {
                let at = balances_at(&s.locations, l);
                if at.len() == 0 {
                    None
                } else {
                    let item = ItemRecord {
                        inventory_item_id: s.inventory_item_id,
                        item_number: s.item_number.clone(),
                        description: clone_opt(&s.description),
                        primary_uom_code: clone_opt(&s.primary_uom_code),
                        organization_id: s.organization_id,
                    };
                    Some(snapshot_of(&item, at))
                }
            },
            None => {
                let mut ls: Vec<LocationBalance> = Vec::new();
                let mut j: usize = 0;
                while j < s.locations.len()
                    invariant
                        j <= s.locations.len(),
                        ls@ == s.locations@.take(j as int),
                    decreases s.locations.len() - j,
                {
                    ls.push(copy_balance(&s.locations[j]));
                    j = j + 1;
                    assert(ls@ =~= s.locations@.take(j as int));
                }
                assert(ls@ =~= s.locations@);
                Some(InventorySnapshot {
                    inventory_item_id: s.inventory_item_id,
                    item_number: s.item_number.clone(),
                    description: clone_opt(&s.description),
                    primary_uom_code: clone_opt(&s.primary_uom_code),
                    organization_id: s.organization_id,
                    total_on_hand: s.total_on_hand,
                    total_allocated: s.total_allocated,
                    total_available: s.total_available,
                    locations: ls,
                })
            },
        };
        match narrowed {
            None => {
                assert(!listed(sv, location, low_stock));
            },
            Some(n) => {
                assert(shown_as(n, sv, location));
                assert(n.total_available == available_after(sv, location));
                let keep = match low_stock {
                    Some(t) => {
                        assert(n.total_available.wf()) by {
                            if location is None {
                                assert(sv.total_available.wf());
                            }
                        }
                        dec_gt(&t, &n.total_available)
                    },
                    None => true,
                };
                if keep {
                    assert(listed(sv, location, low_stock));
                    let ghost before = r@;
                    r.push(n);
                    assert(r@.drop_last() =~= before);
                } else {
                    assert(!listed(sv, location, low_stock));
                }
            },
        }
        i = i + 1;
    }
    assert(snapshots@.take(snapshots.len() as int) =~= snapshots@);
    r
}

/// A listing's page request is refused unless the page is at least one and
/// the limit between one and a thousand.
pub fn check_page_request(page: u64, limit: u64) -> (r: Result<(), InventoryError>)
    ensures
        page == 0 ==> (r matches Err(InventoryError::ValidationError(m)) && m@ == "Page number must be greater than 0"@),
        page > 0 && (limit == 0 || limit > 1000) ==> (r matches Err(InventoryError::ValidationError(m))
            && m@ == "Limit must be between 1 and 1000"@),
        page > 0 && 1 <= limit <= 1000 ==> r is Ok,
{
    if page == 0 {
        return Err(InventoryError::ValidationError(owned("Page number must be greater than 0")));
    }
    if limit == 0 || limit > 1000 {
        return Err(InventoryError::ValidationError(owned("Limit must be between 1 and 1000")));
    }
    Ok(())
}

/// How a listing's product filter selects items.
#[derive(Debug, Clone)]
pub enum ProductFilter {
    /// The item with this id.
    ItemId(i64),
    /// Items whose number contains this text.
    NumberContains(String),
}

/// A filter that parses as an `i64` selects by id; anything else by part
/// of the item number.
pub fn product_filter(filter: &str) -> (f: ProductFilter)
    ensures
        match parsed_i64(filter@) {
            Some(id) => f matches ProductFilter::ItemId(x) && x == id,
            None => f matches ProductFilter::NumberContains(t) && t@ == filter@,
        },
{
    match parse_i64(filter) {
        Some(id) => ProductFilter::ItemId(id),
        None => ProductFilter::NumberContains(owned(filter)),
    }
}

/// The item number an item is filed under: the given one, trimmed. A blank
/// number is refused.
pub fn item_number_for(item_number: &str) -> (r: Result<String, InventoryError>)
    ensures
        trim(item_number@).len() == 0 ==> (r matches Err(InventoryError::ValidationError(m)) && m@ == "item_number cannot be empty"@),
        trim(item_number@).len() > 0 ==> (r matches Ok(t) && t@ == trim(item_number@)),
{
    if crate::text::is_blank(item_number) {
        Err(InventoryError::ValidationError(owned("item_number cannot be empty")))
    } else {
        Ok(trim_string(item_number))
    }
}

/// The current text is absent or other than the wanted one.
pub open spec fn differs(current: Option<String>, wanted: String) -> bool {
    match current {
        Some(c) => c@ != wanted@,
        None => true,
    }
}

/// An existing item brought in line with what is asked: a given
/// description or unit of measure that differs replaces the item's, and so
/// does a different organization. `None` when nothing changes.
pub fn item_changes(item: &ItemRecord, description: Option<String>, primary_uom_code: Option<String>, organization_id: i64) -> (r: Option<ItemRecord>)
    ensures
        ({
            let d = description matches Some(x) && differs(item.description, x);
            let u = primary_uom_code matches Some(x) && differs(item.primary_uom_code, x);
            let o = item.organization_id != organization_id;
            &&& (d || u || o) <==> r is Some
            &&& r matches Some(n) ==> {
                &&& n.inventory_item_id == item.inventory_item_id
                &&& n.item_number == item.item_number
                &&& n.description == (if d { description } else { item.description })
                &&& n.primary_uom_code == (if u { primary_uom_code } else { item.primary_uom_code })
                &&& n.organization_id == organization_id
            }
        }),
{
    let mut dirty = false;
    let new_description = match description {
        Some(x) => {
            if opt_differs(&item.description, &x) {
                dirty = true;
                Some(x)
            } else {
                clone_opt(&item.description)
            }
        },
        None => clone_opt(&item.description),
    };
    let new_uom = match primary_uom_code {
        Some(x) => {
            if opt_differs(&item.primary_uom_code, &x) {
                dirty = true;
                Some(x)
            } else {
                clone_opt(&item.primary_uom_code)
            }
        },
        None => clone_opt(&item.primary_uom_code),
    };
    if item.organization_id != organization_id {
        dirty = true;
    }
    if dirty {
        Some(ItemRecord {
            inventory_item_id: item.inventory_item_id,
            item_number: item.item_number.clone(),
            description: new_description,
            primary_uom_code: new_uom,
            organization_id,
        })
    } else {
        None
    }
}

fn opt_differs(current: &Option<String>, wanted: &String) -> (b: bool)
    ensures
        b == differs(*current, *wanted),
{
    match current {
        Some(c) => {
            !crate::text::str_eq(c.as_str(), wanted.as_str())
        },
        None => true,
    }
}

} // verus!
