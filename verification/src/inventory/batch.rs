//! Allocation of a whole sales order at once, receipt of purchase order
//! lines, and the identifiers movements are filed under.
use vstd::prelude::*;
use crate::decimal::{add_fits, dec_add, dec_gt, dec_sub, round_half_even, spec_add, spec_sub, sub_fits, DecimalValue};
use crate::inventory::balance::{all_fit, at_text, fits_i32, insufficient_text, line_qty, not_found, records, reports, zero, InventoryAdjustmentResult, InventoryBalance, InventoryError, InventoryRefusal, SalesOrderLine, TransactionRecord, TransactionType};
use crate::num::{int_str, push_i128};
use crate::text::owned;

verus! {

/// Whether a line names both an item and a location.
pub open spec fn keyed(line: SalesOrderLine) -> bool {
    line.inventory_item_id is Some && line.location_id is Some
}

pub open spec fn key_of(line: SalesOrderLine) -> (i64, i32) {
    (line.inventory_item_id.unwrap(), line.location_id.unwrap())
}

/// The keys of the keyed lines, each once, in order of first appearance.
pub open spec fn keys_in_order(lines: Seq<SalesOrderLine>, seen: Seq<(i64, i32)>) -> Seq<(i64, i32)>
    decreases lines.len(),
{
    if lines.len() == 0 {
        Seq::empty()
    } else if keyed(lines[0]) && !seen.contains(key_of(lines[0])) {
        seq![key_of(lines[0])] + keys_in_order(lines.drop_first(), seen.push(key_of(lines[0])))
    } else {
        keys_in_order(lines.drop_first(), seen)
    }
}

fn contains_key(keys: &Vec<(i64, i32)>, k: (i64, i32)) -> (r: bool)
    ensures
        r == keys@.contains(k),
{
    let mut i: usize = 0;
    while i < keys.len()
        invariant
            i <= keys.len(),
            forall|j: int| 0 <= j < i ==> keys@[j] != k,
        decreases keys.len() - i,
    {
        if keys[i].0 == k.0 && keys[i].1 == k.1 {
            assert(keys@[i as int] == k);
            return true;
        }
        i = i + 1;
    }
    false
}

/// The balances a batch allocation needs, each once: refused when no line
/// names both an item and a location.
pub fn unique_keys(lines: &Vec<SalesOrderLine>) -> (r: Result<Vec<(i64, i32)>, InventoryError>)
    ensures
        match r {
            Ok(keys) => keys@ == keys_in_order(lines@, Seq::empty()) && keys@.len() > 0,
            Err(e) => (forall|i: int| 0 <= i < lines.len() ==> !keyed(#[trigger] lines@[i])) && e.kind()
                == InventoryRefusal::Validation && e.msg() == "Order lines missing inventory_item_id or location_id"@,
        },
{
    let mut keys: Vec<(i64, i32)> = Vec::new();
    let n = lines.len();
    let mut i: usize = 0;
    assert(lines@.skip(0) =~= lines@);
    while i < n
        invariant
            i <= n == lines.len(),
            keys@ + keys_in_order(lines@.skip(i as int), keys@) == keys_in_order(lines@, Seq::empty()),
            keys@.len() == 0 ==> forall|k: int| 0 <= k < i ==> !keyed(#[trigger] lines@[k]),
        decreases n - i,
    {
        let ghost rest = lines@.skip(i as int);
        assert(rest.drop_first() =~= lines@.skip(i + 1));
        assert(rest[0] == lines@[i as int]);
        let line = lines[i];
        match (line.inventory_item_id, line.location_id) {
            (Some(item), Some(loc)) => {
                if !contains_key(&keys, (item, loc)) {
                    let ghost before = keys@;
                    keys.push((item, loc));
                    assert(before + (seq![(item, loc)] + keys_in_order(rest.drop_first(), before.push((item, loc))))
                        =~= keys@ + keys_in_order(lines@.skip(i + 1), keys@));
                }
            },
            _ => {},
        }
        i = i + 1;
    }
    assert(keys@ + keys_in_order(lines@.skip(n as int), keys@) =~= keys@);
    if keys.len() == 0 {
        return Err(InventoryError::ValidationError(owned("Order lines missing inventory_item_id or location_id")));
    }
    Ok(keys)
}

/// The first balance held for an item at a location.
pub open spec fn balance_index(bs: Seq<InventoryBalance>, item: i64, loc: i32) -> Option<int>
    decreases bs.len(),
{
    if bs.len() == 0 {
        None
    } else if bs[0].inventory_item_id == item && bs[0].location_id == loc {
        Some(0)
    } else {
        crate::text::shift(balance_index(bs.drop_first(), item, loc), 1)
    }
}

proof fn lemma_balance_index_bounds(bs: Seq<InventoryBalance>, item: i64, loc: i32)
    ensures
        balance_index(bs, item, loc) matches Some(i) ==> 0 <= i < bs.len() && bs[i].inventory_item_id == item
            && bs[i].location_id == loc,
    decreases bs.len(),
{
    if bs.len() > 0 {
        lemma_balance_index_bounds(bs.drop_first(), item, loc);
    }
}

fn find_balance(bs: &Vec<InventoryBalance>, item: i64, loc: i32) -> (r: Option<usize>)
    ensures
        match r {
            Some(i) => balance_index(bs@, item, loc) == Some(i as int),
            None => balance_index(bs@, item, loc) is None,
        },
{
    let n = bs.len();
    let mut i: usize = 0;
    assert(bs@.skip(0) =~= bs@);
    while i < n
        invariant
            i <= n == bs.len(),
            balance_index(bs@, item, loc) == crate::text::shift(balance_index(bs@.skip(i as int), item, loc), i as int),
        decreases n - i,
    {
        let ghost rest = bs@.skip(i as int);
        assert(rest.drop_first() =~= bs@.skip(i + 1));
        assert(rest[0] == bs@[i as int]);
        if bs[i].inventory_item_id == item && bs[i].location_id == loc {
            return Some(i);
        }
        i = i + 1;
    }
    None
}

/// One allocation made by a batch: the line, and the balance just before
/// and just after it.
pub struct Move {
    pub line: SalesOrderLine,
    pub before: InventoryBalance,
    pub after: InventoryBalance,
}

/// The working balances and moves after a line is taken into a batch: lines
/// without item or location, or without a positive quantity, are skipped;
/// others allocate from the balance of their key while it has enough
/// available.
pub open spec fn batch_step(bs: Seq<InventoryBalance>, line: SalesOrderLine) -> Result<(Seq<InventoryBalance>, Option<(int, Move)>), (InventoryRefusal, Seq<char>)> {
    let q = line_qty(line);
    if !keyed(line) || q.value() <= 0 {
        Ok((bs, None))
    } else {
        let (item, loc) = key_of(line);
        match balance_index(bs, item, loc) {
            None => Err((InventoryRefusal::NotFound, "Inventory not found"@ + at_text(item, loc))),
            Some(i) => {
                let b = bs[i];
                if b.quantity_available.value() < q.value() {
                    Err((InventoryRefusal::InvalidOperation, insufficient_text(item, loc, b.quantity_available, q)))
                } else if !all_fit(seq![q, b.quantity_on_hand]) {
                    Err((InventoryRefusal::Validation, "Quantity overflow"@))
                } else {
                    let allocated = spec_add(b.quantity_allocated, q);
                    let after = InventoryBalance {
                        quantity_allocated: allocated,
                        quantity_available: spec_sub(b.quantity_on_hand, allocated),
                        ..b
                    };
                    Ok((bs.update(i, after), Some((i, Move { line, before: b, after }))))
                }
            },
        }
    }
}

/// The batch run over `lines`: final working balances, the moves made in
/// order, and how many moves hit each balance; or the first refusal.
pub open spec fn batch_run(bs: Seq<InventoryBalance>, lines: Seq<SalesOrderLine>) -> Result<(Seq<InventoryBalance>, Seq<Move>, Seq<int>), (InventoryRefusal, Seq<char>)>
    decreases lines.len(),
{
    if lines.len() == 0 {
        Ok((bs, Seq::empty(), Seq::new(bs.len(), |i: int| 0int)))
    } else {
        match batch_run(bs, lines.drop_last()) {
            Err(e) => Err(e),
            Ok((cur, moves, bumps)) => match batch_step(cur, lines.last()) {
                Err(e) => Err(e),
                Ok((next, None)) => Ok((next, moves, bumps)),
                Ok((next, Some((i, m)))) => Ok((next, moves.push(m), bumps.update(i, bumps[i] + 1))),
            },
        }
    }
}

/// The arithmetic of every allocation the batch makes fits a `Decimal`,
/// and no version passes `i32::MAX`; lines that are refused ask for nothing.
pub open spec fn batch_fits(bs: Seq<InventoryBalance>, lines: Seq<SalesOrderLine>) -> bool
    decreases lines.len(),
{
    if lines.len() == 0 {
        forall|i: int| 0 <= i < bs.len() ==> (#[trigger] bs[i]).wf()
    } else {
        &&& batch_fits(bs, lines.drop_last())
        &&& line_qty(lines.last()).wf()
        &&& match batch_run(bs, lines.drop_last()) {
            Ok((cur, moves, bumps)) => {
                let line = lines.last();
                let q = line_qty(line);
                match balance_index(cur, line.inventory_item_id.unwrap(), line.location_id.unwrap()) {
                    Some(i) => keyed(line) && q.value() > 0 && cur[i].quantity_available.value() >= q.value() ==> add_fits(
                        cur[i].quantity_allocated,
                        q,
                    ) && sub_fits(cur[i].quantity_on_hand, spec_add(cur[i].quantity_allocated, q)) && (all_fit(
                        seq![q, cur[i].quantity_on_hand],
                    ) ==> bumps[i] + 1 + bs[i].version <= i32::MAX && bumps[i] + 1 <= i32::MAX),
                    None => true,
                }
            },
            Err(_) => true,
        }
    }
}

/// What a batch allocation produced: every balance (with versions bumped by
/// the number of allocations it took), which of them changed, and the
/// records and reports of the allocations in order of the lines.
pub struct BatchOutcome {
    pub balances: Vec<InventoryBalance>,
    pub modified: Vec<bool>,
    pub transactions: Vec<TransactionRecord>,
    pub results: Vec<InventoryAdjustmentResult>,
}

/// The record and report of one move of a batch.
pub open spec fn move_recorded(t: TransactionRecord, r: InventoryAdjustmentResult, m: Move) -> bool {
    let q = line_qty(m.line);
    &&& records(t, m.after.inventory_item_id, m.after.location_id, TransactionType::Allocate, q,
        round_half_even(m.before.quantity_on_hand), round_half_even(m.before.quantity_on_hand), m.line.header_id,
        "SALES_ORDER"@, "Order allocation"@, "Allocated for order line "@ + int_str(m.line.line_id as int))
    &&& reports(r, TransactionType::Allocate, q, m.after)
}

fn allocation_notes(line_id: i64) -> (s: String)
    ensures
        s@ == "Allocated for order line "@ + int_str(line_id as int),
{
    let mut s = owned("Allocated for order line ");
    push_i128(&mut s, line_id as i128);
    s
}

/// Allocates every keyed line with a positive quantity from the balance of
/// its key, in order, each line seeing what earlier lines left available.
/// `balances` holds the balances found for the lines' keys.
pub fn allocate_inventory_batch(lines: &Vec<SalesOrderLine>, balances: &Vec<InventoryBalance>) -> (r: Result<BatchOutcome, InventoryError>)
    requires
        batch_fits(balances@, lines@),
    ensures
        match r {
            Err(e) => batch_run(balances@, lines@) == Result::<(Seq<InventoryBalance>, Seq<Move>, Seq<int>), (InventoryRefusal, Seq<char>)>::Err((e.kind(), e.msg())),
            Ok(o) => match batch_run(balances@, lines@) {
                Ok((fin, moves, bumps)) => {
                    &&& o.balances.len() == balances.len() && o.modified.len() == balances.len()
                    &&& forall|i: int| 0 <= i < balances.len() ==> (#[trigger] o.balances@[i]) == (InventoryBalance {
                        version: (balances@[i].version + bumps[i]) as i32,
                        ..fin[i]
                    }) && o.modified@[i] == (bumps[i] > 0)
                    &&& o.transactions.len() == moves.len() && o.results.len() == moves.len()
                    &&& forall|k: int| 0 <= k < moves.len() ==> move_recorded(#[trigger] o.transactions@[k], o.results@[k], moves[k])
                },
                Err(_) => false,
            },
        },
    decreases lines.len(),
{
    let mut work: Vec<InventoryBalance> = Vec::new();
    let mut bumps: Vec<i32> = Vec::new();
    let mut j: usize = 0;
    while j < balances.len()
        invariant
            j <= balances.len(),
            bumps.len() == j,
            work@ == balances@.take(j as int),
            forall|k: int| 0 <= k < j ==> bumps@[k] == 0,
        decreases balances.len() - j,
    {
        work.push(balances[j]);
        bumps.push(0);
        j = j + 1;
        assert(work@ =~= balances@.take(j as int));
    }
    assert(balances@.take(j as int) =~= balances@);
    let mut transactions: Vec<TransactionRecord> = Vec::new();
    let mut results: Vec<InventoryAdjustmentResult> = Vec::new();
    proof {
        lemma_run_shape(balances@, lines@);
        assert(lines@.take(0) =~= Seq::<SalesOrderLine>::empty());
        assert(bumps@ =~= Seq::new(balances@.len(), |x: int| 0int).map_values(|v: int| v as i32));
    }
    let mut i: usize = 0;
    while i < lines.len()
        invariant
            i <= lines.len(),
            batch_fits(balances@, lines@),
            work.len() == balances.len() && bumps.len() == balances.len(),
            forall|k: int| 0 <= k < work.len() ==> (#[trigger] work@[k]).wf(),
            batch_run(balances@, lines@.take(i as int)) matches Ok((cur, moves, bs)) && work@ == cur && bumps@.len()
                == bs.len() && (forall|k: int| 0 <= k < bs.len() ==> bumps@[k] == bs[k]) && transactions.len()
                == moves.len() && results.len() == moves.len() && (forall|k: int|
                0 <= k < moves.len() ==> move_recorded(#[trigger] transactions@[k], results@[k], moves[k])),
        decreases lines.len() - i,
    {
        proof {
            lemma_batch_fits_prefix(balances@, lines@, (i + 1) as int);
            lemma_run_shape(balances@, lines@.take(i + 1));
            assert(lines@.take(i + 1).drop_last() =~= lines@.take(i as int));
            assert(lines@.take(i + 1).last() == lines@[i as int]);
        }
        let line = lines[i];
        let q = match line.ordered_quantity {
            Some(q) => q,
            None => DecimalValue::zero(),
        };
        assert(q == line_qty(line));
        match (line.inventory_item_id, line.location_id) {
            (Some(item), Some(loc)) => {
                if q.is_positive() {
                    let idx = match find_balance(&work, item, loc) {
                        Some(x) => x,
                        None => {
                            proof {
                                lemma_refusal_persists(balances@, lines@, (i + 1) as int);
                            }
                            return Err(not_found(item, loc));
                        },
                    };
                    proof {
                        lemma_balance_index_bounds(work@, item, loc);
                    }
                    let b = work[idx];
                    if dec_gt(&q, &b.quantity_available) {
                        proof {
                            lemma_refusal_persists(balances@, lines@, (i + 1) as int);
                        }
                        return Err(InventoryError::InvalidOperation(crate::inventory::balance::insufficient_message(
                            item, loc, &b.quantity_available, &q)));
                    }
                    let qty = match crate::inventory::balance::decimal_to_i32(&q) {
                        Ok(n) => n,
                        Err(e) => {
                            assert(!fits_i32(round_half_even(seq![q, b.quantity_on_hand][0])));
                            proof {
                                lemma_refusal_persists(balances@, lines@, (i + 1) as int);
                            }
                            return Err(e);
                        },
                    };
                    let prev = match crate::inventory::balance::decimal_to_i32(&b.quantity_on_hand) {
                        Ok(n) => n,
                        Err(e) => {
                            assert(!fits_i32(round_half_even(seq![q, b.quantity_on_hand][1])));
                            proof {
                                lemma_refusal_persists(balances@, lines@, (i + 1) as int);
                            }
                            return Err(e);
                        },
                    };
                    assert(all_fit(seq![q, b.quantity_on_hand]));
                    let allocated = dec_add(&b.quantity_allocated, &q);
                    let available = dec_sub(&b.quantity_on_hand, &allocated);
                    let after = InventoryBalance { quantity_allocated: allocated, quantity_available: available, ..b };
                    work.set(idx, after);
                    let bump = bumps[idx] + 1;
                    bumps.set(idx, bump);
                    transactions.push(TransactionRecord {
                        item_id: after.inventory_item_id,
                        location_id: after.location_id,
                        kind: TransactionType::Allocate,
                        quantity: qty,
                        previous_quantity: prev,
                        new_quantity: prev,
                        reference_id: line.header_id,
                        reference_type: owned("SALES_ORDER"),
                        reason: owned("Order allocation"),
                        notes: allocation_notes(line.line_id),
                    });
                    results.push(InventoryAdjustmentResult {
                        item_id: after.inventory_item_id,
                        location_id: after.location_id,
                        adjustment_type: TransactionType::Allocate,
                        quantity_adjusted: q,
                        new_on_hand: after.quantity_on_hand,
                        new_available: after.quantity_available,
                        new_allocated: after.quantity_allocated,
                    });
                }
            },
            _ => {},
        }
        i = i + 1;
    }
    assert(lines@.take(i as int) =~= lines@);
    let mut out: Vec<InventoryBalance> = Vec::new();
    let mut modified: Vec<bool> = Vec::new();
    let mut k: usize = 0;
    while k < work.len()
        invariant
            k <= work.len() == balances.len() == bumps.len(),
            out.len() == k && modified.len() == k,
            batch_fits(balances@, lines@),
            batch_run(balances@, lines@) matches Ok((fin, moves, bs)) && work@ == fin && forall|x: int|
                0 <= x < bs.len() ==> bumps@[x] == bs[x],
            forall|x: int| 0 <= x < k ==> (#[trigger] out@[x]) == (InventoryBalance {
                version: (balances@[x].version + bumps@[x]) as i32,
                ..work@[x]
            }) && modified@[x] == (bumps@[x] > 0),
        decreases work.len() - k,
    {
        proof {
            lemma_run_shape(balances@, lines@);
            match batch_run(balances@, lines@) {
                Ok((f, m, b)) => {
                    assert(b[k as int] == bumps@[k as int]);
                    assert(0 <= b[k as int] && balances@[k as int].version + b[k as int] <= i32::MAX);
                },
                Err(_) => {},
            }
        }
        let ghost prev_out = out@;
        let ghost prev_mod = modified@;
        let v = balances[k].version + bumps[k];
        assert(v == (balances@[k as int].version + bumps@[k as int]) as i32);
        out.push(InventoryBalance { version: v, ..work[k] });
        modified.push(bumps[k] > 0);
        proof {
            assert forall|x: int| 0 <= x < k + 1 implies (#[trigger] out@[x]) == (InventoryBalance {
                version: (balances@[x].version + bumps@[x]) as i32,
                ..work@[x]
            }) && modified@[x] == (bumps@[x] > 0) by {
                if x < k {
                    assert(out@[x] == prev_out[x]);
                    assert(modified@[x] == prev_mod[x]);
                }
            }
        }
        k = k + 1;
    }
    Ok(BatchOutcome { balances: out, modified, transactions, results })
}

/// A batch that fits, fits on every prefix of its lines.
proof fn lemma_batch_fits_prefix(bs: Seq<InventoryBalance>, lines: Seq<SalesOrderLine>, n: int)
    requires
        batch_fits(bs, lines),
        0 <= n <= lines.len(),
    ensures
        batch_fits(bs, lines.take(n)),
    decreases lines.len(),
{
    if n < lines.len() {
        assert(lines.drop_last().take(n) =~= lines.take(n));
        lemma_batch_fits_prefix(bs, lines.drop_last(), n);
    } else {
        assert(lines.take(n) =~= lines);
    }
}

/// What a fitting run keeps: one bump count per balance, within what a
/// version can take, and well-formed balances throughout.
proof fn lemma_run_shape(bs: Seq<InventoryBalance>, lines: Seq<SalesOrderLine>)
    requires
        batch_fits(bs, lines),
    ensures
        forall|i: int| 0 <= i < bs.len() ==> (#[trigger] bs[i]).wf(),
        batch_run(bs, lines) matches Ok((fin, moves, bumps)) ==> {
            &&& bumps.len() == bs.len()
            &&& fin.len() == bs.len()
            &&& forall|i: int| 0 <= i < bs.len() ==> 0 <= #[trigger] bumps[i] && bs[i].version + bumps[i] <= i32::MAX
                && bumps[i] <= i32::MAX
            &&& forall|i: int| 0 <= i < bs.len() ==> (#[trigger] fin[i]).wf()
        },
    decreases lines.len(),
{
    if lines.len() > 0 {
        lemma_run_shape(bs, lines.drop_last());
        match batch_run(bs, lines.drop_last()) {
            Ok((cur, moves, bumps)) => {
                let line = lines.last();
                let q = line_qty(line);
                if keyed(line) && q.value() > 0 {
                    let (item, loc) = key_of(line);
                    lemma_balance_index_bounds(cur, item, loc);
                    match balance_index(cur, item, loc) {
                        Some(i) => {
                            let b = cur[i];
                            if b.quantity_available.value() >= q.value() && all_fit(seq![q, b.quantity_on_hand]) {
                                crate::decimal::lemma_spec_add_wf(b.quantity_allocated, q);
                                crate::decimal::lemma_spec_sub_wf(b.quantity_on_hand, spec_add(b.quantity_allocated, q));
                            }
                        },
                        None => {},
                    }
                }
            },
            Err(_) => {},
        }
    }
}

/// Once a run is refused, longer runs are refused the same way.
proof fn lemma_refusal_persists(bs: Seq<InventoryBalance>, lines: Seq<SalesOrderLine>, n: int)
    requires
        0 <= n <= lines.len(),
        batch_run(bs, lines.take(n)) is Err,
    ensures
        batch_run(bs, lines) == batch_run(bs, lines.take(n)),
    decreases lines.len(),
{
    if n < lines.len() {
        assert(lines.drop_last().take(n) =~= lines.take(n));
        lemma_refusal_persists(bs, lines.drop_last(), n);
    } else {
        assert(lines.take(n) =~= lines);
    }
}

} // verus!
