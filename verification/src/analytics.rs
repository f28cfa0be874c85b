//! Dashboard figures computed from fetched records: revenue totals and
//! averages, stock valuation, cart values and revenue per day.
use vstd::prelude::*;
use crate::decimal::{
    abs, dec_div_count, decimal_plus, decimal_times, lemma_magnitude_prefix, lemma_p10_positive, magnitude_total,
    max_value, p10, plus, product, quotient, running_total, sum_amounts, sum_fits, zero, DecimalValue,
};

verus! {

/// `total` divided by `count`, or zero when there is nothing to divide by.
pub open spec fn average_of(total: DecimalValue, count: u64) -> DecimalValue {
    if count > 0 {
        quotient(total, count as int)
    } else {
        zero()
    }
}

pub fn average(total: &DecimalValue, count: u64) -> (a: DecimalValue)
    requires
        total.wf(),
    ensures
        a == average_of(*total, count),
        a.wf(),
{
    if count > 0 {
        dec_div_count(total, count)
    } else {
        DecimalValue::zero()
    }
}

#[derive(Debug, Clone, Copy, PartialEq, Eq, Structural)]
pub struct SalesMetrics {
    pub total_orders: i64,
    pub total_revenue: DecimalValue,
    pub average_order_value: DecimalValue,
    pub orders_today: i64,
    pub revenue_today: DecimalValue,
    pub orders_this_week: i64,
    pub revenue_this_week: DecimalValue,
    pub orders_this_month: i64,
    pub revenue_this_month: DecimalValue,
}

/// The order count and the order amounts of one period.
#[derive(Debug, Clone)]
pub struct PeriodOrders {
    pub count: u64,
    pub amounts: Vec<DecimalValue>,
}

/// Sales figures from the orders of all time, of today, of the last week
/// and of the last month: each count as counted, each revenue the sum of
/// the period's amounts, and the average order value the total revenue
/// over the total count (zero without orders).
pub fn sales_metrics(all: &PeriodOrders, today: &PeriodOrders, week: &PeriodOrders, month: &PeriodOrders) -> (m: SalesMetrics)
    requires
        sum_fits(all.amounts@),
        sum_fits(today.amounts@),
        sum_fits(week.amounts@),
        sum_fits(month.amounts@),
    ensures
        m.total_orders == all.count as i64,
        m.total_revenue == running_total(all.amounts@),
        m.average_order_value == average_of(running_total(all.amounts@), all.count),
        m.orders_today == today.count as i64,
        m.revenue_today == running_total(today.amounts@),
        m.orders_this_week == week.count as i64,
        m.revenue_this_week == running_total(week.amounts@),
        m.orders_this_month == month.count as i64,
        m.revenue_this_month == running_total(month.amounts@),
{
    let total_revenue = sum_amounts(&all.amounts);
    let average_order_value = average(&total_revenue, all.count);
    SalesMetrics {
        total_orders: all.count as i64,
        total_revenue,
        average_order_value,
        orders_today: today.count as i64,
        revenue_today: sum_amounts(&today.amounts),
        orders_this_week: week.count as i64,
        revenue_this_week: sum_amounts(&week.amounts),
        orders_this_month: month.count as i64,
        revenue_this_month: sum_amounts(&month.amounts),
    }
}

#[derive(Debug, Clone, Copy, PartialEq, Eq, Structural)]
pub struct CartMetrics {
    pub total_carts: i64,
    pub active_carts: i64,
    pub abandoned_carts: i64,
    pub converted_carts: i64,
    pub average_cart_value: DecimalValue,
}

/// Cart figures: the counts as counted, and the mean cart total (zero
/// without carts).
pub fn cart_metrics(total_carts: u64, active_carts: u64, abandoned_carts: u64, converted_carts: u64, cart_totals: &Vec<DecimalValue>) -> (m: CartMetrics)
    requires
        sum_fits(cart_totals@),
    ensures
        m.total_carts == total_carts as i64,
        m.active_carts == active_carts as i64,
        m.abandoned_carts == abandoned_carts as i64,
        m.converted_carts == converted_carts as i64,
        m.average_cart_value == average_of(running_total(cart_totals@), cart_totals.len() as u64),
{
    let sum = sum_amounts(cart_totals);
    let average_cart_value = if cart_totals.len() == 0 {
        DecimalValue::zero()
    } else {
        average(&sum, cart_totals.len() as u64)
    };
    CartMetrics {
        total_carts: total_carts as i64,
        active_carts: active_carts as i64,
        abandoned_carts: abandoned_carts as i64,
        converted_carts: converted_carts as i64,
        average_cart_value,
    }
}

/// A stocked item as it is valued: its unit cost, if known, and the
/// quantity available.
#[derive(Debug, Clone, Copy)]
pub struct StockValuation {
    pub unit_cost: Option<DecimalValue>,
    pub available: i32,
}

pub open spec fn cost_of(v: StockValuation) -> DecimalValue {
    match v.unit_cost {
        Some(c) => c,
        None => zero(),
    }
}

/// The value of one item: unit cost (zero if unknown) times the quantity
/// available, as `Decimal` multiplies.
pub open spec fn item_value(v: StockValuation) -> DecimalValue {
    product(cost_of(v), DecimalValue { mantissa: v.available as i128, scale: 0 })
}

/// The items' values added up from zero, as `Decimal` adds.
pub open spec fn valuation_total(s: Seq<StockValuation>) -> DecimalValue
    decreases s.len(),
{
    if s.len() == 0 {
        zero()
    } else {
        plus(valuation_total(s.drop_last()), item_value(s.last()))
    }
}

/// `Σ |cost| · |available|`, in units of `10^-28`.
pub open spec fn weighted_total(s: Seq<StockValuation>) -> int
    decreases s.len(),
{
    if s.len() == 0 {
        0
    } else {
        weighted_total(s.drop_last()) + abs(cost_of(s.last()).value()) * abs(s.last().available as int)
    }
}

/// Every cost is a `Decimal`, and the values are small enough that no
/// product or partial sum passes the largest `Decimal`.
pub open spec fn valuation_fits(s: Seq<StockValuation>) -> bool {
    &&& forall|i: int| 0 <= i < s.len() ==> (#[trigger] cost_of(s[i])).wf()
    &&& weighted_total(s) + 2 * s.len() * p10(28) <= max_value()
}

proof fn lemma_weighted_prefix(s: Seq<StockValuation>, i: int)
    requires
        0 <= i <= s.len(),
    ensures
        0 <= weighted_total(s.take(i)) <= weighted_total(s),
        i < s.len() ==> weighted_total(s.take(i + 1)) == weighted_total(s.take(i)) + abs(cost_of(s[i]).value()) * abs(s[i].available as int),
    decreases s.len(),
{
    if s.len() > 0 {
        let x = abs(cost_of(s.last()).value());
        let y = abs(s.last().available as int);
        assert(x * y >= 0) by (nonlinear_arith) requires x >= 0, y >= 0;
        lemma_weighted_prefix(s.drop_last(), if i < s.len() { i } else { i - 1 });
    }
    if i < s.len() {
        assert(s.take(i + 1).drop_last() =~= s.take(i));
        assert(s.drop_last().take(i) =~= s.take(i));
    } else {
        assert(s.take(i) =~= s);
        if s.len() > 0 {
            assert(s.drop_last().take(i - 1) =~= s.drop_last());
        }
    }
}

/// What the stock on hand is worth: each item's unit cost times its
/// available quantity, added up from zero with `Decimal`'s `+`.
pub fn inventory_value(items: &Vec<StockValuation>) -> (t: DecimalValue)
    requires
        valuation_fits(items@),
    ensures
        t == valuation_total(items@),
        t.wf(),
{
    let mut acc = DecimalValue::zero();
    let mut i: usize = 0;
    proof {
        lemma_p10_positive(28);
        assert(items@.take(0) =~= Seq::<StockValuation>::empty());
    }
    while i < items.len()
        invariant
            i <= items.len(),
            valuation_fits(items@),
            p10(28) >= 1,
            acc.wf(),
            acc == valuation_total(items@.take(i as int)),
            abs(acc.value()) <= weighted_total(items@.take(i as int)) + 2 * i * p10(28),
        decreases items.len() - i,
    {
        let item = items[i];
        let ghost p = p10(28);
        proof {
            lemma_weighted_prefix(items@, i as int);
            lemma_weighted_prefix(items@, i as int + 1);
            assert(items@.take(i as int + 1).drop_last() =~= items@.take(i as int));
            assert(items@.take(i as int + 1).last() == items@[i as int]);
            assert(cost_of(items@[i as int]).wf());
            assert(2 * i * p + 2 * p <= 2 * items.len() * p) by (nonlinear_arith)
                requires i + 1 <= items.len(), p >= 1;
            assert(2 * (i + 1) * p == 2 * i * p + 2 * p) by (nonlinear_arith);
        }
        let cost = match item.unit_cost {
            Some(c) => c,
            None => DecimalValue::zero(),
        };
        let qty = DecimalValue { mantissa: item.available as i128, scale: 0 };
        let ghost w = abs(cost.value()) * abs(item.available as int);
        proof {
            assert(qty.value() == (item.available as int) * p);
            assert(abs(cost.value() * qty.value()) == w * p) by (nonlinear_arith)
                requires qty.value() == (item.available as int) * p, p >= 1, w == abs(cost.value()) * abs(item.available as int);
            assert(w <= max_value());
            crate::decimal::lemma_p10_adds(28, 28);
            assert(w * p <= max_value() * p) by (nonlinear_arith) requires w <= max_value(), p >= 1;
            let x = cost.value() * qty.value();
            assert(-(max_value() * p) <= x <= max_value() * p);
            assert(-max_value() * p == -(max_value() * p)) by (nonlinear_arith);
        }
        let value = decimal_times(&cost, &qty);
        proof {
            let c = value.value();
            assert(p10(56) == p * p);
            assert(abs(c * p - cost.value() * qty.value()) <= p * p);
            assert(abs(c) <= w + p) by (nonlinear_arith)
                requires abs(c * p - cost.value() * qty.value()) <= p * p, abs(cost.value() * qty.value()) == w * p, p >= 1;
        }
        let ghost before = acc.value();
        let ghost bound = weighted_total(items@.take(i as int + 1)) + 2 * i * p + p;
        assert(abs(before + value.value()) <= bound);
        assert(bound <= max_value());
        acc = decimal_plus(&acc, &value);
        i = i + 1;
    }
    assert(items@.take(items.len() as int) =~= items@);
    acc
}

pub open spec fn int_total(s: Seq<int>) -> int
    decreases s.len(),
{
    if s.len() == 0 {
        0
    } else {
        int_total(s.drop_last()) + s.last()
    }
}

pub open spec fn widen32(s: Seq<i32>) -> Seq<int> {
    s.map_values(|x: i32| x as int)
}

pub open spec fn widen64(s: Seq<i64>) -> Seq<int> {
    s.map_values(|x: i64| x as int)
}

/// The units available over all items (the numerator of the average
/// stock level). Every partial sum fits an `i32`, as an `i32` sum needs.
pub fn total_stock(available: &Vec<i32>) -> (t: i32)
    requires
        forall|i: int| 0 <= i <= available.len() ==> i32::MIN <= #[trigger] int_total(widen32(available@.take(i))) <= i32::MAX,
    ensures
        t == int_total(widen32(available@)),
{
    let mut t: i32 = 0;
    let mut i: usize = 0;
    while i < available.len()
        invariant
            i <= available.len(),
            forall|k: int| 0 <= k <= available.len() ==> i32::MIN <= #[trigger] int_total(widen32(available@.take(k))) <= i32::MAX,
            t == int_total(widen32(available@.take(i as int))),
        decreases available.len() - i,
    {
        assert(widen32(available@.take(i as int + 1)).drop_last() =~= widen32(available@.take(i as int)));
        assert(int_total(widen32(available@.take(i as int + 1))) == t + available@[i as int]);
        t = t + available[i];
        i = i + 1;
    }
    assert(available@.take(available.len() as int) =~= available@);
    t
}

/// The hours over all delivered shipments (the numerator of the average
/// delivery time). Every partial sum fits an `i64`.
pub fn total_hours(hours: &Vec<i64>) -> (t: i64)
    requires
        forall|i: int| 0 <= i <= hours.len() ==> i64::MIN <= #[trigger] int_total(widen64(hours@.take(i))) <= i64::MAX,
    ensures
        t == int_total(widen64(hours@)),
{
    let mut t: i64 = 0;
    let mut i: usize = 0;
    while i < hours.len()
        invariant
            i <= hours.len(),
            forall|k: int| 0 <= k <= hours.len() ==> i64::MIN <= #[trigger] int_total(widen64(hours@.take(k))) <= i64::MAX,
            t == int_total(widen64(hours@.take(i as int))),
        decreases hours.len() - i,
    {
        assert(widen64(hours@.take(i as int + 1)).drop_last() =~= widen64(hours@.take(i as int)));
        assert(int_total(widen64(hours@.take(i as int + 1))) == t + hours@[i as int]);
        t = t + hours[i];
        i = i + 1;
    }
    assert(hours@.take(hours.len() as int) =~= hours@);
    t
}

/// Revenue of one day; the day is counted from the Unix epoch, so days
/// order as their `YYYY-MM-DD` dates do.
#[derive(Debug, Clone, Copy, PartialEq, Eq, Structural)]
pub struct DailyRevenue {
    pub day: i64,
    pub revenue: DecimalValue,
}

/// The days strictly increase.
pub open spec fn days_increasing(g: Seq<(i64, DecimalValue)>) -> bool {
    forall|a: int, b: int| 0 <= a < b < g.len() ==> (#[trigger] g[a]).0 < (#[trigger] g[b]).0
}

/// `amount` booked on `day` in per-day totals kept in day order: added to
/// the day's total if the day is there (as `Decimal` adds), else a new
/// entry of zero plus `amount` in its place.
pub open spec fn book(g: Seq<(i64, DecimalValue)>, day: i64, amount: DecimalValue) -> Seq<(i64, DecimalValue)>
    decreases g.len(),
{
    if g.len() == 0 {
        seq![(day, plus(zero(), amount))]
    } else if g[0].0 == day {
        seq![(day, plus(g[0].1, amount))] + g.skip(1)
    } else if day < g[0].0 {
        seq![(day, plus(zero(), amount))] + g
    } else {
        seq![g[0]] + book(g.skip(1), day, amount)
    }
}

/// The orders' amounts totalled per day, days in increasing order, each
/// day's amounts added in the order the orders come.
pub open spec fn daily_totals(orders: Seq<(i64, DecimalValue)>) -> Seq<(i64, DecimalValue)>
    decreases orders.len(),
{
    if orders.len() == 0 {
        Seq::empty()
    } else {
        book(daily_totals(orders.drop_last()), orders.last().0, orders.last().1)
    }
}

pub open spec fn amounts_of(orders: Seq<(i64, DecimalValue)>) -> Seq<DecimalValue> {
    orders.map_values(|o: (i64, DecimalValue)| o.1)
}

/// `Σ |total|` over the days.
pub open spec fn totals_magnitude(g: Seq<(i64, DecimalValue)>) -> int
    decreases g.len(),
{
    if g.len() == 0 {
        0
    } else {
        abs(g[0].1.value()) + totals_magnitude(g.skip(1))
    }
}

proof fn lemma_book_at(g: Seq<(i64, DecimalValue)>, day: i64, amount: DecimalValue, j: int)
    requires
        days_increasing(g),
        0 <= j <= g.len(),
        forall|k: int| 0 <= k < j ==> (#[trigger] g[k]).0 < day,
        j < g.len() ==> g[j].0 >= day,
    ensures
        book(g, day, amount) == (if j < g.len() && g[j].0 == day {
            g.update(j, (day, plus(g[j].1, amount)))
        } else {
            g.insert(j, (day, plus(zero(), amount)))
        }),
    decreases j,
{
    if j == 0 {
        if g.len() > 0 && g[0].0 == day {
            assert(seq![(day, plus(g[0].1, amount))] + g.skip(1) =~= g.update(0, (day, plus(g[0].1, amount))));
        } else {
            assert(seq![(day, plus(zero(), amount))] + g =~= g.insert(0, (day, plus(zero(), amount))));
        }
    } else {
        let t = g.skip(1);
        assert forall|k: int| 0 <= k < j - 1 implies (#[trigger] t[k]).0 < day by {
            assert(t[k] == g[k + 1]);
        }
        assert(days_increasing(t)) by {
            assert forall|a: int, b: int| 0 <= a < b < t.len() implies (#[trigger] t[a]).0 < (#[trigger] t[b]).0 by {
                assert(t[a] == g[a + 1] && t[b] == g[b + 1]);
            }
        }
        assert(g[0].0 < day);
        lemma_book_at(t, day, amount, j - 1);
        if j < g.len() && g[j].0 == day {
            assert(t[j - 1] == g[j]);
            assert(seq![g[0]] + t.update(j - 1, (day, plus(g[j].1, amount))) =~= g.update(j, (day, plus(g[j].1, amount))));
        } else {
            assert(j - 1 < t.len() ==> t[j - 1] == g[j]);
            assert(seq![g[0]] + t.insert(j - 1, (day, plus(zero(), amount))) =~= g.insert(j, (day, plus(zero(), amount))));
        }
    }
}

proof fn lemma_totals_magnitude(g: Seq<(i64, DecimalValue)>, j: int, x: (i64, DecimalValue))
    requires
        0 <= j <= g.len(),
    ensures
        totals_magnitude(g) >= 0,
        j < g.len() ==> abs(g[j].1.value()) <= totals_magnitude(g),
        j < g.len() ==> totals_magnitude(g.update(j, x)) == totals_magnitude(g) - abs(g[j].1.value()) + abs(x.1.value()),
        totals_magnitude(g.insert(j, x)) == totals_magnitude(g) + abs(x.1.value()),
    decreases g.len(),
{
    let h = g.insert(j, x);
    assert(h.len() > 0);
    if g.len() > 0 {
        if j == 0 {
            lemma_totals_magnitude(g.skip(1), 0, x);
            assert(g.update(0, x).skip(1) =~= g.skip(1));
            assert(h.skip(1) =~= g);
            assert(h[0] == x);
        } else {
            lemma_totals_magnitude(g.skip(1), j - 1, x);
            assert(j < g.len() ==> g.skip(1)[j - 1] == g[j]);
            if j < g.len() {
                assert(g.update(j, x).skip(1) =~= g.skip(1).update(j - 1, x));
            }
            assert(h.skip(1) =~= g.skip(1).insert(j - 1, x));
            assert(h[0] == g[0]);
        }
    } else {
        assert(h.skip(1) =~= Seq::<(i64, DecimalValue)>::empty());
        assert(h[0] == x);
        assert(totals_magnitude(h.skip(1)) == 0);
    }
    assert(totals_magnitude(h) == abs(h[0].1.value()) + totals_magnitude(h.skip(1)));
}

/// Some day's total is for `d`.
pub open spec fn totals_has_day(g: Seq<(i64, DecimalValue)>, d: i64) -> bool {
    exists|k: int| 0 <= k < g.len() && g[k].0 == d
}

/// Some entry reports revenue for `d`.
pub open spec fn reports_day(r: Seq<DailyRevenue>, d: i64) -> bool {
    exists|k: int| 0 <= k < r.len() && r[k].day == d
}

/// Some order was placed on `d`.
pub open spec fn orders_on(orders: Seq<(i64, DecimalValue)>, d: i64) -> bool {
    exists|m: int| 0 <= m < orders.len() && orders[m].0 == d
}

proof fn lemma_book_days(g: Seq<(i64, DecimalValue)>, day: i64, amount: DecimalValue)
    ensures
        forall|d: i64| #[trigger] totals_has_day(book(g, day, amount), d) <==> (d == day || totals_has_day(g, d)),
    decreases g.len(),
{
    let h = book(g, day, amount);
    if g.len() == 0 {
        assert forall|d: i64| #[trigger] totals_has_day(h, d) <==> (d == day || totals_has_day(g, d)) by {
            if d == day {
                assert(h[0].0 == day);
            }
        }
    } else if g[0].0 == day || day < g[0].0 {
        let t = if g[0].0 == day { g.skip(1) } else { g };
        assert(h.skip(1) =~= t);
        assert forall|d: i64| #[trigger] totals_has_day(h, d) <==> (d == day || totals_has_day(g, d)) by {
            if totals_has_day(h, d) && d != day {
                let k = choose|k: int| 0 <= k < h.len() && h[k].0 == d;
                assert(k > 0);
                assert(h[k] == t[k - 1]);
                if g[0].0 == day {
                    assert(g[k].0 == d);
                } else {
                    assert(g[k - 1].0 == d);
                }
            }
            if d == day {
                assert(h[0].0 == day);
            } else if totals_has_day(g, d) {
                let k = choose|k: int| 0 <= k < g.len() && g[k].0 == d;
                if g[0].0 == day {
                    assert(k > 0);
                    assert(h[k] == g[k]);
                } else {
                    assert(h[k + 1] == g[k]);
                }
            }
        }
    } else {
        let t = book(g.skip(1), day, amount);
        lemma_book_days(g.skip(1), day, amount);
        assert(h[0] == g[0]);
        assert(h.skip(1) =~= t);
        assert forall|d: i64| #[trigger] totals_has_day(h, d) <==> (d == day || totals_has_day(g, d)) by {
            if totals_has_day(h, d) && d != day && d != g[0].0 {
                let k = choose|k: int| 0 <= k < h.len() && h[k].0 == d;
                assert(k > 0);
                assert(t[k - 1].0 == d);
                assert(totals_has_day(t, d));
                assert(totals_has_day(g.skip(1), d));
                let m = choose|m: int| 0 <= m < g.skip(1).len() && g.skip(1)[m].0 == d;
                assert(g[m + 1].0 == d);
            }
            if d == g[0].0 {
                assert(h[0].0 == d);
                assert(g[0].0 == d);
            } else if d == day {
                assert(totals_has_day(t, d));
                let k = choose|k: int| 0 <= k < t.len() && t[k].0 == d;
                assert(h[k + 1].0 == d);
            } else if totals_has_day(g, d) {
                let k = choose|k: int| 0 <= k < g.len() && g[k].0 == d;
                assert(k > 0);
                assert(g.skip(1)[k - 1].0 == d);
                assert(totals_has_day(g.skip(1), d));
                assert(totals_has_day(t, d));
                let m = choose|m: int| 0 <= m < t.len() && t[m].0 == d;
                assert(h[m + 1].0 == d);
            }
        }
    }
}

proof fn lemma_daily_days(orders: Seq<(i64, DecimalValue)>)
    ensures
        forall|d: i64| #[trigger] totals_has_day(daily_totals(orders), d) <==> orders_on(orders, d),
    decreases orders.len(),
{
    if orders.len() > 0 {
        let rest = orders.drop_last();
        lemma_daily_days(rest);
        lemma_book_days(daily_totals(rest), orders.last().0, orders.last().1);
        assert forall|d: i64| #[trigger] totals_has_day(daily_totals(orders), d) <==> orders_on(orders, d) by {
            if orders_on(rest, d) {
                let m = choose|m: int| 0 <= m < rest.len() && rest[m].0 == d;
                assert(orders[m].0 == d);
            }
            if orders_on(orders, d) && d != orders.last().0 {
                let m = choose|m: int| 0 <= m < orders.len() && orders[m].0 == d;
                assert(m < orders.len() - 1);
                assert(rest[m].0 == d);
            }
            if d == orders.last().0 {
                assert(orders[orders.len() - 1].0 == d);
            }
        }
    } else {
        assert forall|d: i64| #[trigger] totals_has_day(daily_totals(orders), d) <==> orders_on(orders, d) by {}
    }
}

/// `amount` booked on `day` into per-day totals, in place.
fn book_day(g: &mut Vec<(i64, DecimalValue)>, day: i64, amount: DecimalValue)
    requires
        days_increasing(old(g)@),
        forall|k: int| 0 <= k < old(g).len() ==> (#[trigger] old(g)@[k]).1.wf(),
        amount.wf(),
        totals_magnitude(old(g)@) + abs(amount.value()) <= max_value(),
    ensures
        final(g)@ == book(old(g)@, day, amount),
        days_increasing(final(g)@),
        forall|k: int| 0 <= k < final(g).len() ==> (#[trigger] final(g)@[k]).1.wf(),
        totals_magnitude(final(g)@) <= totals_magnitude(old(g)@) + abs(amount.value()) + p10(28),
{
    let ghost prev = g@;
    let mut j: usize = 0;
    while j < g.len() && g[j].0 < day
        invariant
            j <= g.len(),
            g@ == prev,
            forall|k: int| 0 <= k < j ==> (#[trigger] g@[k]).0 < day,
        decreases g.len() - j,
    {
        j = j + 1;
    }
    proof {
        lemma_book_at(prev, day, amount, j as int);
    }
    if j < g.len() && g[j].0 == day {
        let cur = g[j].1;
        proof {
            lemma_totals_magnitude(prev, j as int, (day, cur));
        }
        let total = decimal_plus(&cur, &amount);
        g.set(j, (day, total));
        proof {
            lemma_totals_magnitude(prev, j as int, (day, total));
            assert(days_increasing(g@)) by {
                assert forall|a: int, b: int| 0 <= a < b < g@.len() implies (#[trigger] g@[a]).0 < (#[trigger] g@[b]).0 by {
                    assert(prev[a].0 < prev[b].0);
                }
            }
        }
    } else {
        let z = DecimalValue::zero();
        proof {
            lemma_totals_magnitude(prev, j as int, (day, z));
        }
        let total = decimal_plus(&z, &amount);
        g.insert(j, (day, total));
        proof {
            let jj = j as int;
            lemma_totals_magnitude(prev, jj, (day, total));
            assert(days_increasing(g@)) by {
                assert forall|a: int, b: int| 0 <= a < b < g@.len() implies (#[trigger] g@[a]).0 < (#[trigger] g@[b]).0 by {
                    if a < jj && b > jj {
                        assert(g@[b] == prev[b - 1]);
                    } else if a == jj {
                        assert(g@[b] == prev[b - 1]);
                    } else if b == jj {
                        assert(g@[a] == prev[a]);
                    } else if a > jj {
                        assert(prev[a - 1].0 < prev[b - 1].0);
                    } else {
                        assert(prev[a].0 < prev[b].0);
                    }
                }
            }
            assert forall|k: int| 0 <= k < g.len() implies (#[trigger] g@[k]).1.wf() by {
                if k < jj {
                    assert(g@[k] == prev[k]);
                } else if k > jj {
                    assert(g@[k] == prev[k - 1]);
                }
            }
        }
    }
}

/// Revenue per day from `(day, amount)` pairs of orders: one entry for
/// each day that has orders, days in increasing order, each the day's
/// amounts added up as `Decimal` adds (as grouping them in a `BTreeMap`
/// keyed by date gives).
pub fn daily_revenue(orders: &Vec<(i64, DecimalValue)>) -> (r: Vec<DailyRevenue>)
    requires
        sum_fits(amounts_of(orders@)),
    ensures
        r.len() == daily_totals(orders@).len(),
        forall|k: int| 0 <= k < r.len() ==> (#[trigger] r@[k]).day == daily_totals(orders@)[k].0 && r@[k].revenue == daily_totals(orders@)[k].1,
        days_increasing(daily_totals(orders@)),
        forall|d: i64| #[trigger] reports_day(r@, d) <==> orders_on(orders@, d),
{
    let ghost amounts = amounts_of(orders@);
    let mut g: Vec<(i64, DecimalValue)> = Vec::new();
    let mut i: usize = 0;
    proof {
        lemma_p10_positive(28);
        assert(orders@.take(0) =~= Seq::<(i64, DecimalValue)>::empty());
        assert(amounts.take(0) =~= Seq::<DecimalValue>::empty());
    }
    while i < orders.len()
        invariant
            i <= orders.len(),
            amounts == amounts_of(orders@),
            sum_fits(amounts),
            p10(28) >= 1,
            g@ == daily_totals(orders@.take(i as int)),
            days_increasing(g@),
            forall|k: int| 0 <= k < g.len() ==> (#[trigger] g@[k]).1.wf(),
            totals_magnitude(g@) <= magnitude_total(amounts.take(i as int)) + i * p10(28),
        decreases orders.len() - i,
    {
        let (day, amount) = orders[i];
        let ghost p = p10(28);
        let ghost prev = g@;
        proof {
            lemma_magnitude_prefix(amounts, i as int);
            lemma_magnitude_prefix(amounts, i as int + 1);
            assert(orders@.take(i as int + 1).drop_last() =~= orders@.take(i as int));
            assert(orders@.take(i as int + 1).last() == orders@[i as int]);
            assert(amounts[i as int] == amount);
            assert(amount.wf());
            assert(i * p + p <= orders.len() * p) by (nonlinear_arith)
                requires i + 1 <= orders.len(), p >= 1;
            assert((i + 1) * p == i * p + p) by (nonlinear_arith);
            assert(amounts.len() == orders.len());
        }
        book_day(&mut g, day, amount);
        i = i + 1;
    }
    assert(orders@.take(orders.len() as int) =~= orders@);
    let mut r: Vec<DailyRevenue> = Vec::new();
    let mut k: usize = 0;
    while k < g.len()
        invariant
            k <= g.len(),
            r.len() == k,
            forall|m: int| 0 <= m < k ==> (#[trigger] r@[m]).day == g@[m].0 && r@[m].revenue == g@[m].1,
        decreases g.len() - k,
    {
        r.push(DailyRevenue { day: g[k].0, revenue: g[k].1 });
        k = k + 1;
    }
    proof {
        lemma_daily_days(orders@);
        assert forall|d: i64| #[trigger] reports_day(r@, d) <==> orders_on(orders@, d) by {
            if reports_day(r@, d) {
                let k = choose|k: int| 0 <= k < r@.len() && r@[k].day == d;
                assert(totals_has_day(g@, d)) by {
                    assert(g@[k].0 == d);
                }
            }
            if totals_has_day(g@, d) {
                let k = choose|k: int| 0 <= k < g@.len() && g@[k].0 == d;
                assert(r@[k].day == d);
            }
        }
    }
    r
}

} // verus!
