use rust_decimal::Decimal;
use stateset_core::analytics::{
    average, cart_metrics, daily_revenue, inventory_value, sales_metrics, total_hours, total_stock,
    PeriodOrders, StockValuation,
};
use stateset_core::decimal::{sum_amounts, DecimalValue};

fn d(mantissa: i128, scale: u32) -> DecimalValue {
    DecimalValue { mantissa, scale }
}

fn num(v: &DecimalValue) -> Decimal {
    Decimal::from_i128_with_scale(v.mantissa, v.scale)
}

#[test]
fn analytics_sum_adds_every_amount() {
    let t = sum_amounts(&vec![d(1050, 2), d(2, 0), d(-25, 1)]);
    assert_eq!(num(&t), Decimal::new(1000, 2));
    assert_eq!(num(&sum_amounts(&vec![])), Decimal::ZERO);
}

#[test]
fn analytics_average_divides_by_count() {
    assert_eq!(average(&d(100, 0), 4), d(25, 0));
    assert_eq!(average(&d(1000, 2), 0), d(0, 0));
    let third = average(&d(10, 0), 3);
    assert_eq!(num(&third), Decimal::from(10) / Decimal::from(3));
}

#[test]
fn analytics_sales_metrics_per_period() {
    let all = PeriodOrders { count: 3, amounts: vec![d(1000, 2), d(2000, 2), d(3000, 2)] };
    let today = PeriodOrders { count: 1, amounts: vec![d(3000, 2)] };
    let week = PeriodOrders { count: 2, amounts: vec![d(2000, 2), d(3000, 2)] };
    let month = PeriodOrders { count: 3, amounts: vec![d(1000, 2), d(2000, 2), d(3000, 2)] };
    let m = sales_metrics(&all, &today, &week, &month);
    assert_eq!(m.total_orders, 3);
    assert_eq!(num(&m.total_revenue), Decimal::new(60, 0));
    assert_eq!(num(&m.average_order_value), Decimal::new(20, 0));
    assert_eq!(m.orders_today, 1);
    assert_eq!(num(&m.revenue_today), Decimal::new(30, 0));
    assert_eq!(m.orders_this_week, 2);
    assert_eq!(num(&m.revenue_this_week), Decimal::new(50, 0));
    assert_eq!(m.orders_this_month, 3);
    assert_eq!(num(&m.revenue_this_month), Decimal::new(60, 0));
}

#[test]
fn analytics_sales_metrics_without_orders() {
    let none = PeriodOrders { count: 0, amounts: vec![] };
    let m = sales_metrics(&none, &none, &none, &none);
    assert_eq!(m.total_orders, 0);
    assert_eq!(num(&m.average_order_value), Decimal::ZERO);
}

#[test]
fn analytics_cart_metrics_average_value() {
    let m = cart_metrics(4, 2, 1, 1, &vec![d(10, 0), d(20, 0), d(30, 0), d(40, 0)]);
    assert_eq!((m.total_carts, m.active_carts, m.abandoned_carts, m.converted_carts), (4, 2, 1, 1));
    assert_eq!(num(&m.average_cart_value), Decimal::new(25, 0));
    let empty = cart_metrics(0, 0, 0, 0, &vec![]);
    assert_eq!(num(&empty.average_cart_value), Decimal::ZERO);
}

#[test]
fn analytics_inventory_value_uses_unit_cost() {
    let items = vec![
        StockValuation { unit_cost: Some(d(250, 2)), available: 4 },
        StockValuation { unit_cost: None, available: 100 },
        StockValuation { unit_cost: Some(d(1, 0)), available: 0 },
        StockValuation { unit_cost: Some(d(3, 0)), available: -2 },
    ];
    assert_eq!(num(&inventory_value(&items)), Decimal::new(4, 0));
}

#[test]
fn analytics_integer_totals() {
    assert_eq!(total_stock(&vec![5, 0, 7, -2]), 10);
    assert_eq!(total_stock(&vec![]), 0);
    assert_eq!(total_hours(&vec![24, 48, 3]), 75);
}

#[test]
fn analytics_daily_revenue_groups_and_orders_days() {
    let orders = vec![(19755, d(1000, 2)), (19753, d(5, 0)), (19755, d(250, 2)), (19754, d(1, 0)), (19753, d(5, 1))];
    let r = daily_revenue(&orders);
    assert_eq!(r.len(), 3);
    assert_eq!(r[0].day, 19753);
    assert_eq!(num(&r[0].revenue), Decimal::new(55, 1));
    assert_eq!(r[1].day, 19754);
    assert_eq!(num(&r[1].revenue), Decimal::new(1, 0));
    assert_eq!(r[2].day, 19755);
    assert_eq!(num(&r[2].revenue), Decimal::new(1250, 2));
    assert!(daily_revenue(&vec![]).is_empty());
}
