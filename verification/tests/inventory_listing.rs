use rust_decimal::Decimal;
use stateset_core::decimal::DecimalValue;
use stateset_core::inventory::balance::InventoryError;
use stateset_core::inventory::snapshot::{
    build_snapshots, check_page_request, filter_snapshots, item_changes, item_number_for, product_filter,
    BalanceRow, ItemRecord, LocationBalance, ProductFilter,
};

fn d(mantissa: i128, scale: u32) -> DecimalValue {
    DecimalValue { mantissa, scale }
}

fn num(v: &DecimalValue) -> Decimal {
    Decimal::from_i128_with_scale(v.mantissa, v.scale)
}

fn item(id: i64, number: &str) -> ItemRecord {
    ItemRecord {
        inventory_item_id: id,
        item_number: number.to_string(),
        description: Some("Widget".to_string()),
        primary_uom_code: Some("EA".to_string()),
        organization_id: 1,
    }
}

fn bal(location_id: i32, on_hand: i128, allocated: i128) -> LocationBalance {
    LocationBalance {
        location_id,
        location_name: Some(format!("L{location_id}")),
        quantity_on_hand: d(on_hand, 0),
        quantity_allocated: d(allocated, 0),
        quantity_available: d(on_hand - allocated, 0),
        updated_at: 0,
        version: 1,
    }
}

fn row(item: i64, b: LocationBalance) -> BalanceRow {
    BalanceRow { inventory_item_id: item, balance: b }
}

fn message(e: InventoryError) -> String {
    match e {
        InventoryError::ValidationError(m)
        | InventoryError::NotFound(m)
        | InventoryError::InvalidOperation(m)
        | InventoryError::Conflict(m)
        | InventoryError::InsufficientStock(m) => m,
    }
}

#[test]
fn listing_snapshots_group_rows_by_item() {
    let items = vec![item(1, "A"), item(2, "B"), item(3, "C")];
    let rows = vec![row(2, bal(10, 5, 1)), row(1, bal(10, 7, 2)), row(2, bal(20, 3, 0))];
    let ss = build_snapshots(&items, &rows);
    assert_eq!(ss.len(), 3);
    assert_eq!(ss[0].inventory_item_id, 1);
    assert_eq!(ss[0].locations.len(), 1);
    assert_eq!(num(&ss[0].total_available), Decimal::new(5, 0));
    assert_eq!(ss[1].locations.len(), 2);
    assert_eq!(ss[1].locations[0].location_id, 10);
    assert_eq!(num(&ss[1].total_on_hand), Decimal::new(8, 0));
    assert_eq!(num(&ss[1].total_allocated), Decimal::new(1, 0));
    assert_eq!(num(&ss[1].total_available), Decimal::new(7, 0));
    assert!(ss[2].locations.is_empty());
    assert_eq!(num(&ss[2].total_on_hand), Decimal::ZERO);
}

#[test]
fn listing_repeated_item_gets_rows_once() {
    let items = vec![item(1, "A"), item(1, "A")];
    let rows = vec![row(1, bal(10, 4, 0))];
    let ss = build_snapshots(&items, &rows);
    assert_eq!(ss[0].locations.len(), 1);
    assert!(ss[1].locations.is_empty());
}

#[test]
fn listing_location_filter_recomputes_totals() {
    let items = vec![item(1, "A"), item(2, "B")];
    let rows = vec![row(1, bal(10, 4, 1)), row(1, bal(20, 6, 0)), row(2, bal(20, 9, 9))];
    let ss = build_snapshots(&items, &rows);
    let shown = filter_snapshots(ss, Some(10), None);
    assert_eq!(shown.len(), 1);
    assert_eq!(shown[0].inventory_item_id, 1);
    assert_eq!(shown[0].locations.len(), 1);
    assert_eq!(num(&shown[0].total_on_hand), Decimal::new(4, 0));
    assert_eq!(num(&shown[0].total_available), Decimal::new(3, 0));
}

#[test]
fn listing_low_stock_filter_keeps_items_below_threshold() {
    let items = vec![item(1, "A"), item(2, "B")];
    let rows = vec![row(1, bal(10, 4, 1)), row(2, bal(10, 50, 0))];
    let ss = build_snapshots(&items, &rows);
    let shown = filter_snapshots(ss.clone(), None, Some(d(10, 0)));
    assert_eq!(shown.len(), 1);
    assert_eq!(shown[0].inventory_item_id, 1);
    let at_threshold = filter_snapshots(ss, None, Some(d(3, 0)));
    assert!(at_threshold.is_empty());
}

#[test]
fn listing_page_request_bounds() {
    assert_eq!(message(check_page_request(0, 10).err().unwrap()), "Page number must be greater than 0");
    assert_eq!(message(check_page_request(1, 0).err().unwrap()), "Limit must be between 1 and 1000");
    assert_eq!(message(check_page_request(1, 1001).err().unwrap()), "Limit must be between 1 and 1000");
    assert!(check_page_request(1, 1000).is_ok());
}

#[test]
fn listing_product_filter_parses_ids() {
    assert!(matches!(product_filter("42"), ProductFilter::ItemId(42)));
    assert!(matches!(product_filter("-7"), ProductFilter::ItemId(-7)));
    assert!(matches!(product_filter("+5"), ProductFilter::ItemId(5)));
    assert!(matches!(product_filter("-9223372036854775808"), ProductFilter::ItemId(i64::MIN)));
    match product_filter("9223372036854775808") {
        ProductFilter::NumberContains(t) => assert_eq!(t, "9223372036854775808"),
        _ => panic!("expected a text filter"),
    }
    match product_filter("SKU-1") {
        ProductFilter::NumberContains(t) => assert_eq!(t, "SKU-1"),
        _ => panic!("expected a text filter"),
    }
    assert!(matches!(product_filter("-"), ProductFilter::NumberContains(_)));
    assert!(matches!(product_filter("-+3"), ProductFilter::NumberContains(_)));
}

#[test]
fn listing_item_number_is_trimmed() {
    assert_eq!(item_number_for("  SKU-9 ").ok().unwrap(), "SKU-9");
    assert_eq!(message(item_number_for("   ").err().unwrap()), "item_number cannot be empty");
}

#[test]
fn listing_item_changes_only_when_different() {
    let it = item(1, "A");
    assert!(item_changes(&it, Some("Widget".to_string()), None, 1).is_none());
    let changed = item_changes(&it, Some("Gadget".to_string()), Some("EA".to_string()), 1).unwrap();
    assert_eq!(changed.description.as_deref(), Some("Gadget"));
    assert_eq!(changed.primary_uom_code.as_deref(), Some("EA"));
    let moved = item_changes(&it, None, None, 2).unwrap();
    assert_eq!(moved.organization_id, 2);
    assert_eq!(moved.description.as_deref(), Some("Widget"));
}
