use rust_decimal::Decimal;
use stateset_core::decimal::{sum_amounts, DecimalValue};
use stateset_core::inventory::balance::{
    allocate_line, deallocate_line, decimal_to_i32, line_key, not_found, po_line_not_found, require_order_lines,
    return_line, ship_line, InventoryBalance, InventoryError, PurchaseOrderLine, SalesOrderAdjustmentType,
    SalesOrderLine, TransactionType,
};
use stateset_core::inventory::batch::{allocate_inventory_batch, unique_keys};
use stateset_core::inventory::ids::{
    snapshot_totals, uuid_bytes_from_i32, uuid_bytes_from_i64, uuid_from_i32, uuid_from_i64,
};
use stateset_core::inventory::stock::{
    adjust_balance, is_in_stock, item_not_found, receive_inventory_for_po_line, release_balance, reserve_balance,
    resolve_lookup, transfer_balances, ItemLookup,
};

fn d(mantissa: i128, scale: u32) -> DecimalValue {
    DecimalValue { mantissa, scale }
}

fn num(v: &DecimalValue) -> Decimal {
    Decimal::from_i128_with_scale(v.mantissa, v.scale)
}

fn balance(item: i64, location: i32, on_hand: i128, allocated: i128, version: i32) -> InventoryBalance {
    InventoryBalance {
        inventory_item_id: item,
        location_id: location,
        quantity_on_hand: d(on_hand * 100, 2),
        quantity_allocated: d(allocated * 100, 2),
        quantity_available: d((on_hand - allocated) * 100, 2),
        version,
    }
}

fn line(line_id: i64, item: i64, location: i32, qty: i128) -> SalesOrderLine {
    SalesOrderLine {
        line_id,
        header_id: Some(900),
        inventory_item_id: Some(item),
        location_id: Some(location),
        ordered_quantity: Some(d(qty, 0)),
    }
}

fn message(e: &InventoryError) -> &str {
    match e {
        InventoryError::ValidationError(m)
        | InventoryError::NotFound(m)
        | InventoryError::InvalidOperation(m)
        | InventoryError::Conflict(m)
        | InventoryError::InsufficientStock(m) => m.as_str(),
    }
}

#[test]
fn test_inventory_snapshot_creation() {
    let b = balance(123, 1, 100, 20, 1);
    let (on_hand, allocated, available) = snapshot_totals(&vec![b]);
    assert_eq!(b.inventory_item_id, 123);
    assert_eq!(num(&on_hand), Decimal::new(10000, 2));
    assert_eq!(num(&allocated), Decimal::new(2000, 2));
    assert_eq!(num(&available), Decimal::new(8000, 2));
}

#[test]
fn test_location_balance_creation() {
    let b = balance(1, 456, 50, 10, 1);
    assert_eq!(b.location_id, 456);
    assert_eq!(num(&b.quantity_on_hand), Decimal::new(5000, 2));
    assert_eq!(num(&b.quantity_allocated), Decimal::new(1000, 2));
    assert_eq!(num(&b.quantity_available), Decimal::new(4000, 2));
    assert_eq!(b.version, 1);
}

#[test]
fn test_adjust_inventory_command() {
    let existing = balance(100, 5, 10, 0, 3);
    let (previous, updated) = adjust_balance(Some(&existing), 100, 5, &d(2500, 2), Some(3)).unwrap();
    assert_eq!(num(&previous), Decimal::new(1000, 2));
    assert_eq!(num(&updated.quantity_on_hand), Decimal::new(3500, 2));
    assert_eq!(num(&updated.quantity_available), Decimal::new(3500, 2));
    assert_eq!(updated.version, 4);
}

#[test]
fn test_reserve_inventory_command() {
    let existing = balance(200, 10, 50, 0, 5);
    let updated = reserve_balance(Some(&existing), 200, "SKU-200", 10, &d(1500, 2), Some(5)).unwrap();
    assert_eq!(num(&updated.quantity_allocated), Decimal::new(1500, 2));
    assert_eq!(num(&updated.quantity_available), Decimal::new(3500, 2));
    assert_eq!(updated.version, 6);
}

#[test]
fn test_release_reservation_command() {
    let existing = balance(300, 15, 50, 10, 1);
    let updated = release_balance(Some(&existing), 300, "SKU-300", 15, &d(500, 2)).unwrap();
    assert_eq!(num(&updated.quantity_allocated), Decimal::new(500, 2));
    assert_eq!(num(&updated.quantity_available), Decimal::new(4500, 2));
}

#[test]
fn test_decimal_to_i32_positive() {
    let result = decimal_to_i32(&d(427, 1));
    assert!(result.is_ok());
    assert_eq!(result.unwrap(), 43);
}

#[test]
fn test_decimal_to_i32_zero() {
    let result = decimal_to_i32(&DecimalValue::zero());
    assert!(result.is_ok());
    assert_eq!(result.unwrap(), 0);
}

#[test]
fn test_decimal_to_i32_negative() {
    let result = decimal_to_i32(&d(-103, 1));
    assert!(result.is_ok());
    assert_eq!(result.unwrap(), -10);
}

#[test]
fn decimal_to_i32_rounds_ties_to_even_and_reports_overflow() {
    assert_eq!(decimal_to_i32(&d(25, 1)).unwrap(), 2);
    assert_eq!(decimal_to_i32(&d(35, 1)).unwrap(), 4);
    assert_eq!(decimal_to_i32(&d(-25, 1)).unwrap(), -2);
    match decimal_to_i32(&d(3_000_000_000, 0)) {
        Err(InventoryError::ValidationError(m)) => assert_eq!(m, "Quantity overflow"),
        other => panic!("unexpected {:?}", other),
    }
}

#[test]
fn test_uuid_from_i64() {
    let id: i64 = 123456789;
    let uuid = uuid_from_i64(id);
    assert_eq!(uuid, uuid_from_i64(id));
    assert_ne!(uuid, uuid_from_i64(987654321));
}

#[test]
fn test_uuid_from_i32() {
    let id: i32 = 42;
    let uuid = uuid_from_i32(id);
    assert_eq!(uuid, uuid_from_i32(id));
    assert_ne!(uuid, uuid_from_i32(99));
}

#[test]
fn test_uuid_conversion_functions_work() {
    assert_ne!(uuid_from_i64(100), uuid::Uuid::nil());
    assert_ne!(uuid_from_i32(200), uuid::Uuid::nil());
    assert_ne!(uuid_from_i64(100), uuid_from_i64(200));
    assert_ne!(uuid_from_i32(100), uuid_from_i32(200));
}

#[test]
fn only_item_zero_maps_to_the_nil_uuid() {
    assert_eq!(uuid_from_i64(0), uuid::Uuid::nil());
    assert_ne!(uuid_from_i64(-1), uuid::Uuid::nil());
    assert_ne!(uuid_from_i64(1), uuid::Uuid::nil());
}

#[test]
fn uuid_bytes_are_big_endian_after_zeros() {
    let b = uuid_bytes_from_i64(0x0102);
    assert_eq!(&b[..14], &[0u8; 14]);
    assert_eq!(b[14], 1);
    assert_eq!(b[15], 2);
    assert_eq!(uuid_from_i64(0x0102).as_bytes(), &b);
    let c = uuid_bytes_from_i32(-1);
    assert_eq!(&c[..12], &[0u8; 12]);
    assert_eq!(&c[12..], &[255u8; 4]);
}

#[test]
fn test_inventory_snapshot_with_locations() {
    let balances = vec![balance(500, 1, 60, 10, 1), balance(500, 2, 40, 10, 1)];
    let (on_hand, allocated, available) = snapshot_totals(&balances);
    assert_eq!(balances.len(), 2);
    assert_eq!(balances[0].location_id, 1);
    assert_eq!(balances[1].location_id, 2);
    assert_eq!(num(&on_hand), Decimal::new(10000, 2));
    assert_eq!(num(&allocated), Decimal::new(2000, 2));
    assert_eq!(num(&available), Decimal::new(8000, 2));
}

#[test]
fn test_inventory_snapshot_clone() {
    let original = balance(999, 1, 50, 5, 1);
    let cloned = original.clone();
    assert_eq!(original, cloned);
}

#[test]
fn sum_of_quantities() {
    assert_eq!(num(&sum_amounts(&vec![d(15, 1), d(25, 2), d(3, 0)])), Decimal::new(475, 2));
    assert_eq!(num(&sum_amounts(&vec![])), Decimal::ZERO);
}

#[test]
fn reserve_then_release_restores_the_balance() {
    let start = balance(7, 1, 40, 5, 2);
    let reserved = reserve_balance(Some(&start), 7, "SKU-7", 1, &d(1000, 2), None).unwrap();
    let released = release_balance(Some(&reserved), 7, "SKU-7", 1, &d(1000, 2)).unwrap();
    assert_eq!(num(&released.quantity_on_hand), num(&start.quantity_on_hand));
    assert_eq!(num(&released.quantity_allocated), num(&start.quantity_allocated));
    assert_eq!(num(&released.quantity_available), num(&start.quantity_available));
    assert_eq!(released.version, start.version + 2);
}

#[test]
fn reservation_refusals() {
    let b = balance(7, 1, 10, 0, 2);
    match reserve_balance(Some(&b), 7, "SKU-7", 1, &d(0, 0), None) {
        Err(InventoryError::ValidationError(m)) => assert_eq!(m, "Reservation quantity must be positive"),
        other => panic!("unexpected {:?}", other),
    }
    match reserve_balance(None, 7, "SKU-7", 1, &d(1, 0), None) {
        Err(InventoryError::NotFound(m)) => assert_eq!(m, "No inventory for item 7 at location 1"),
        other => panic!("unexpected {:?}", other),
    }
    match reserve_balance(Some(&b), 7, "SKU-7", 1, &d(1, 0), Some(9)) {
        Err(InventoryError::Conflict(m)) => assert_eq!(
            m,
            "Inventory was modified by another request. Expected version 9, found 2. Please refresh and retry."
        ),
        other => panic!("unexpected {:?}", other),
    }
    match reserve_balance(Some(&b), 7, "SKU-7", 1, &d(11, 0), None) {
        Err(InventoryError::InsufficientStock(m)) => assert_eq!(
            m,
            "Insufficient available quantity for item SKU-7 at location 1. Requested: 11, Available: 10.00, On-hand: 10.00, Allocated: 0.00"
        ),
        other => panic!("unexpected {:?}", other),
    }
    match release_balance(Some(&b), 7, "SKU-7", 1, &d(1, 0)) {
        Err(InventoryError::ValidationError(m)) => assert!(m.starts_with("Cannot release 1 units for item SKU-7")),
        other => panic!("unexpected {:?}", other),
    }
}

#[test]
fn adjustment_refusals_and_seeding() {
    let b = balance(1, 1, 5, 3, 1);
    assert_eq!(message(&adjust_balance(Some(&b), 1, 1, &d(0, 0), None).unwrap_err()), "Adjustment quantity must be non-zero");
    assert_eq!(
        message(&adjust_balance(Some(&b), 1, 1, &d(-6, 0), None).unwrap_err()),
        "Adjustment would result in negative on-hand quantity"
    );
    assert_eq!(
        message(&adjust_balance(Some(&b), 1, 1, &d(-3, 0), None).unwrap_err()),
        "Adjustment would result in negative available quantity"
    );
    assert_eq!(
        message(&adjust_balance(None, 1, 1, &d(-3, 0), None).unwrap_err()),
        "Cannot seed inventory with a negative adjustment"
    );
    let (previous, seeded) = adjust_balance(None, 4, 2, &d(12, 0), None).unwrap();
    assert_eq!(num(&previous), Decimal::ZERO);
    assert_eq!(seeded.inventory_item_id, 4);
    assert_eq!(seeded.location_id, 2);
    assert_eq!(num(&seeded.quantity_available), Decimal::from(12));
    assert_eq!(seeded.version, 1);
}

#[test]
fn transfer_conserves_stock() {
    let source = balance(3, 1, 20, 0, 1);
    let dest = balance(3, 2, 5, 0, 1);
    let (out, into) = transfer_balances(3, 1, 2, &d(8, 0), Some(&source), Some(&dest)).unwrap();
    assert_eq!(num(&out.quantity_on_hand), Decimal::from(12));
    assert_eq!(num(&into.quantity_on_hand), Decimal::from(13));
    assert_eq!(num(&out.quantity_on_hand) + num(&into.quantity_on_hand), Decimal::from(25));
    assert_eq!((out.version, into.version), (2, 2));
    let (_, fresh) = transfer_balances(3, 1, 9, &d(8, 0), Some(&source), None).unwrap();
    assert_eq!(fresh.location_id, 9);
    assert_eq!(num(&fresh.quantity_on_hand), Decimal::from(8));
    let refused = transfer_balances(3, 1, 2, &d(21, 0), Some(&source), Some(&dest)).unwrap_err();
    assert!(message(&refused).starts_with("Insufficient stock at source location 1 for item 3"));
}

#[test]
fn stock_checks_and_lookups() {
    let b = balance(1, 1, 5, 2, 1);
    assert!(is_in_stock(Some(&b), &d(3, 0)));
    assert!(!is_in_stock(Some(&b), &d(4, 0)));
    assert!(!is_in_stock(None, &d(1, 0)));
    assert!(matches!(resolve_lookup(Some(5), Some("X")), Ok(ItemLookup::ById(5))));
    match resolve_lookup(None, Some("  SKU-1 ")) {
        Ok(ItemLookup::ByNumber(n)) => assert_eq!(n, "SKU-1"),
        other => panic!("unexpected {:?}", other),
    }
    assert!(resolve_lookup(None, Some("   ")).is_err());
    assert_eq!(message(&item_not_found(&ItemLookup::ById(12))), "Inventory item 12 not found");
    assert_eq!(message(&not_found(4, 2)), "Inventory not found for item 4 at location 2");
    assert_eq!(message(&po_line_not_found(8)), "PO line 8 not found");
    assert_eq!(message(&require_order_lines(77, 0).unwrap_err()), "No order lines found for order 77");
    assert!(require_order_lines(77, 1).is_ok());
}

#[test]
fn order_line_movements() {
    let b = balance(10, 1, 20, 0, 1);
    let l = line(1, 10, 1, 5);
    assert_eq!(line_key(&l).unwrap(), (10, 1));
    let allocated = allocate_line(&l, &b).unwrap();
    assert_eq!(num(&allocated.balance.quantity_allocated), Decimal::from(5));
    assert_eq!(num(&allocated.balance.quantity_available), Decimal::from(15));
    assert_eq!(allocated.transaction.kind, TransactionType::Allocate);
    assert_eq!(allocated.transaction.notes, "Allocated for order line 1");
    let shipped = ship_line(&l, &allocated.balance).unwrap();
    assert_eq!(num(&shipped.balance.quantity_on_hand), Decimal::from(15));
    assert_eq!(num(&shipped.balance.quantity_allocated), Decimal::ZERO);
    let dealloc = deallocate_line(&l, &allocated.balance).unwrap();
    assert_eq!(num(&dealloc.balance.quantity_allocated), Decimal::ZERO);
    assert_eq!(num(&dealloc.balance.quantity_available), Decimal::from(20));
    let returned = return_line(&l, &shipped.balance).unwrap();
    assert_eq!(num(&returned.balance.quantity_on_hand), Decimal::from(20));
    let too_much = allocate_line(&line(2, 10, 1, 21), &b);
    assert!(matches!(too_much, Err(InventoryError::InvalidOperation(_))));
}

#[test]
fn batch_allocation_sees_earlier_lines() {
    let balances = vec![balance(10, 1, 8, 0, 1)];
    let lines = vec![line(1, 10, 1, 5), line(2, 10, 1, 3)];
    let outcome = allocate_inventory_batch(&lines, &balances).unwrap();
    assert_eq!(outcome.transactions.len(), 2);
    assert_eq!(num(&outcome.balances[0].quantity_available), Decimal::ZERO);
    assert_eq!(outcome.balances[0].version, 3);
    assert_eq!(outcome.modified, vec![true]);
    let over = vec![line(1, 10, 1, 5), line(2, 10, 1, 4)];
    assert!(matches!(allocate_inventory_batch(&over, &balances), Err(InventoryError::InvalidOperation(_))));
    assert_eq!(unique_keys(&lines).unwrap(), vec![(10, 1)]);
}

#[test]
fn receiving_from_purchase_orders() {
    let po = PurchaseOrderLine { po_line_id: 5, po_header_id: Some(50), item_id: Some(10) };
    let created = receive_inventory_for_po_line(&po, None, &d(7, 0), 3).unwrap();
    assert_eq!(created.balance.location_id, 3);
    assert_eq!(num(&created.balance.quantity_on_hand), Decimal::from(7));
    assert_eq!(created.transaction.reference_id, Some(50));
    assert_eq!(created.transaction.notes, "Received from PO line 5");
    let existing = balance(10, 3, 2, 1, 4);
    let more = receive_inventory_for_po_line(&po, Some(&existing), &d(3, 0), 3).unwrap();
    assert_eq!(num(&more.balance.quantity_on_hand), Decimal::from(5));
    assert_eq!(num(&more.balance.quantity_available), Decimal::from(4));
    assert_eq!(more.transaction.previous_quantity, 2);
    assert!(receive_inventory_for_po_line(&po, None, &d(0, 0), 3).is_err());
}

#[test]
fn adjustment_type_names() {
    assert_eq!(SalesOrderAdjustmentType::Allocate.to_string(), "ALLOCATE");
    assert_eq!(SalesOrderAdjustmentType::Cancel.to_string(), "CANCEL");
}

#[test]
fn reservation_beyond_available_is_refused_even_at_extreme_scales() {
    let mut full = balance(4, 1, 10, 10, 3);
    full.version = i32::MAX;
    let tiny = d(1, 28);
    match reserve_balance(Some(&full), 4, "SKU-4", 1, &tiny, None) {
        Err(InventoryError::InsufficientStock(_)) => {}
        other => panic!("unexpected {:?}", other),
    }
}
