use stateset_core::asn::{
    apply_asn_update, asn_item_not_found, asn_not_found, check_deletable, check_items_removable, AsnChanges,
    AsnError, AsnRecord, AsnStage,
};

fn record(stage: AsnStage, version: i32) -> AsnRecord {
    AsnRecord {
        id: "asn-1".to_string(),
        version,
        stage,
        expected_delivery_date: Some(1_000),
        shipping_address: "1 Dock Rd".to_string(),
        tracking_number: None,
        notes: Some("fragile".to_string()),
        updated_at: 10,
    }
}

fn no_changes() -> AsnChanges {
    AsnChanges { expected_delivery_date: None, shipping_address: None, tracking_number: None, notes: None }
}

fn message(e: AsnError) -> String {
    match e {
        AsnError::NotFound(m) | AsnError::ValidationError(m) | AsnError::InvalidOperation(m) => m,
    }
}

#[test]
fn asn_only_drafts_are_deleted() {
    assert!(check_deletable(&AsnStage::Draft).is_ok());
    match check_deletable(&AsnStage::Submitted) {
        Err(AsnError::ValidationError(m)) => assert_eq!(m, "Only draft ASNs can be deleted"),
        _ => panic!("expected a validation error"),
    }
}

#[test]
fn asn_items_removable_until_shipped() {
    assert!(check_items_removable(&AsnStage::Draft).is_ok());
    assert!(check_items_removable(&AsnStage::Submitted).is_ok());
    let e = check_items_removable(&AsnStage::Other("InTransit".to_string())).err().unwrap();
    assert_eq!(message(e), "Cannot remove items from ASN in InTransit status");
}

#[test]
fn asn_update_applies_given_fields() {
    let changes = AsnChanges {
        expected_delivery_date: Some(2_000),
        shipping_address: None,
        tracking_number: Some("TRK9".to_string()),
        notes: None,
    };
    let u = apply_asn_update(&record(AsnStage::Submitted, 3), 3, changes, 99).ok().unwrap();
    assert_eq!(u.version, 4);
    assert_eq!(u.updated_at, 99);
    assert_eq!(u.expected_delivery_date, Some(2_000));
    assert_eq!(u.shipping_address, "1 Dock Rd");
    assert_eq!(u.tracking_number.as_deref(), Some("TRK9"));
    assert_eq!(u.notes.as_deref(), Some("fragile"));
}

#[test]
fn asn_update_refuses_stale_version() {
    let e = apply_asn_update(&record(AsnStage::Draft, 3), 2, no_changes(), 99).err().unwrap();
    match e {
        AsnError::InvalidOperation(m) => {
            assert_eq!(m, "Concurrent modification detected. Please refresh and try again.")
        }
        _ => panic!("expected an invalid operation"),
    }
}

#[test]
fn asn_update_refuses_late_stage() {
    let e = apply_asn_update(&record(AsnStage::Other("Delivered".to_string()), 1), 1, no_changes(), 5).err().unwrap();
    assert_eq!(message(e), "Cannot update ASN in Delivered status");
}

#[test]
fn asn_not_found_messages() {
    assert_eq!(message(asn_not_found("a1")), "ASN a1 not found");
    assert_eq!(message(asn_item_not_found("a1", "i9")), "Item i9 not found in ASN a1");
}
