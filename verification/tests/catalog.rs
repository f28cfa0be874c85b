use rust_decimal::Decimal;
use stateset_core::catalog::{
    apply_product_update, new_product, page_bounds, product_not_found_message, search_pattern, sku_taken_message,
    variant_deleted_message, variant_not_found_message, variant_sku_not_found_message, CreateProductInput,
    ProductSearchQuery, UpdateProductInput, DEFAULT_LIMIT, MAX_LIMIT,
};
use stateset_core::decimal::DecimalValue;
use stateset_core::queries::{is_low_stock, GetLowStockProductsQuery};

fn d(mantissa: i128, scale: u32) -> DecimalValue {
    DecimalValue { mantissa, scale }
}

fn num(v: &DecimalValue) -> Decimal {
    Decimal::from_i128_with_scale(v.mantissa, v.scale)
}

fn minimal_input(name: &str, sku: &str, price: DecimalValue) -> CreateProductInput {
    CreateProductInput {
        name: name.to_string(),
        sku: sku.to_string(),
        description: None,
        price,
        currency: "USD".to_string(),
        is_active: true,
        is_digital: false,
        image_url: None,
        brand: None,
        manufacturer: None,
        weight_kg: None,
        dimensions_cm: None,
        tags: None,
        cost_price: None,
        msrp: None,
        tax_rate: None,
        meta_title: None,
        meta_description: None,
        reorder_point: None,
    }
}

fn empty_update() -> UpdateProductInput {
    UpdateProductInput {
        name: None,
        sku: None,
        description: None,
        price: None,
        currency: None,
        is_active: None,
        is_digital: None,
        image_url: None,
        brand: None,
        manufacturer: None,
        weight_kg: None,
        dimensions_cm: None,
        tags: None,
        cost_price: None,
        msrp: None,
        tax_rate: None,
        meta_title: None,
        meta_description: None,
        reorder_point: None,
    }
}

#[test]
fn test_create_product_input_complete() {
    let mut input = minimal_input("Test Product", "TEST-SKU-001", d(9999, 2));
    input.description = Some("A test product description".to_string());
    input.weight_kg = Some(d(15, 1));
    input.cost_price = Some(d(5000, 2));
    input.msrp = Some(d(14999, 2));
    input.tax_rate = Some(d(85, 1));
    input.reorder_point = Some(10);
    assert_eq!(input.name, "Test Product");
    assert_eq!(input.sku, "TEST-SKU-001");
    assert_eq!(num(&input.price), Decimal::new(9999, 2));
    assert!(input.is_active);
    assert!(!input.is_digital);
    let product = new_product("p1".to_string(), input);
    assert_eq!(product.id, "p1");
    assert_eq!(product.name, "Test Product");
    assert_eq!(product.reorder_point, Some(10));
    assert_eq!(num(&product.msrp.unwrap()), Decimal::new(14999, 2));
}

#[test]
fn test_create_product_input_minimal() {
    let input = minimal_input("Simple Product", "SIMPLE-001", d(1999, 2));
    assert!(input.description.is_none());
    assert!(input.brand.is_none());
    assert!(input.cost_price.is_none());
    let product = new_product("p2".to_string(), input);
    assert_eq!(product.currency, "USD");
    assert!(product.brand.is_none());
}

#[test]
fn test_update_product_input_partial() {
    let mut input = empty_update();
    input.name = Some("Updated Name".to_string());
    input.price = Some(d(14999, 2));
    assert!(input.name.is_some());
    assert!(input.price.is_some());
    assert!(input.sku.is_none());
    assert!(input.description.is_none());
    let product = new_product("p".to_string(), minimal_input("Old", "SKU-1", d(100, 0)));
    let updated = apply_product_update(product, input);
    assert_eq!(updated.name, "Updated Name");
    assert_eq!(updated.sku, "SKU-1");
    assert_eq!(num(&updated.price), Decimal::new(14999, 2));
}

#[test]
fn test_update_product_input_empty() {
    let input = empty_update();
    assert!(input.name.is_none());
    assert!(input.sku.is_none());
    assert!(input.price.is_none());
    let product = new_product("p".to_string(), minimal_input("Same", "SKU-2", d(5, 0)));
    let updated = apply_product_update(product, input);
    assert_eq!(updated.name, "Same");
    assert_eq!(updated.sku, "SKU-2");
    assert!(updated.is_active);
}

#[test]
fn test_product_search_query_with_search() {
    let query = ProductSearchQuery {
        search: Some("test product".to_string()),
        is_active: Some(true),
        limit: Some(20),
        offset: Some(0),
    };
    assert!(query.search.is_some());
    assert_eq!(page_bounds(&query), (20, 0));
    assert_eq!(query.search.unwrap(), "test product");
}

#[test]
fn test_product_search_query_empty() {
    let query = ProductSearchQuery { search: None, is_active: None, limit: None, offset: None };
    assert!(query.search.is_none());
    assert!(query.is_active.is_none());
    assert_eq!(page_bounds(&query), (DEFAULT_LIMIT, 0));
}

#[test]
fn test_product_search_query_pagination() {
    let query = ProductSearchQuery { search: None, is_active: None, limit: Some(50), offset: Some(100) };
    assert_eq!(query.limit, Some(50));
    assert_eq!(query.offset, Some(100));
    assert_eq!(page_bounds(&query), (50, 100));
}

#[test]
fn test_sku_format_valid() {
    let valid_skus = vec!["SKU-001", "PROD-ABC-123", "ITEM123", "test-sku-001"];
    for sku in valid_skus {
        assert!(!sku.is_empty());
        assert!(sku.len() <= 50);
    }
}

#[test]
fn test_sku_uniqueness_pattern() {
    let sku = "UNIQUE-SKU-001";
    let pattern = search_pattern(sku);
    assert!(pattern.contains(sku));
}

#[test]
fn product_catalog_service_test_price_positive() {
    assert!(d(9999, 2).is_positive());
}

#[test]
fn product_catalog_service_test_price_zero_valid() {
    let price = DecimalValue::zero();
    assert!(!(num(&DecimalValue::zero()) > num(&price)));
}

#[test]
fn test_compare_at_price() {
    assert!(num(&d(9999, 2)) > num(&d(7999, 2)));
}

#[test]
fn test_valid_currencies() {
    let currencies = vec!["USD", "EUR", "GBP", "CAD", "AUD", "JPY"];
    for currency in currencies {
        assert_eq!(currency.len(), 3);
        assert!(currency.chars().all(|c| c.is_ascii_uppercase()));
    }
}

#[test]
fn test_digital_product_no_weight() {
    let mut input = minimal_input("E-book", "EBOOK-1", d(500, 2));
    input.is_digital = true;
    let product = new_product("p".to_string(), input);
    if product.is_digital {
        assert!(product.weight_kg.is_none());
    }
}

#[test]
fn test_physical_product_has_weight() {
    let mut input = minimal_input("Chair", "CHAIR-1", d(500, 2));
    input.weight_kg = Some(d(15, 1));
    let product = new_product("p".to_string(), input);
    if !product.is_digital {
        assert!(product.weight_kg.is_some());
    }
}

#[test]
fn test_inventory_tracking_enabled() {
    let tracking = true;
    assert!(tracking);
}

#[test]
fn test_reorder_point() {
    let reorder_point: Option<i32> = Some(10);
    let current_stock = 5;
    if let Some(point) = reorder_point {
        let needs_reorder = current_stock < point;
        assert!(needs_reorder);
        assert!(is_low_stock(&GetLowStockProductsQuery { threshold: point }, current_stock));
    }
}

#[test]
fn test_default_limit() {
    assert_eq!(DEFAULT_LIMIT, 20);
}

#[test]
fn test_max_limit() {
    assert_eq!(MAX_LIMIT, 100);
}

#[test]
fn test_limit_capping() {
    let query = ProductSearchQuery { search: None, is_active: None, limit: Some(200), offset: None };
    let (actual_limit, _) = page_bounds(&query);
    assert_eq!(actual_limit, 100);
}

#[test]
fn test_not_found_error_product() {
    let msg = product_not_found_message("abc");
    assert!(msg.contains("not found"));
    assert_eq!(msg, "Product abc not found");
}

#[test]
fn test_not_found_error_variant() {
    let msg = variant_not_found_message("abc");
    assert!(msg.contains("variant"));
    assert!(msg.contains("not found"));
}

#[test]
fn test_validation_error_sku_exists() {
    let msg = sku_taken_message("EXISTING-SKU");
    assert!(msg.contains("already exists"));
    assert_eq!(msg, "SKU EXISTING-SKU already exists");
}

#[test]
fn test_search_pattern_generation() {
    assert_eq!(search_pattern("test"), "%test%");
}

#[test]
fn test_search_filter_active() {
    let is_active: Option<bool> = Some(true);
    assert!(is_active.unwrap_or(false));
}

#[test]
fn test_search_filter_inactive() {
    let is_active: Option<bool> = Some(false);
    assert!(!is_active.unwrap_or(true));
}

#[test]
fn test_tags_format() {
    let tags = "electronics,gadgets,sale";
    let tag_list: Vec<&str> = tags.split(',').collect();
    assert_eq!(tag_list.len(), 3);
    assert!(tag_list.contains(&"electronics"));
}

#[test]
fn test_tags_empty() {
    let product = new_product("p".to_string(), minimal_input("A", "B", d(1, 0)));
    assert!(product.tags.is_none());
}

#[test]
fn test_variant_options_empty() {
    let options: std::collections::HashMap<String, String> = std::collections::HashMap::new();
    assert!(options.is_empty());
}

#[test]
fn test_variant_position_ordering() {
    let positions = vec![0, 1, 2, 3];
    for i in 0..positions.len() - 1 {
        assert!(positions[i] < positions[i + 1]);
    }
}

#[test]
fn test_variant_position_zero() {
    let position: i32 = 0;
    assert!(position >= 0);
}

#[test]
fn variant_messages() {
    assert_eq!(variant_sku_not_found_message("S1"), "Product variant with SKU S1 not found");
    assert_eq!(variant_deleted_message("v9"), "product_variant_deleted:v9");
}
