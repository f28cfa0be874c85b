use stateset_core::decimal::DecimalValue;
use stateset_core::feed::catalog::{CatalogImage, CatalogProduct, CatalogVariant};
use stateset_core::feed::group::{group_catalog, CatalogVariantRow, ImageRow, StockRow};

fn product(id: &str) -> CatalogProduct {
    CatalogProduct {
        id: id.to_string(),
        name: format!("Product {}", id),
        description: None,
        weight_kg: None,
        tags: None,
        brand: None,
        is_digital: false,
        created_at: "2024-01-01T00:00:00Z".to_string(),
        updated_at: None,
    }
}

fn variant(id: &str, sku: &str) -> CatalogVariant {
    CatalogVariant {
        id: id.to_string(),
        name: format!("Variant {}", id),
        sku: sku.to_string(),
        price: DecimalValue { mantissa: 1000, scale: 2 },
        compare_at_price: None,
        weight_label: None,
        inventory_tracking: true,
        options: vec![],
    }
}

fn image_row(owner: &str, url: &str) -> ImageRow {
    ImageRow { owner_id: owner.to_string(), image: CatalogImage { url: url.to_string(), is_primary: false } }
}

#[test]
fn rows_are_grouped_by_product_in_order() {
    let products = vec![product("p1"), product("p2"), product("p3")];
    let product_images = vec![image_row("p2", "b.jpg"), image_row("p1", "a.jpg"), image_row("p2", "c.jpg")];
    let variants = vec![
        CatalogVariantRow { product_id: "p2".to_string(), variant: variant("v1", "S1") },
        CatalogVariantRow { product_id: "p1".to_string(), variant: variant("v2", "S2") },
        CatalogVariantRow { product_id: "p2".to_string(), variant: variant("v3", "S3") },
        CatalogVariantRow { product_id: "gone".to_string(), variant: variant("v4", "S4") },
    ];
    let variant_images = vec![image_row("v3", "v3.jpg"), image_row("v1", "v1.jpg"), image_row("v3", "v3b.jpg")];
    let stock = vec![
        StockRow { sku: "S1".to_string(), available: 4 },
        StockRow { sku: "S3".to_string(), available: 7 },
        StockRow { sku: "S1".to_string(), available: 9 },
    ];
    let groups = group_catalog(products, &product_images, variants, &variant_images, &stock);
    assert_eq!(groups.len(), 3);
    assert_eq!(groups[0].product.id, "p1");
    assert_eq!(groups[1].product.id, "p2");
    assert_eq!(groups[2].product.id, "p3");
    let urls: Vec<&str> = groups[1].images.iter().map(|i| i.url.as_str()).collect();
    assert_eq!(urls, vec!["b.jpg", "c.jpg"]);
    assert_eq!(groups[0].images.len(), 1);
    assert!(groups[2].images.is_empty());
    let ids: Vec<&str> = groups[1].entries.iter().map(|e| e.variant.id.as_str()).collect();
    assert_eq!(ids, vec!["v1", "v3"]);
    assert_eq!(groups[1].entries[0].available, Some(9));
    assert_eq!(groups[1].entries[1].available, Some(7));
    let v3: Vec<&str> = groups[1].entries[1].images.iter().map(|i| i.url.as_str()).collect();
    assert_eq!(v3, vec!["v3.jpg", "v3b.jpg"]);
    assert_eq!(groups[0].entries.len(), 1);
    assert_eq!(groups[0].entries[0].available, None);
    assert!(groups[0].entries[0].images.is_empty());
    assert!(groups[2].entries.is_empty());
}
