use stateset_core::decimal::DecimalValue;
use stateset_core::feed::catalog::{
    decimal_to_string, extract_option_attributes, format_decimal_money, resolve_catalog_images,
    transform_catalog_variant, CatalogImage, CatalogProduct, CatalogVariant,
};
use stateset_core::feed::markup::{escape_field, generate_product_handle, parse_next_link, strip_html};
use stateset_core::feed::options::{
    build_product_links, canonicalize_domain, check_checkout_policies, derive_default_seller_name,
    NormalizedFeedOptions, ProductFeedFormat, ProductFeedOptions,
};
use stateset_core::feed::shopify::{
    transform_shopify_variant, ShopifyImage, ShopifyOption, ShopifyProduct, ShopifyVariant,
};

fn d(mantissa: i128, scale: u32) -> DecimalValue {
    DecimalValue { mantissa, scale }
}

fn sample_product() -> ShopifyProduct {
    ShopifyProduct {
        id: Some(123),
        title: Some("Test Product".to_string()),
        handle: Some("test-product".to_string()),
        body_html: Some("<p>Great product</p>".to_string()),
        product_type: Some("General".to_string()),
        vendor: Some("Stateset".to_string()),
        tags: Some("tag1,tag2".to_string()),
        created_at: Some("2024-01-01T00:00:00Z".to_string()),
        updated_at: Some("2024-01-02T00:00:00Z".to_string()),
        variants: vec![ShopifyVariant {
            id: Some(456),
            title: Some("Default Title".to_string()),
            price: Some("19.99".to_string()),
            compare_at_price: Some("29.99".to_string()),
            weight_label: Some("1.5 lb".to_string()),
            sku: Some("SKU123".to_string()),
            barcode: Some("0123456789".to_string()),
            inventory_quantity: Some(10),
            option1: Some("Blue".to_string()),
            option2: Some("Large".to_string()),
            option3: Some("Gift Wrap".to_string()),
            requires_shipping: Some(true),
            image_id: Some(1),
        }],
        options: vec![
            ShopifyOption { name: Some("Color".to_string()) },
            ShopifyOption { name: Some("Size".to_string()) },
            ShopifyOption { name: Some("Extras".to_string()) },
        ],
        images: vec![
            ShopifyImage { id: Some(1), src: Some("https://example.com/primary.jpg".to_string()) },
            ShopifyImage { id: Some(2), src: Some("https://example.com/secondary.jpg".to_string()) },
        ],
        image: Some(ShopifyImage { id: Some(1), src: Some("https://example.com/primary.jpg".to_string()) }),
    }
}

fn feed_options() -> NormalizedFeedOptions {
    NormalizedFeedOptions {
        enable_search: true,
        enable_checkout: true,
        currency: "USD".to_string(),
        default_shipping_cost: "5.00".to_string(),
        seller_name: "Stateset".to_string(),
        seller_url: "https://mystore.myshopify.com".to_string(),
        product_base_url: Some("https://mystore.myshopify.com/products".to_string()),
        seller_privacy_policy: Some("https://example.com/privacy".to_string()),
        seller_tos: Some("https://example.com/tos".to_string()),
        return_policy: Some("https://example.com/returns".to_string()),
        return_window: 30,
    }
}

#[test]
fn normalize_options_enforces_defaults() {
    let options = ProductFeedOptions::default();
    let normalized = options.normalize(Some("mystore.myshopify.com"));
    assert!(normalized.enable_search);
    assert!(normalized.enable_checkout);
    assert_eq!(normalized.currency, "USD");
    assert_eq!(normalized.default_shipping_cost, "0.00");
    assert_eq!(normalized.seller_name, "mystore");
    assert_eq!(normalized.return_window, 30);
    assert_eq!(normalized.seller_url, "https://mystore.myshopify.com");
    assert_eq!(normalized.product_base_url, Some("https://mystore.myshopify.com/products".to_string()));
}

#[test]
fn normalize_without_a_domain_uses_merchant_local() {
    let normalized = ProductFeedOptions::default().normalize(None);
    assert_eq!(normalized.seller_url, "https://merchant.local");
}

#[test]
fn transform_variant_maps_fields() {
    let product = sample_product();
    let variant = product.variants.first().unwrap();
    let item = transform_shopify_variant(&product, variant, &feed_options());
    assert_eq!(item.id, "456");
    assert_eq!(item.title, "Test Product");
    assert_eq!(item.link, "https://mystore.myshopify.com/products/test-product");
    assert_eq!(item.availability, "in_stock");
    assert_eq!(item.image_link.unwrap(), "https://example.com/primary.jpg");
    assert_eq!(item.additional_image_link.unwrap(), "https://example.com/secondary.jpg");
    assert_eq!(item.price, "29.99 USD");
    assert_eq!(item.sale_price.unwrap(), "19.99 USD");
    assert_eq!(item.color.unwrap(), "Blue");
    assert_eq!(item.size.unwrap(), "Large");
    assert_eq!(item.offer_id.unwrap(), "test-product-456");
    assert_eq!(item.seller_name, "Stateset");
    assert_eq!(item.seller_url, "https://mystore.myshopify.com");
    assert_eq!(item.return_window.unwrap(), 30);
    assert_eq!(item.description.unwrap(), "Great product");
    assert_eq!(item.weight.unwrap(), "1.5 lb");
}

#[test]
fn generate_handle_from_name() {
    let id = uuid::Uuid::new_v4().to_string();
    let handle = generate_product_handle("My Great Product", &id);
    assert_eq!(handle, "my-great-product");
}

#[test]
fn generate_handle_fallbacks_to_uuid() {
    let id = uuid::Uuid::new_v4().to_string();
    let handle = generate_product_handle("!!!", &id);
    assert_eq!(handle, id);
}

#[test]
fn handles_collapse_separators() {
    assert_eq!(generate_product_handle("  Hello,  World!! ", "x"), "hello-world");
}

#[test]
fn html_is_stripped() {
    assert_eq!(strip_html("<p>Great <b>product</b></p>"), "Great product");
    assert_eq!(strip_html("a < b"), "a < b");
    assert_eq!(strip_html("no tags"), "no tags");
}

#[test]
fn fields_are_escaped_for_delimited_output() {
    assert_eq!(escape_field("plain", ','), "plain");
    assert_eq!(escape_field("a,b", ','), "\"a,b\"");
    assert_eq!(escape_field("say \"hi\"", '\t'), "\"say \"\"hi\"\"\"");
    assert_eq!(escape_field("two\nlines", ','), "\"two\nlines\"");
}

#[test]
fn next_page_link() {
    let header = "<https://x/products?page=1>; rel=\"previous\", <https://x/products?page=3>; rel=\"next\"";
    assert_eq!(parse_next_link(header), Some("https://x/products?page=3".to_string()));
    assert_eq!(parse_next_link("<https://x>; rel=\"previous\""), None);
}

#[test]
fn domains_and_seller_names() {
    assert_eq!(canonicalize_domain("https://shop.example.com/"), "shop.example.com");
    assert_eq!(canonicalize_domain("shop.example.com//"), "shop.example.com");
    assert_eq!(derive_default_seller_name("https://my-fancy_store.myshopify.com"), "my fancy store");
    assert_eq!(derive_default_seller_name(""), "merchant");
}

#[test]
fn product_links() {
    let mut o = feed_options();
    assert_eq!(
        build_product_links("h", "7", &o),
        (
            "https://mystore.myshopify.com/products/h".to_string(),
            "https://mystore.myshopify.com/products/h?variant=7".to_string()
        )
    );
    o.product_base_url = None;
    o.seller_url = "https://s.com/".to_string();
    assert_eq!(build_product_links("h", "7", &o).0, "https://s.com/products/h");
}

#[test]
fn checkout_requires_policies() {
    let mut o = feed_options();
    assert!(check_checkout_policies(&o).is_ok());
    o.seller_tos = None;
    assert!(check_checkout_policies(&o).is_err());
    o.enable_checkout = false;
    assert!(check_checkout_policies(&o).is_ok());
}

#[test]
fn feed_format_names() {
    assert_eq!(ProductFeedFormat::from_name("CSV").unwrap().name(), "csv");
    assert_eq!(ProductFeedFormat::default_format().name(), "json");
    assert_eq!(ProductFeedFormat::from_name("xml").unwrap_err(), "unsupported product feed format: xml");
}

#[test]
fn money_formatting() {
    assert_eq!(decimal_to_string(&d(5, 0)), "5.00");
    assert_eq!(decimal_to_string(&d(15, 1)), "1.50");
    assert_eq!(decimal_to_string(&d(12345, 3)), "12.34");
    assert_eq!(format_decimal_money(&d(1999, 2), "EUR"), "19.99 EUR");
}

#[test]
fn option_attributes_take_the_first_of_each() {
    let pairs = vec![
        ("Size".to_string(), "M".to_string()),
        ("Material".to_string(), "Wool".to_string()),
        ("COLOR".to_string(), "Red".to_string()),
        ("size".to_string(), "L".to_string()),
    ];
    let (color, size, category, option) = extract_option_attributes(&pairs);
    assert_eq!(color.as_deref(), Some("Red"));
    assert_eq!(size.as_deref(), Some("M"));
    assert_eq!(category.as_deref(), Some("Material"));
    assert_eq!(option.as_deref(), Some("Wool"));
}

fn image(url: &str, primary: bool) -> CatalogImage {
    CatalogImage { url: url.to_string(), is_primary: primary }
}

#[test]
fn catalog_images_prefer_primary_and_skip_duplicates() {
    let variant_images = vec![image("a", false), image("b", true)];
    let product_images = vec![image("b", false), image("c", false)];
    let (primary, extra) = resolve_catalog_images(&variant_images, &product_images);
    assert_eq!(primary.as_deref(), Some("b"));
    assert_eq!(extra.as_deref(), Some("a,c"));
    let (primary, extra) = resolve_catalog_images(&vec![], &vec![]);
    assert!(primary.is_none());
    assert!(extra.is_none());
}

#[test]
fn catalog_variant_entry() {
    let product = CatalogProduct {
        id: "p-1".to_string(),
        name: "Mug".to_string(),
        description: Some("<i>Big</i> mug".to_string()),
        weight_kg: Some(d(25, 2)),
        tags: Some("kitchen".to_string()),
        brand: Some("Acme".to_string()),
        is_digital: false,
        created_at: "2024-01-01T00:00:00Z".to_string(),
        updated_at: None,
    };
    let variant = CatalogVariant {
        id: "v-1".to_string(),
        name: "Blue Mug".to_string(),
        sku: "MUG-1".to_string(),
        price: d(1200, 2),
        compare_at_price: Some(d(1500, 2)),
        weight_label: None,
        inventory_tracking: true,
        options: vec![("Color".to_string(), "Blue".to_string())],
    };
    let item = transform_catalog_variant(&product, &variant, &vec![image("m.jpg", true)], &vec![], Some(3), 2, &feed_options());
    assert_eq!(item.id, "v-1");
    assert_eq!(item.description.as_deref(), Some("Big mug"));
    assert_eq!(item.price, "15.00 USD");
    assert_eq!(item.sale_price.as_deref(), Some("12.00 USD"));
    assert_eq!(item.weight.as_deref(), Some("0.25 kg"));
    assert_eq!(item.availability, "in_stock");
    assert_eq!(item.inventory_quantity, 3);
    assert_eq!(item.color.as_deref(), Some("Blue"));
    assert_eq!(item.image_link.as_deref(), Some("m.jpg"));
}

use stateset_core::feed::payload::{content_type_for, delimited_payload, field_name_list, FIELD_COUNT};
use stateset_core::feed::select::{collect_catalog_items, collect_shopify_items, CatalogEntry, CatalogGroup};

#[test]
fn format_parsing_and_default() {
    let f: ProductFeedFormat = "Tsv".parse().unwrap();
    assert_eq!(f, ProductFeedFormat::Tsv);
    assert!("yaml".parse::<ProductFeedFormat>().is_err());
    assert_eq!(ProductFeedFormat::default(), ProductFeedFormat::Json);
}

#[test]
fn delimited_payload_of_no_items() {
    assert_eq!(delimited_payload(&vec![], ','), (String::new(), "text/csv"));
    assert_eq!(content_type_for('\t'), "text/tab-separated-values");
    assert_eq!(content_type_for(';'), "text/plain");
}

#[test]
fn delimited_payload_has_sorted_columns_of_carried_fields() {
    let product = sample_product();
    let item = transform_shopify_variant(&product, &product.variants[0], &feed_options());
    let (body, content_type) = delimited_payload(&vec![item], ',');
    assert_eq!(content_type, "text/csv");
    let mut lines = body.lines();
    let header: Vec<&str> = lines.next().unwrap().split(',').collect();
    let mut sorted = header.clone();
    sorted.sort();
    assert_eq!(header, sorted);
    assert!(header.contains(&"price"));
    assert!(header.contains(&"enable_search"));
    assert!(header.contains(&"gtin"));
    assert!(!header.contains(&"material"));
    let row = lines.next().unwrap();
    assert!(row.contains("29.99 USD"));
    assert!(row.contains("\"tag1,tag2\""));
    assert!(lines.next().is_none());
    assert_eq!(field_name_list().len(), FIELD_COUNT);
}

#[test]
fn delimited_payload_uses_the_union_of_fields() {
    let product = sample_product();
    let mut a = transform_shopify_variant(&product, &product.variants[0], &feed_options());
    let mut b = a.clone();
    a.material = Some("111".to_string());
    b.material = None;
    b.id = "x\ty".to_string();
    let (body, content_type) = delimited_payload(&vec![a, b], '\t');
    assert_eq!(content_type, "text/tab-separated-values");
    let lines: Vec<&str> = body.split('\n').collect();
    assert_eq!(lines.len(), 3);
    let header: Vec<&str> = lines[0].split('\t').collect();
    assert!(header.contains(&"material"));
    let col = header.iter().position(|h| *h == "material").unwrap();
    assert_eq!(lines[1].split('\t').nth(col), Some("111"));
    assert!(lines[2].contains("\"x\ty\""));
}

#[test]
fn shopify_items_are_capped_after_adding() {
    let mut product = sample_product();
    let second = product.variants[0].clone();
    product.variants.push(second);
    let products = vec![product.clone(), product];
    assert_eq!(collect_shopify_items(&products, &feed_options(), None).len(), 4);
    assert_eq!(collect_shopify_items(&products, &feed_options(), Some(3)).len(), 3);
    assert_eq!(collect_shopify_items(&products, &feed_options(), Some(0)).len(), 1);
    assert_eq!(collect_shopify_items(&products, &feed_options(), Some(10)).len(), 4);
    assert_eq!(collect_shopify_items(&vec![], &feed_options(), Some(0)).len(), 0);
}

#[test]
fn catalog_items_follow_groups() {
    let product = CatalogProduct {
        id: "p-1".to_string(),
        name: "Mug".to_string(),
        description: None,
        weight_kg: None,
        tags: None,
        brand: None,
        is_digital: true,
        created_at: "2024-01-01T00:00:00Z".to_string(),
        updated_at: None,
    };
    let entry = |id: &str, available: Option<i32>| CatalogEntry {
        variant: CatalogVariant {
            id: id.to_string(),
            name: "Mug".to_string(),
            sku: format!("SKU-{}", id),
            price: d(500, 2),
            compare_at_price: None,
            weight_label: None,
            inventory_tracking: true,
            options: vec![],
        },
        images: vec![],
        available,
    };
    let groups = vec![
        CatalogGroup { product: product.clone(), images: vec![], entries: vec![entry("a", Some(2)), entry("b", None)] },
        CatalogGroup { product, images: vec![], entries: vec![] },
    ];
    let items = collect_catalog_items(&groups, &feed_options(), None);
    assert_eq!(items.len(), 2);
    assert_eq!(items[0].id, "a");
    assert_eq!(items[0].availability, "in_stock");
    assert_eq!(items[1].availability, "out_of_stock");
    assert_eq!(items[0].item_group_id.as_deref(), Some("p-1"));
    assert!(items[0].shipping.is_none());
    assert_eq!(collect_catalog_items(&groups, &feed_options(), Some(1)).len(), 1);
}

#[test]
fn handle_of_a_handle_is_itself() {
    let h = generate_product_handle("  Blue -- Widget_ XL!! ", "id-1");
    assert_eq!(h, "blue-widget-xl");
    assert_eq!(generate_product_handle(&h, "id-1"), h);
    assert!(h.chars().all(|c| c.is_ascii_lowercase() || c.is_ascii_digit() || c == '-'));
    let fallback = generate_product_handle("!!!", "Foo");
    assert_eq!(fallback, "Foo");
    assert_eq!(generate_product_handle(&fallback, "Foo"), "foo");
}
