//! The product catalog: product records, their updates, and search paging.
use vstd::prelude::*;
use crate::decimal::DecimalValue;
use crate::text::{concat, concat3};

verus! {

/// Results per page when none is asked for.
pub const DEFAULT_LIMIT: u64 = 20;
/// The most results a page holds.
pub const MAX_LIMIT: u64 = 100;

#[derive(Debug, Clone)]
pub struct ProductSearchQuery {
    pub search: Option<String>,
    pub is_active: Option<bool>,
    pub limit: Option<u64>,
    pub offset: Option<u64>,
}

/// A catalog product.
#[derive(Debug, Clone)]
pub struct ProductRecord {
    pub id: String,
    pub name: String,
    pub description: Option<String>,
    pub sku: String,
    pub price: DecimalValue,
    pub currency: String,
    pub is_active: bool,
    pub is_digital: bool,
    pub image_url: Option<String>,
    pub brand: Option<String>,
    pub manufacturer: Option<String>,
    pub weight_kg: Option<DecimalValue>,
    pub dimensions_cm: Option<String>,
    pub tags: Option<String>,
    pub cost_price: Option<DecimalValue>,
    pub msrp: Option<DecimalValue>,
    pub tax_rate: Option<DecimalValue>,
    pub meta_title: Option<String>,
    pub meta_description: Option<String>,
    pub reorder_point: Option<i32>,
}

/// A page of products and how many match in all.
#[derive(Debug, Clone)]
pub struct ProductSearchResult {
    pub products: Vec<ProductRecord>,
    pub total: u64,
}

#[derive(Debug, Clone)]
pub struct CreateProductInput {
    pub name: String,
    pub sku: String,
    pub description: Option<String>,
    pub price: DecimalValue,
    pub currency: String,
    pub is_active: bool,
    pub is_digital: bool,
    pub image_url: Option<String>,
    pub brand: Option<String>,
    pub manufacturer: Option<String>,
    pub weight_kg: Option<DecimalValue>,
    pub dimensions_cm: Option<String>,
    pub tags: Option<String>,
    pub cost_price: Option<DecimalValue>,
    pub msrp: Option<DecimalValue>,
    pub tax_rate: Option<DecimalValue>,
    pub meta_title: Option<String>,
    pub meta_description: Option<String>,
    pub reorder_point: Option<i32>,
}

#[derive(Debug, Clone)]
pub struct UpdateProductInput {
    pub name: Option<String>,
    pub sku: Option<String>,
    pub description: Option<String>,
    pub price: Option<DecimalValue>,
    pub currency: Option<String>,
    pub is_active: Option<bool>,
    pub is_digital: Option<bool>,
    pub image_url: Option<String>,
    pub brand: Option<String>,
    pub manufacturer: Option<String>,
    pub weight_kg: Option<DecimalValue>,
    pub dimensions_cm: Option<String>,
    pub tags: Option<String>,
    pub cost_price: Option<DecimalValue>,
    pub msrp: Option<DecimalValue>,
    pub tax_rate: Option<DecimalValue>,
    pub meta_title: Option<String>,
    pub meta_description: Option<String>,
    pub reorder_point: Option<i32>,
}

/// The pattern a search term is matched with: `%term%`.
pub fn search_pattern(search: &str) -> (s: String)
    ensures
        s@ == "%"@ + search@ + "%"@,
{
    concat3("%", search, "%")
}

/// The page of a search: the limit asked for (20 by default) but at most
/// 100, and the offset asked for (0 by default).
pub fn page_bounds(query: &ProductSearchQuery) -> (r: (u64, u64))
    ensures
        r.0 == (match query.limit {
            Some(l) => if l < 100 { l } else { 100 },
            None => 20,
        }),
        r.1 == (match query.offset {
            Some(o) => o,
            None => 0,
        }),
{
    let requested = match query.limit {
        Some(l) => l,
        None => DEFAULT_LIMIT,
    };
    let limit = if requested < MAX_LIMIT { requested } else { MAX_LIMIT };
    let offset = match query.offset {
        Some(o) => o,
        None => 0,
    };
    (limit, offset)
}

/// A new product from its input.
pub fn new_product(id: String, input: CreateProductInput) -> (p: ProductRecord)
    ensures
        p.id == id,
        p.name == input.name && p.sku == input.sku && p.description == input.description,
        p.price == input.price && p.currency == input.currency,
        p.is_active == input.is_active && p.is_digital == input.is_digital,
        p.image_url == input.image_url && p.brand == input.brand && p.manufacturer == input.manufacturer,
        p.weight_kg == input.weight_kg && p.dimensions_cm == input.dimensions_cm && p.tags == input.tags,
        p.cost_price == input.cost_price && p.msrp == input.msrp && p.tax_rate == input.tax_rate,
        p.meta_title == input.meta_title && p.meta_description == input.meta_description,
        p.reorder_point == input.reorder_point,
{
    ProductRecord {
        id,
        name: input.name,
        description: input.description,
        sku: input.sku,
        price: input.price,
        currency: input.currency,
        is_active: input.is_active,
        is_digital: input.is_digital,
        image_url: input.image_url,
        brand: input.brand,
        manufacturer: input.manufacturer,
        weight_kg: input.weight_kg,
        dimensions_cm: input.dimensions_cm,
        tags: input.tags,
        cost_price: input.cost_price,
        msrp: input.msrp,
        tax_rate: input.tax_rate,
        meta_title: input.meta_title,
        meta_description: input.meta_description,
        reorder_point: input.reorder_point,
    }
}

/// `new` when given, `old` otherwise.
pub open spec fn or_keep<T>(new: Option<T>, old: T) -> T {
    match new {
        Some(v) => v,
        None => old,
    }
}

/// `Some(new)` when given, `old` otherwise.
pub open spec fn or_keep_opt<T>(new: Option<T>, old: Option<T>) -> Option<T> {
    match new {
        Some(v) => Some(v),
        None => old,
    }
}

/// A product with every field the update gives replaced.
pub fn apply_product_update(product: ProductRecord, input: UpdateProductInput) -> (p: ProductRecord)
    ensures
        p.id == product.id,
        p.name == or_keep(input.name, product.name),
        p.description == or_keep_opt(input.description, product.description),
        p.sku == or_keep(input.sku, product.sku),
        p.price == or_keep(input.price, product.price),
        p.currency == or_keep(input.currency, product.currency),
        p.is_active == or_keep(input.is_active, product.is_active),
        p.is_digital == or_keep(input.is_digital, product.is_digital),
        p.image_url == or_keep_opt(input.image_url, product.image_url),
        p.brand == or_keep_opt(input.brand, product.brand),
        p.manufacturer == or_keep_opt(input.manufacturer, product.manufacturer),
        p.weight_kg == or_keep_opt(input.weight_kg, product.weight_kg),
        p.dimensions_cm == or_keep_opt(input.dimensions_cm, product.dimensions_cm),
        p.tags == or_keep_opt(input.tags, product.tags),
        p.cost_price == or_keep_opt(input.cost_price, product.cost_price),
        p.msrp == or_keep_opt(input.msrp, product.msrp),
        p.tax_rate == or_keep_opt(input.tax_rate, product.tax_rate),
        p.meta_title == or_keep_opt(input.meta_title, product.meta_title),
        p.meta_description == or_keep_opt(input.meta_description, product.meta_description),
        p.reorder_point == or_keep_opt(input.reorder_point, product.reorder_point),
{
    ProductRecord {
        id: product.id,
        name: match input.name {
            Some(v) => v,
            None => product.name,
        },
        description: match input.description {
            Some(v) => Some(v),
            None => product.description,
        },
        sku: match input.sku {
            Some(v) => v,
            None => product.sku,
        },
        price: match input.price {
            Some(v) => v,
            None => product.price,
        },
        currency: match input.currency {
            Some(v) => v,
            None => product.currency,
        },
        is_active: match input.is_active {
            Some(v) => v,
            None => product.is_active,
        },
        is_digital: match input.is_digital {
            Some(v) => v,
            None => product.is_digital,
        },
        image_url: match input.image_url {
            Some(v) => Some(v),
            None => product.image_url,
        },
        brand: match input.brand {
            Some(v) => Some(v),
            None => product.brand,
        },
        manufacturer: match input.manufacturer {
            Some(v) => Some(v),
            None => product.manufacturer,
        },
        weight_kg: match input.weight_kg {
            Some(v) => Some(v),
            None => product.weight_kg,
        },
        dimensions_cm: match input.dimensions_cm {
            Some(v) => Some(v),
            None => product.dimensions_cm,
        },
        tags: match input.tags {
            Some(v) => Some(v),
            None => product.tags,
        },
        cost_price: match input.cost_price {
            Some(v) => Some(v),
            None => product.cost_price,
        },
        msrp: match input.msrp {
            Some(v) => Some(v),
            None => product.msrp,
        },
        tax_rate: match input.tax_rate {
            Some(v) => Some(v),
            None => product.tax_rate,
        },
        meta_title: match input.meta_title {
            Some(v) => Some(v),
            None => product.meta_title,
        },
        meta_description: match input.meta_description {
            Some(v) => Some(v),
            None => product.meta_description,
        },
        reorder_point: match input.reorder_point {
            Some(v) => Some(v),
            None => product.reorder_point,
        },
    }
}

/// `SKU <sku> already exists`: a SKU held by another product.
pub fn sku_taken_message(sku: &str) -> (s: String)
    ensures
        s@ == "SKU "@ + sku@ + " already exists"@,
{
    concat3("SKU ", sku, " already exists")
}

/// `Product <id> not found`.
pub fn product_not_found_message(id: &str) -> (s: String)
    ensures
        s@ == "Product "@ + id@ + " not found"@,
{
    concat3("Product ", id, " not found")
}

/// `Product variant <id> not found`.
pub fn variant_not_found_message(id: &str) -> (s: String)
    ensures
        s@ == "Product variant "@ + id@ + " not found"@,
{
    concat3("Product variant ", id, " not found")
}

/// `Product variant with SKU <sku> not found`.
pub fn variant_sku_not_found_message(sku: &str) -> (s: String)
    ensures
        s@ == "Product variant with SKU "@ + sku@ + " not found"@,
{
    concat3("Product variant with SKU ", sku, " not found")
}

/// The cache message announcing a deleted variant.
pub fn variant_deleted_message(id: &str) -> (s: String)
    ensures
        s@ == "product_variant_deleted:"@ + id@,
{
    concat("product_variant_deleted:", id)
}

} // verus!
