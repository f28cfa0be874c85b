//! Parameters of read-only queries over the order, inventory, returns,
//! warranty and work-order tables.
use vstd::prelude::*;

verus! {

/// The inventory of one product.
#[derive(Debug, Clone, Copy, PartialEq, Eq, Structural)]
pub struct GetProductInventoryQuery {
    pub product_id: i32,
}

/// Products whose stock is below a threshold.
#[derive(Debug, Clone, Copy, PartialEq, Eq, Structural)]
pub struct GetLowStockProductsQuery {
    pub threshold: i32,
}

/// A page of pending returns.
#[derive(Debug, Clone, Copy, PartialEq, Eq, Structural)]
pub struct GetPendingReturnsQuery {
    pub limit: i64,
    pub offset: i64,
}

/// A customer's warranties that have not expired.
#[derive(Debug, Clone, Copy, PartialEq, Eq, Structural)]
pub struct GetActiveWarrantiesQuery {
    pub customer_id: i32,
}

/// A page of open work orders.
#[derive(Debug, Clone, Copy, PartialEq, Eq, Structural)]
pub struct GetOpenWorkOrdersQuery {
    pub limit: i64,
    pub offset: i64,
}

/// Whether a stock quantity counts as low against a threshold.
pub fn is_low_stock(query: &GetLowStockProductsQuery, quantity: i32) -> (r: bool)
    ensures
        r == (quantity < query.threshold),
{
    quantity < query.threshold
}

} // verus!
