//! Inventory balances per item and location, and the movements of stock
//! that sales orders and purchase receipts cause.
pub mod balance;
pub mod batch;
pub mod stock;
pub mod laws;
pub mod ids;
pub mod snapshot;
