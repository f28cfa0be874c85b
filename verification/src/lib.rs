//! Verified core of a commerce back office: request rate limiting, checkout
//! flows, inventory balances, ledger postings and product feed shaping.
pub mod text;
pub mod num;
pub mod clock;
pub mod decimal;
pub mod rate_limiter;
pub mod agentic;
pub mod feed;
pub mod inventory;
pub mod checkout_flow;
pub mod accounting;
pub mod customers;
pub mod catalog;
pub mod cart;
pub mod queries;
pub mod bom;
pub mod analytics;
pub mod asn;
