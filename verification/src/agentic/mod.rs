//! Agent-driven checkout sessions: their life cycle, the validation of what
//! an agent submits, pricing of line items and totals, and the state changes
//! of creating, updating, completing and canceling a session.
pub mod fsm;
pub mod model;
pub mod validate;
pub mod pricing;
pub mod session;
pub mod complete;
pub mod laws;
pub mod replay;
