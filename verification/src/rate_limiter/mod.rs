//! Request rate limiting: policy parsing, per-key fixed windows, and the
//! choice of key, limit and response for each request.
pub mod policy;
pub mod window;
pub mod request;
pub mod store;
