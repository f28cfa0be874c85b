//! Product feeds for agentic commerce: options, the shaping of Shopify and
//! catalog variants into feed items, and the text encodings of a feed.
pub mod options;
pub mod markup;
pub mod shopify;
pub mod catalog;
pub mod payload;
pub mod select;
pub mod group;
