//! What the marketplace's retailer interface is told: offers, product
//! content, and the requests that carry them.

pub mod api;
pub mod types;
