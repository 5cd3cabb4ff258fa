//! Paginated product-listing scraping: page URLs, per-source extraction,
//! best-effort enrichment, progress counters and the run's bookkeeping.

pub mod config;
pub mod dom;
pub mod number;
pub mod orchestrator;
pub mod pattern;
pub mod providers;
pub mod sheet;
pub mod status;
pub mod text;
pub mod uploader;
pub mod versioning;
