//! Sitemap crawler and page archive with selector queries over archived HTML.
//!
//! The library holds the entity store (sites, crawls, archived pages, queries
//! and result rows, with cascading deletes), the crawl orchestration as a
//! state machine that an async driver runs, and the query engine that counts
//! selector matches in archived pages.
pub mod clock;
pub mod entities;
pub mod fetch;
pub mod error;
pub mod store;
pub mod query;
pub mod crawl;
pub mod sitemap;
pub mod application;
pub mod laws;

pub use application::Application;
pub use crawl::CrawlResult;
