//! A domain-scoped, breadth-first crawl engine.
//!
//! The library holds the logic of the crawler: the per-host visited store,
//! the dispatch decision that turns incoming requests into URLs that must be
//! fetched, the anchor-link extraction policy over parsed markup, and the
//! admission-controlled pipeline state. Network I/O and the HTTP control
//! surface live outside the library and hand it plain values.

pub mod urls;
pub mod store;
pub mod dispatch;
pub mod extract;
pub mod pipeline;
pub mod query;
