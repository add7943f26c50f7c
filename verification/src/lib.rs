//! A verified same-domain link crawler core.
//!
//! Starting from a seed URL, the crawl follows same-host hyperlinks up to a
//! bounded depth and reports the HTTP reachability of every discovered
//! link. The traversal — breadth-first discovery, URL resolution, host
//! scoping, deduplication, and the HEAD-then-GET liveness policy — lives
//! here as a verified state machine; the caller performs the network
//! requests it asks for and hands back their outcomes.

pub mod crawler;
pub mod html;
pub mod urls;

pub use crawler::{Action, CrawlError, Crawler, Event, LinkResult};
