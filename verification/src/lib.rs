//! Discovers, for a given module identifier in a package index, the set of
//! distinct root modules that import it: a listing page is parsed into raw
//! import paths, each path is resolved (under bounded concurrency) to the
//! root module named in its page's breadcrumb, and the successes are
//! collected into a deduplicated result set.
//!
//! The crate holds the logic of that pipeline — extraction, resolution,
//! deduplication, admission control and the presentation filter — with
//! contracts; the network fetches and the terminal output live outside it.

pub mod coordinator;
pub mod extract;
pub mod resolve;
pub mod results;
pub mod text;
