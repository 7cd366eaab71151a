//! A single-host site mirroring library.
//!
//! Given a seed URL, the crawler walks the site depth-first, fetching each
//! distinct in-scope URL at most once, and maps every fetched URL to a local
//! file path that mirrors the URL's path structure. Fetching and writing are
//! left to the caller; this crate holds the traversal state machine, the
//! scope and deduplication rules, the link extraction and the path mapping.

pub mod text;

pub mod paths;

pub mod urls;

pub mod extract;

pub mod crawler;
