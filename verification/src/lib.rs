//! A breadth-first web crawler core that harvests image addresses.
//!
//! The crate holds the crawl engine's decisions: how a raw reference becomes
//! a fetchable target, which references a page's markup holds, the frontier's
//! queue-and-seen discipline, the set of collected image addresses, the
//! page-visit budget that stops the traversal, and what the image downloader
//! keeps. Network and file-system work is left to the caller, which performs
//! the actions that the engine hands out and reports back what it got.

pub mod text;
pub mod target;
pub mod markup;
pub mod frontier;
pub mod collector;
pub mod download;
pub mod crawl;
