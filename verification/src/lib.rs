//! Photojournalism: extracts the best photograph from syndicated news feed
//! items, caches the results per feed, and serves them as a deterministically
//! shuffled, paginated stream.

pub mod cache;
pub mod parser;
pub mod server;
pub mod shuffler;
pub mod strutil;
