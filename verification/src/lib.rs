//! Content snapshot engine for a precompiled static site.
//!
//! The library builds an immutable snapshot of all site content (page
//! records, prerendered HTML, and a derived full-text search index) from
//! per-page artifacts, publishes it atomically through a state store, and
//! answers substring search queries with snippet extraction.

pub mod assets;
pub mod cards;
pub mod env;
pub mod frontmatter;
pub mod nonce;
pub mod posts;
pub mod render;
pub mod routes;
pub mod search;
pub mod sitemap;
pub mod state;
pub mod store;
pub mod text;
pub mod trigger;
pub mod trusted;
