//! A link-preview service's core for a fiction-archive site: it models a
//! work's page as a document tree, extracts a fixed schema of metadata from
//! it (all-or-nothing, with a small `count[/total]` chapter grammar), keeps
//! extracted records in a bounded cache, and decides for each request
//! whether to serve a rendered, minified preview (to crawlers) or a
//! redirect to the origin (to people, and whenever anything fails).

pub mod chapters;
pub mod markup;
pub mod cache;
pub mod encode;
pub mod meta;
pub mod routes;
pub mod template;
pub mod text;

use vstd::prelude::*;

verus! {

/// The compact tuple of work metadata that an embed descriptor is derived
/// from; carried through an embed URL and never stored.
pub struct EmbedRequest {
    pub id: u64,
    pub author: String,
    pub words: u64,
    pub chapters: u16,
    pub total_chapters: String,
    pub date: String,
}

} // verus!
