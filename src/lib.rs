//! Cursor-following traversal of a paginated wiki REST collection: content
//! pages, and for each content item and media type, its attachment pages.
//!
//! The library holds the decisions of the crawl as state machines whose
//! transitions are stated as spec functions; the caller performs each
//! requested fetch and hands the decoded page (or the failure) back.
pub mod model;
pub mod text;
pub mod site;
pub mod pager;
pub mod crawl;
