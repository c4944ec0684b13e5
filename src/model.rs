use vstd::prelude::*;

verus! {

/// The logical partition a content item belongs to.
pub struct Space {
    pub id: u32,
    pub key: String,
}

/// Relative web link of a content item.
pub struct WebuiLink {
    pub webui: String,
}

/// A top-level item of the content collection.
pub struct Content {
    pub id: String,
    pub space: Space,
    pub title: String,
    pub links: WebuiLink,
}

/// Relative download link of an attachment.
pub struct AttachmentLink {
    pub download: String,
}

/// A file-like sub-resource of a content item.
pub struct Attachment {
    pub id: String,
    pub title: String,
    pub links: AttachmentLink,
}

/// Pagination metadata of a page: the relative cursor of the next page, if
/// any, and the server's base origin.
pub struct Link {
    pub next: Option<String>,
    pub base: String,
}

/// One server-returned batch of items with its pagination metadata.
pub struct Page<T> {
    pub results: Vec<T>,
    pub links: Link,
}

pub type ContentResponse = Page<Content>;

pub type AttachmentResponse = Page<Attachment>;

/// What the traversal reads of a page: its items in order and its cursor.
pub ghost struct PageView<T> {
    pub items: Seq<T>,
    pub next: Option<Seq<char>>,
}

pub open spec fn opt_view(o: Option<String>) -> Option<Seq<char>> {
    match o {
        Some(s) => Some(s@),
        None => None,
    }
}

impl<T> View for Page<T> {
    type V = PageView<T>;

    open spec fn view(&self) -> PageView<T> {
        PageView { items: self.results@, next: opt_view(self.links.next) }
    }
}

/// Why a single request failed.
pub enum FetchError {
    /// Connection, name resolution or timeout failure.
    Transport(String),
    /// A status other than 200, with the body text (or a placeholder).
    Http(u16, String),
    /// A body that does not have the expected shape.
    Decode(String),
}

/// A failed request of the crawl: the URL that was attempted and the cause.
pub struct CrawlError {
    pub url: String,
    pub cause: FetchError,
}

} // verus!
