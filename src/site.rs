use vstd::prelude::*;
use crate::model::{Attachment, Content};
use crate::pager::{Pager, start};
use crate::text::{decimal, decimal_string};

verus! {

/// The REST root: the origin, a slash, and the API path.
pub open spec fn api_root(base: Seq<char>, rest: Seq<char>) -> Seq<char> {
    base + "/"@ + rest
}

/// First page of the content listing: current pages with their space
/// expanded, `limit` per page, from the start.
pub open spec fn content_start(base: Seq<char>, rest: Seq<char>, limit: nat) -> Seq<char> {
    api_root(base, rest) + "/content?type=page&expand=space&limit="@ + decimal(limit)
        + "&status=current&start=0"@
}

/// First page of the attachments of content `id` with media type `media`.
pub open spec fn attachment_start(
    base: Seq<char>,
    rest: Seq<char>,
    id: Seq<char>,
    media: Seq<char>,
    limit: nat,
) -> Seq<char> {
    api_root(base, rest) + "/content/"@ + id + "/child/attachment?limit="@ + decimal(limit)
        + "&mediaType="@ + media
}

/// The request URL for a server-supplied relative cursor: the origin
/// followed by the fragment exactly as given.
pub open spec fn stitched(base: Seq<char>, fragment: Seq<char>) -> Seq<char> {
    base + fragment
}

/// The output line of one matched attachment:
/// `"space/content/attachment" download-url raw-data-url`.
pub open spec fn record(base: Seq<char>, rest: Seq<char>, c: Content, a: Attachment) -> Seq<char> {
    "\""@ + c.space.key@ + "/"@ + c.title@ + "/"@ + a.title@ + "\" "@ + base
        + a.links.download@ + " "@ + api_root(base, rest) + "/content/"@ + c.id@
        + "/child/attachment/"@ + a.id@ + "/data"@
}

/// A wiki site: its origin (`https://host`) and its REST API path.
pub struct Confluence {
    pub base_url: String,
    pub rest_api_url: String,
}

impl Confluence {
    pub fn new(base_url: &str, rest_api_url: &str) -> (r: Self)
        ensures
            r.base_url@ == base_url@,
            r.rest_api_url@ == rest_api_url@,
    {
        Confluence { base_url: base_url.to_owned(), rest_api_url: rest_api_url.to_owned() }
    }

    pub open spec fn root(&self) -> Seq<char> {
        api_root(self.base_url@, self.rest_api_url@)
    }

    pub fn api_url(&self) -> (r: String)
        ensures
            r@ == self.root(),
    {
        let mut s = self.base_url.clone();
        s.append("/");
        s.append(self.rest_api_url.as_str());
        s
    }

    /// URL of the first page of the content listing.
    pub fn content_start_url(&self, limit: u32) -> (r: String)
        ensures
            r@ == content_start(self.base_url@, self.rest_api_url@, limit as nat),
    {
        let mut s = self.api_url();
        s.append("/content?type=page&expand=space&limit=");
        let n = decimal_string(limit);
        s.append(n.as_str());
        s.append("&status=current&start=0");
        s
    }

    /// URL of the first page of the attachments of one content item,
    /// filtered by one media type.
    pub fn attachment_start_url(&self, content_id: &str, media_type: &str, limit: u32) -> (r:
        String)
        ensures
            r@ == attachment_start(
                self.base_url@,
                self.rest_api_url@,
                content_id@,
                media_type@,
                limit as nat,
            ),
    {
        let mut s = self.api_url();
        s.append("/content/");
        s.append(content_id);
        s.append("/child/attachment?limit=");
        let n = decimal_string(limit);
        s.append(n.as_str());
        s.append("&mediaType=");
        s.append(media_type);
        s
    }

    /// The walk over all attachments of one content item with one media
    /// type, `limit` per page, from the first page.
    pub fn attachment_walk(&self, content_id: &str, media_type: &str, limit: u32) -> (r: Pager<
        Attachment,
    >)
        ensures
            r@ == start::<Attachment>(
                self.base_url@,
                attachment_start(
                    self.base_url@,
                    self.rest_api_url@,
                    content_id@,
                    media_type@,
                    limit as nat,
                ),
            ),
    {
        let url = self.attachment_start_url(content_id, media_type, limit);
        Pager::new(self.base_url.as_str(), url)
    }

    /// The absolute URL for a relative "next" cursor.
    pub fn next_url(&self, fragment: &str) -> (r: String)
        ensures
            r@ == stitched(self.base_url@, fragment@),
    {
        let mut s = self.base_url.clone();
        s.append(fragment);
        s
    }

    /// The output line for attachment `a` of content `c`.
    pub fn record_line(&self, c: &Content, a: &Attachment) -> (r: String)
        ensures
            r@ == record(self.base_url@, self.rest_api_url@, *c, *a),
    {
        let mut s = String::from_str("\"");
        s.append(c.space.key.as_str());
        s.append("/");
        s.append(c.title.as_str());
        s.append("/");
        s.append(a.title.as_str());
        s.append("\" ");
        s.append(self.base_url.as_str());
        s.append(a.links.download.as_str());
        s.append(" ");
        let root = self.api_url();
        s.append(root.as_str());
        s.append("/content/");
        s.append(c.id.as_str());
        s.append("/child/attachment/");
        s.append(a.id.as_str());
        s.append("/data");
        s
    }
}

} // verus!
