use vstd::prelude::*;
use crate::model::{Attachment, Content, CrawlError, FetchError, Page, PageView};
use crate::pager::{Pager, PagerState, chained, flatten, start, step, walk};
use crate::site::{Confluence, attachment_start, content_start, record, stitched};

verus! {

/// What the crawl is waiting for.
#[derive(Clone, Copy, PartialEq, Eq, Structural)]
pub enum Phase {
    /// The content page at the content URL.
    Contents,
    /// The next page of the current attachment walk.
    Attachments,
    /// Every content page has been processed.
    Finished,
    /// A request failed; the crawl was aborted.
    Failed,
}

/// The request the caller is to perform next, or why there is none.
pub enum Action {
    FetchContents(String),
    FetchAttachments(String),
    Finished,
    Failed,
}

/// Where the crawl stands. `contents` is the current content page,
/// `ci` the content item and `mi` the media type whose attachments are
/// being walked.
pub ghost struct CrawlState {
    pub base: Seq<char>,
    pub rest: Seq<char>,
    pub media: Seq<Seq<char>>,
    pub limit: nat,
    pub phase: Phase,
    pub content_url: Seq<char>,
    pub content_next: Option<Seq<char>>,
    pub contents: Seq<Content>,
    pub ci: nat,
    pub mi: nat,
    pub walk: PagerState<Attachment>,
    pub error: Option<(Seq<char>, FetchError)>,
}

/// While attachments are walked, the position names an existing content
/// item and media type, and the walk is under way from the site's origin.
pub open spec fn inv(s: CrawlState) -> bool {
    s.phase == Phase::Attachments ==> {
        &&& s.ci < s.contents.len()
        &&& s.mi < s.media.len()
        &&& s.walk.origin == s.base
        &&& !s.walk.done
    }
}

/// A crawl that has fetched nothing: it asks for the first content page.
pub open spec fn initial(base: Seq<char>, rest: Seq<char>, media: Seq<Seq<char>>, limit: nat) -> CrawlState {
    CrawlState {
        base,
        rest,
        media,
        limit,
        phase: Phase::Contents,
        content_url: content_start(base, rest, limit),
        content_next: None,
        contents: Seq::empty(),
        ci: 0,
        mi: 0,
        walk: start(base, Seq::empty()),
        error: None,
    }
}

/// The first URL of the attachment walk at the current position.
pub open spec fn walk_url(s: CrawlState) -> Seq<char> {
    attachment_start(s.base, s.rest, s.contents[s.ci as int].id@, s.media[s.mi as int], s.limit)
}

/// From a position in the current content page, the next request: the walk
/// at that position if there is one, else the next content page if the page
/// had a cursor, else the end.
pub open spec fn settle(s: CrawlState) -> CrawlState {
    if s.ci < s.contents.len() && s.mi < s.media.len() {
        CrawlState { phase: Phase::Attachments, walk: start(s.base, walk_url(s)), ..s }
    } else {
        match s.content_next {
            Some(f) => CrawlState { phase: Phase::Contents, content_url: stitched(s.base, f), ..s },
            None => CrawlState { phase: Phase::Finished, ..s },
        }
    }
}

/// Taking in a content page: its items are walked from the first item and
/// the first media type.
pub open spec fn on_contents(s: CrawlState, p: PageView<Content>) -> CrawlState {
    if s.phase != Phase::Contents {
        s
    } else {
        settle(CrawlState { contents: p.items, content_next: p.next, ci: 0, mi: 0, ..s })
    }
}

/// The position after `(ci, mi)`: the next media type of the same content
/// item, or the first media type of the next item.
pub open spec fn successor(ci: nat, mi: nat, n_media: nat) -> (nat, nat) {
    if mi + 1 < n_media {
        (ci, mi + 1)
    } else {
        (ci + 1, 0)
    }
}

/// The output lines of attachments `atts` of content `c`, in order.
pub open spec fn records(base: Seq<char>, rest: Seq<char>, c: Content, atts: Seq<Attachment>) -> Seq<Seq<char>> {
    atts.map_values(|a: Attachment| record(base, rest, c, a))
}

/// Taking in an attachment page: the walk goes on, or, when it ends, its
/// attachments are emitted in arrival order and the crawl moves to the
/// next position.
pub open spec fn on_attachments(s: CrawlState, p: PageView<Attachment>) -> (CrawlState, Seq<Seq<char>>) {
    if s.phase != Phase::Attachments {
        (s, Seq::empty())
    } else {
        let w = step(s.walk, p);
        if !w.done {
            (CrawlState { walk: w, ..s }, Seq::empty())
        } else {
            let next = successor(s.ci, s.mi, s.media.len());
            (
                settle(CrawlState { walk: w, ci: next.0, mi: next.1, ..s }),
                records(s.base, s.rest, s.contents[s.ci as int], w.items),
            )
        }
    }
}

/// The URL of the request under way.
pub open spec fn request(s: CrawlState) -> Seq<char> {
    if s.phase == Phase::Contents {
        s.content_url
    } else {
        s.walk.url
    }
}

/// A failed request aborts the crawl, recording the URL and the cause.
pub open spec fn on_failure(s: CrawlState, e: FetchError) -> CrawlState {
    if s.phase == Phase::Contents || s.phase == Phase::Attachments {
        CrawlState { phase: Phase::Failed, error: Some((request(s), e)), ..s }
    } else {
        s
    }
}

pub open spec fn string_views(strings: Seq<String>) -> Seq<Seq<char>> {
    strings.map_values(|t: String| t@)
}

/// The content/attachment crawl of one site, as a state machine: the caller
/// performs the request that `action` names and hands the result to
/// `on_contents`, `on_attachments` or `on_failure`.
pub struct Crawl {
    site: Confluence,
    media_types: Vec<String>,
    limit: u32,
    phase: Phase,
    content_url: String,
    content_next: Option<String>,
    contents: Vec<Content>,
    ci: usize,
    mi: usize,
    walk: Pager<Attachment>,
    error: Option<CrawlError>,
}

impl View for Crawl {
    type V = CrawlState;

    closed spec fn view(&self) -> CrawlState {
        CrawlState {
            base: self.site.base_url@,
            rest: self.site.rest_api_url@,
            media: string_views(self.media_types@),
            limit: self.limit as nat,
            phase: self.phase,
            content_url: self.content_url@,
            content_next: crate::model::opt_view(self.content_next),
            contents: self.contents@,
            ci: self.ci as nat,
            mi: self.mi as nat,
            walk: self.walk@,
            error: match self.error {
                Some(e) => Some((e.url@, e.cause)),
                None => None,
            },
        }
    }
}

impl Crawl {
    pub open spec fn wf(&self) -> bool {
        inv(self@)
    }

    /// A crawl of `site`, walking attachments of each media type in the
    /// given order, `limit` items per page.
    pub fn new(site: Confluence, media_types: Vec<String>, limit: u32) -> (r: Self)
        ensures
            r@ == initial(site.base_url@, site.rest_api_url@, string_views(media_types@), limit as nat),
            r.wf(),
    {
        let content_url = site.content_start_url(limit);
        let walk = Pager::new(site.base_url.as_str(), String::new());
        Crawl {
            site,
            media_types,
            limit,
            phase: Phase::Contents,
            content_url,
            content_next: None,
            contents: Vec::new(),
            ci: 0,
            mi: 0,
            walk,
            error: None,
        }
    }

    pub fn phase(&self) -> (r: Phase)
        ensures
            r == self@.phase,
    {
        self.phase
    }

    /// The recorded failure, once the crawl has failed.
    pub fn error(&self) -> (r: &Option<CrawlError>)
        ensures
            match *r {
                Some(e) => self@.error == Some((e.url@, e.cause)),
                None => self@.error is None,
            },
    {
        &self.error
    }

    /// The request to perform next.
    pub fn action(&self) -> (r: Action)
        ensures
            match r {
                Action::FetchContents(u) => self@.phase == Phase::Contents && u@ == self@.content_url,
                Action::FetchAttachments(u) => self@.phase == Phase::Attachments && u@ == self@.walk.url,
                Action::Finished => self@.phase == Phase::Finished,
                Action::Failed => self@.phase == Phase::Failed,
            },
    {
        match self.phase {
            Phase::Contents => Action::FetchContents(self.content_url.clone()),
            Phase::Attachments => Action::FetchAttachments(self.walk.url().clone()),
            Phase::Finished => Action::Finished,
            Phase::Failed => Action::Failed,
        }
    }

    fn settle(&mut self)
        ensures
            final(self)@ == settle(old(self)@),
            final(self).wf(),
    {
        if self.ci < self.contents.len() && self.mi < self.media_types.len() {
            self.walk = self.site.attachment_walk(
                self.contents[self.ci].id.as_str(),
                self.media_types[self.mi].as_str(),
                self.limit,
            );
            self.phase = Phase::Attachments;
        } else {
            match &self.content_next {
                Some(f) => {
                    self.content_url = self.site.next_url(f.as_str());
                    self.phase = Phase::Contents;
                },
                None => {
                    self.phase = Phase::Finished;
                },
            }
        }
    }

    /// The output lines of the walk's attachments for the current content item.
    fn walk_lines(&self) -> (lines: Vec<String>)
        requires
            self.ci < self.contents@.len(),
        ensures
            string_views(lines@) == records(
                self@.base,
                self@.rest,
                self@.contents[self@.ci as int],
                self@.walk.items,
            ),
    {
        let mut lines: Vec<String> = Vec::new();
        let items = self.walk.items();
        let content = &self.contents[self.ci];
        let ghost c = *content;
        let ghost base = self.site.base_url@;
        let ghost rest = self.site.rest_api_url@;
        let mut i: usize = 0;
        while i < items.len()
            invariant
                i <= items@.len(),
                lines@.len() == i,
                c == *content,
                base == self.site.base_url@,
                rest == self.site.rest_api_url@,
                forall|k: int| 0 <= k < i ==> #[trigger] lines@[k]@ == record(base, rest, c, items@[k]),
            decreases items@.len() - i,
        {
            let line = self.site.record_line(content, &items[i]);
            lines.push(line);
            i = i + 1;
        }
        assert(string_views(lines@) =~= records(base, rest, c, items@));
        lines
    }

    /// Takes in the content page fetched from the content URL.
    pub fn on_contents(&mut self, page: Page<Content>)
        requires
            old(self).wf(),
        ensures
            final(self)@ == on_contents(old(self)@, page@),
            final(self).wf(),
    {
        if self.phase != Phase::Contents {
            return;
        }
        let Page { results, links } = page;
        self.contents = results;
        self.content_next = links.next;
        self.ci = 0;
        self.mi = 0;
        self.settle();
    }

    /// Takes in the attachment page fetched from the walk's URL; returns the
    /// output lines of the walk if this page ended it.
    pub fn on_attachments(&mut self, page: Page<Attachment>) -> (lines: Vec<String>)
        requires
            old(self).wf(),
        ensures
            (final(self)@, string_views(lines@)) == on_attachments(old(self)@, page@),
            final(self).wf(),
    {
        let empty: Vec<String> = Vec::new();
        assert(string_views(empty@) =~= Seq::empty());
        if self.phase != Phase::Attachments {
            return empty;
        }
        self.walk.accept(page);
        if !self.walk.is_done() {
            return empty;
        }
        let lines = self.walk_lines();
        let n_media = self.media_types.len();
        assert(self.contents.len() == self.contents@.len());
        if self.mi + 1 < n_media {
            self.mi = self.mi + 1;
        } else {
            self.ci = self.ci + 1;
            self.mi = 0;
        }
        self.settle();
        lines
    }

    /// Records the failure of the request under way and aborts the crawl.
    pub fn on_failure(&mut self, cause: FetchError)
        requires
            old(self).wf(),
        ensures
            final(self)@ == on_failure(old(self)@, cause),
            final(self).wf(),
    {
        if self.phase == Phase::Contents {
            let url = self.content_url.clone();
            self.error = Some(CrawlError { url, cause });
            self.phase = Phase::Failed;
        } else if self.phase == Phase::Attachments {
            let url = self.walk.url().clone();
            self.error = Some(CrawlError { url, cause });
            self.phase = Phase::Failed;
        }
    }
}

/// Taking in a run of attachment pages, first to last, with the lines
/// each one emits, in order.
pub open spec fn feed(s: CrawlState, pages: Seq<PageView<Attachment>>) -> (CrawlState, Seq<Seq<char>>)
    decreases pages.len(),
{
    if pages.len() == 0 {
        (s, Seq::empty())
    } else {
        let first = on_attachments(s, pages[0]);
        let others = feed(first.0, pages.drop_first());
        (others.0, first.1 + others.1)
    }
}

/// An attachment walk emits one line per attachment of all its pages, in
/// arrival order, only once its last page is in; the crawl then goes on
/// to the next media type of the same content item, or to the first media
/// type of the next item, or past the content page.
pub proof fn lemma_walk_emits_in_order(s: CrawlState, pages: Seq<PageView<Attachment>>)
    requires
        inv(s),
        s.phase == Phase::Attachments,
        chained(pages),
    ensures
        feed(s, pages).1 == records(
            s.base,
            s.rest,
            s.contents[s.ci as int],
            s.walk.items + flatten(pages),
        ),
        feed(s, pages).0 == settle(
            CrawlState {
                walk: walk(s.walk, pages),
                ci: successor(s.ci, s.mi, s.media.len()).0,
                mi: successor(s.ci, s.mi, s.media.len()).1,
                ..s
            },
        ),
    decreases pages.len(),
{
    let first = on_attachments(s, pages[0]);
    let rest = pages.drop_first();
    if pages.len() == 1 {
        assert(rest.len() == 0);
        assert(feed(first.0, rest) == (first.0, Seq::<Seq<char>>::empty()));
        assert(walk(step(s.walk, pages[0]), rest) == step(s.walk, pages[0]));
        assert(flatten(rest) =~= Seq::<Attachment>::empty());
        assert(s.walk.items + flatten(pages) =~= s.walk.items + pages[0].items);
        assert(first.1 + Seq::<Seq<char>>::empty() =~= first.1);
    } else {
        assert(pages.len() >= 2);
        assert(pages[0].next is Some);
        assert forall|i: int| 0 <= i < rest.len() - 1 implies (#[trigger] rest[i]).next is Some by {
            assert(rest[i] == pages[i + 1]);
        }
        assert(rest.last() == pages.last());
        lemma_walk_emits_in_order(first.0, rest);
        assert(first.0.walk.items + flatten(rest) =~= s.walk.items + flatten(pages));
        assert(Seq::<Seq<char>>::empty() + feed(first.0, rest).1 =~= feed(first.0, rest).1);
    }
}

/// A failed request aborts the crawl with the URL of that request and the
/// cause; after it no content or attachment page is taken in and no line
/// is emitted.
pub proof fn lemma_failure_aborts(
    s: CrawlState,
    cause: FetchError,
    content_page: PageView<Content>,
    attachment_page: PageView<Attachment>,
    another: FetchError,
)
    requires
        s.phase == Phase::Contents || s.phase == Phase::Attachments,
    ensures
        on_failure(s, cause).phase == Phase::Failed,
        on_failure(s, cause).error == Some((request(s), cause)),
        s.phase == Phase::Attachments ==> request(s) == s.walk.url,
        on_contents(on_failure(s, cause), content_page) == on_failure(s, cause),
        on_attachments(on_failure(s, cause), attachment_page) == (
            on_failure(s, cause),
            Seq::<Seq<char>>::empty(),
        ),
        on_failure(on_failure(s, cause), another) == on_failure(s, cause),
{
}

/// Taking in a series of complete attachment walks, one after another,
/// with all the lines they emit, in order.
pub open spec fn feed_walks(s: CrawlState, walks: Seq<Seq<PageView<Attachment>>>) -> (CrawlState, Seq<Seq<char>>)
    decreases walks.len(),
{
    if walks.len() == 0 {
        (s, Seq::empty())
    } else {
        let first = feed(s, walks[0]);
        let others = feed_walks(first.0, walks.drop_first());
        (others.0, first.1 + others.1)
    }
}

/// `count` positions from `(ci, mi)` on, in content-then-media order, all
/// name content items of a page of `n` items.
pub open spec fn positions_within(n: nat, k: nat, ci: nat, mi: nat, count: nat) -> bool
    decreases count,
{
    count == 0 || (ci < n && positions_within(
        n,
        k,
        successor(ci, mi, k).0,
        successor(ci, mi, k).1,
        (count - 1) as nat,
    ))
}

/// The lines of a series of walks from position `(ci, mi)` on: for each
/// walk, in turn, the lines of all its attachments, in arrival order, for
/// the content item of its position; positions go through the media types
/// of one content item before the next item.
pub open spec fn walk_lines(
    base: Seq<char>,
    rest: Seq<char>,
    contents: Seq<Content>,
    k: nat,
    ci: nat,
    mi: nat,
    walks: Seq<Seq<PageView<Attachment>>>,
) -> Seq<Seq<char>>
    decreases walks.len(),
{
    if walks.len() == 0 {
        Seq::empty()
    } else {
        records(base, rest, contents[ci as int], flatten(walks[0])) + walk_lines(
            base,
            rest,
            contents,
            k,
            successor(ci, mi, k).0,
            successor(ci, mi, k).1,
            walks.drop_first(),
        )
    }
}

/// Across the nested walks of a content page, the output comes grouped by
/// content item in page order, then by media type in the given order, then
/// by attachment in arrival order.
pub proof fn lemma_walks_in_order(s: CrawlState, walks: Seq<Seq<PageView<Attachment>>>)
    requires
        inv(s),
        s.phase == Phase::Attachments,
        s.walk.items.len() == 0,
        positions_within(s.contents.len(), s.media.len(), s.ci, s.mi, walks.len()),
        forall|i: int| 0 <= i < walks.len() ==> chained(#[trigger] walks[i]),
    ensures
        feed_walks(s, walks).1 == walk_lines(
            s.base,
            s.rest,
            s.contents,
            s.media.len(),
            s.ci,
            s.mi,
            walks,
        ),
    decreases walks.len(),
{
    if walks.len() > 0 {
        assert(chained(walks[0]));
        lemma_walk_emits_in_order(s, walks[0]);
        let first = feed(s, walks[0]);
        let others = walks.drop_first();
        assert(s.walk.items + flatten(walks[0]) =~= flatten(walks[0]));
        assert(first.1 == records(s.base, s.rest, s.contents[s.ci as int], flatten(walks[0])));
        let next = successor(s.ci, s.mi, s.media.len());
        if others.len() > 0 {
            assert(positions_within(
                s.contents.len(),
                s.media.len(),
                next.0,
                next.1,
                (walks.len() - 1) as nat,
            ));
            assert(next.0 < s.contents.len());
            assert(next.1 < s.media.len());
            assert(first.0.phase == Phase::Attachments);
            assert(first.0.walk.items.len() == 0);
            assert forall|i: int| 0 <= i < others.len() implies chained(#[trigger] others[i]) by {
                assert(others[i] == walks[i + 1]);
            }
            lemma_walks_in_order(first.0, others);
            assert(first.0.ci == next.0 && first.0.mi == next.1);
            assert(first.0.contents == s.contents && first.0.media == s.media);
            assert(first.0.base == s.base && first.0.rest == s.rest);
            assert(feed_walks(first.0, others).1 == walk_lines(
                s.base,
                s.rest,
                s.contents,
                s.media.len(),
                next.0,
                next.1,
                others,
            ));
        } else {
            assert(feed_walks(first.0, others).1 =~= Seq::<Seq<char>>::empty());
            assert(walk_lines(s.base, s.rest, s.contents, s.media.len(), next.0, next.1, others)
                =~= Seq::<Seq<char>>::empty());
            assert(first.1 + Seq::<Seq<char>>::empty() =~= first.1);
        }
    }
}

} // verus!
