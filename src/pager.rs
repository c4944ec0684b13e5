use vstd::prelude::*;
use crate::model::{Page, PageView};
use crate::site::stitched;

verus! {

/// Where a walk over a paged collection stands: the origin that cursors are
/// stitched to, the URL of the page to fetch next, the items gathered so
/// far in arrival order, and whether the last page has been seen.
pub ghost struct PagerState<T> {
    pub origin: Seq<char>,
    pub url: Seq<char>,
    pub items: Seq<T>,
    pub done: bool,
}

/// A walk that has fetched nothing yet.
pub open spec fn start<T>(origin: Seq<char>, url: Seq<char>) -> PagerState<T> {
    PagerState { origin, url, items: Seq::empty(), done: false }
}

/// Taking in one fetched page: its items are appended; a cursor gives the
/// next URL, and its absence ends the walk. A finished walk takes in nothing.
pub open spec fn step<T>(s: PagerState<T>, p: PageView<T>) -> PagerState<T> {
    if s.done {
        s
    } else {
        match p.next {
            Some(f) => PagerState { url: stitched(s.origin, f), items: s.items + p.items, ..s },
            None => PagerState { items: s.items + p.items, done: true, ..s },
        }
    }
}

/// Taking in a run of pages, first to last.
pub open spec fn walk<T>(s: PagerState<T>, pages: Seq<PageView<T>>) -> PagerState<T>
    decreases pages.len(),
{
    if pages.len() == 0 {
        s
    } else {
        walk(step(s, pages[0]), pages.drop_first())
    }
}

/// The items of a run of pages, page after page.
pub open spec fn flatten<T>(pages: Seq<PageView<T>>) -> Seq<T>
    decreases pages.len(),
{
    if pages.len() == 0 {
        Seq::empty()
    } else {
        pages[0].items + flatten(pages.drop_first())
    }
}

/// Every page but the last carries a cursor, and the last carries none.
pub open spec fn chained<T>(pages: Seq<PageView<T>>) -> bool {
    &&& pages.len() > 0
    &&& forall|i: int| 0 <= i < pages.len() - 1 ==> (#[trigger] pages[i]).next is Some
    &&& pages.last().next is None
}

/// A walk over a paged collection: the caller fetches `url()`, hands the
/// decoded page to `accept`, and repeats until `is_done()`.
pub struct Pager<T> {
    origin: String,
    url: String,
    items: Vec<T>,
    done: bool,
}

impl<T> View for Pager<T> {
    type V = PagerState<T>;

    closed spec fn view(&self) -> PagerState<T> {
        PagerState { origin: self.origin@, url: self.url@, items: self.items@, done: self.done }
    }
}

impl<T> Pager<T> {
    /// A walk from `start_url`, stitching cursors to `origin`.
    pub fn new(origin: &str, start_url: String) -> (r: Self)
        ensures
            r@ == start::<T>(origin@, start_url@),
    {
        let r = Pager { origin: origin.to_owned(), url: start_url, items: Vec::new(), done: false };
        assert(r@.items =~= Seq::<T>::empty());
        r
    }

    /// The URL of the page to fetch next.
    pub fn url(&self) -> (r: &String)
        ensures
            r@ == self@.url,
    {
        &self.url
    }

    pub fn is_done(&self) -> (r: bool)
        ensures
            r == self@.done,
    {
        self.done
    }

    /// The items gathered so far.
    pub fn items(&self) -> (r: &Vec<T>)
        ensures
            r@ == self@.items,
    {
        &self.items
    }

    pub fn into_items(self) -> (r: Vec<T>)
        ensures
            r@ == self@.items,
    {
        self.items
    }

    /// Takes in the page fetched from `url()`.
    pub fn accept(&mut self, page: Page<T>)
        ensures
            final(self)@ == step(old(self)@, page@),
    {
        if self.done {
            return;
        }
        let Page { results, links } = page;
        let mut results = results;
        self.items.append(&mut results);
        match links.next {
            Some(f) => {
                let mut u = self.origin.clone();
                u.append(f.as_str());
                self.url = u;
            },
            None => {
                self.done = true;
            },
        }
    }
}

/// A walk over pages that all carry a cursor but the last gathers the items
/// of every page, in page order and each once, and ends after the last.
pub proof fn lemma_walk_complete<T>(s: PagerState<T>, pages: Seq<PageView<T>>)
    requires
        !s.done,
        chained(pages),
    ensures
        walk(s, pages).items == s.items + flatten(pages),
        walk(s, pages).done,
        walk(s, pages).origin == s.origin,
    decreases pages.len(),
{
    let s1 = step(s, pages[0]);
    let rest = pages.drop_first();
    if pages.len() == 1 {
        assert(rest.len() == 0);
        assert(walk(s1, rest) == s1);
        assert(flatten(rest) =~= Seq::<T>::empty());
        assert(s.items + flatten(pages) =~= s1.items);
    } else {
        assert(pages[0].next is Some);
        assert(pages.len() >= 2);
        assert forall|i: int| 0 <= i < rest.len() - 1 implies (#[trigger] rest[i]).next is Some by {
            assert(rest[i] == pages[i + 1]);
        }
        assert(rest.last() == pages.last());
        lemma_walk_complete(s1, rest);
        assert(s.items + flatten(pages) =~= s1.items + flatten(rest));
    }
}

/// A page without items but with a cursor does not end the walk: the next
/// URL is stitched from the cursor and the following page's items still
/// arrive.
pub proof fn lemma_empty_page_continues<T>(
    s: PagerState<T>,
    empty: PageView<T>,
    following: PageView<T>,
)
    requires
        !s.done,
        empty.items.len() == 0,
        empty.next is Some,
    ensures
        !step(s, empty).done,
        step(s, empty).url == stitched(s.origin, empty.next->Some_0),
        step(step(s, empty), following).items == s.items + following.items,
{
    assert(s.items + empty.items =~= s.items);
}

/// A page without a cursor ends the walk, and a finished walk takes in
/// nothing more: its URL, items and state stay as they are.
pub proof fn lemma_walk_ends<T>(s: PagerState<T>, last: PageView<T>, later: Seq<PageView<T>>)
    requires
        !s.done,
        last.next is None,
    ensures
        step(s, last).done,
        step(s, last).items == s.items + last.items,
        walk(step(s, last), later) == step(s, last),
{
    lemma_finished_stays(step(s, last), later);
}

proof fn lemma_finished_stays<T>(s: PagerState<T>, later: Seq<PageView<T>>)
    requires
        s.done,
    ensures
        walk(s, later) == s,
    decreases later.len(),
{
    if later.len() > 0 {
        lemma_finished_stays(s, later.drop_first());
    }
}

} // verus!
