//! A forward-only cursor over a chain of pages linked by `next` relations.

use vstd::prelude::*;
use vstd::string::*;

verus! {

/// A navigation link: a relation and a target URL.
pub struct Link {
    pub rel: String,
    pub href: String,
}

impl View for Link {
    type V = (Seq<char>, Seq<char>);

    open spec fn view(&self) -> (Seq<char>, Seq<char>) {
        (self.rel@, self.href@)
    }
}

/// One response of the paged endpoint: its items in order and its links.
pub struct Page<T> {
    pub items: Vec<T>,
    pub links: Vec<Link>,
}

/// What a page is to the cursor: its items and its links as (relation, target).
pub struct PageView<T> {
    pub items: Seq<T>,
    pub links: Seq<(Seq<char>, Seq<char>)>,
}

impl<T> View for Page<T> {
    type V = PageView<T>;

    open spec fn view(&self) -> PageView<T> {
        PageView { items: self.items@, links: self.links@.map_values(|l: Link| l@) }
    }
}

pub open spec fn next_rel() -> Seq<char> {
    seq!['n', 'e', 'x', 't']
}

/// The target of the first link whose relation is `next`, if any.
pub open spec fn next_href(links: Seq<(Seq<char>, Seq<char>)>) -> Option<Seq<char>>
    decreases links.len(),
{
    if links.len() == 0 {
        None
    } else if links[0].0 == next_rel() {
        Some(links[0].1)
    } else {
        next_href(links.drop_first())
    }
}

proof fn lemma_next_href_skip(links: Seq<(Seq<char>, Seq<char>)>, i: int)
    requires
        0 <= i <= links.len(),
        forall|j: int| 0 <= j < i ==> links[j].0 != next_rel(),
    ensures
        next_href(links) == next_href(links.subrange(i, links.len() as int)),
    decreases i,
{
    if i > 0 {
        assert(links.drop_first().subrange(i - 1, links.len() - 1) =~= links.subrange(i, links.len() as int));
        lemma_next_href_skip(links.drop_first(), i - 1);
    } else {
        assert(links.subrange(0, links.len() as int) =~= links);
    }
}

/// The target of the first link of `links` whose relation is `next`.
pub fn next_link(links: &Vec<Link>) -> (r: Option<String>)
    ensures
        opt_view(&r) == next_href(links@.map_values(|l: Link| l@)),
{
    let ghost lv = links@.map_values(|l: Link| l@);
    let next = "next".to_string();
    proof {
        reveal_strlit("next");
        assert(next@ =~= next_rel());
    }
    let mut i: usize = 0;
    while i < links.len()
        invariant
            0 <= i <= links@.len(),
            lv == links@.map_values(|l: Link| l@),
            next@ == next_rel(),
            forall|j: int| 0 <= j < i ==> lv[j].0 != next_rel(),
        decreases links@.len() - i,
    {
        if links[i].rel == next {
            proof {
                lemma_next_href_skip(lv, i as int);
                let rest = lv.subrange(i as int, lv.len() as int);
                assert(rest[0] == lv[i as int]);
            }
            return Some(links[i].href.clone());
        }
        i = i + 1;
    }
    proof {
        lemma_next_href_skip(lv, i as int);
    }
    None
}

/// The view of an optional string.
pub open spec fn opt_view(o: &Option<String>) -> Option<Seq<char>> {
    match o {
        Some(s) => Some(s@),
        None => None,
    }
}

/// What one pull of the cursor produces: an item, a request to fetch the page
/// at a URL, or the end of the sequence.
pub enum Pull<T> {
    Item(T),
    Fetch(String),
    End,
}

/// The abstract counterpart of `Pull`.
pub enum Pulled<T> {
    Item(T),
    Fetch(Seq<char>),
    End,
}

impl<T> View for Pull<T> {
    type V = Pulled<T>;

    open spec fn view(&self) -> Pulled<T> {
        match self {
            Pull::Item(t) => Pulled::Item(*t),
            Pull::Fetch(u) => Pulled::Fetch(u@),
            Pull::End => Pulled::End,
        }
    }
}

/// The state of a cursor: the items of the current page not yet handed out,
/// and the URL of the page to fetch once they are gone.
pub struct CursorView<T> {
    pub buffered: Seq<T>,
    pub pending: Option<Seq<char>>,
}

/// A cursor that has not fetched anything yet and will start at `url`.
pub open spec fn fresh<T>(url: Seq<char>) -> CursorView<T> {
    CursorView { buffered: Seq::empty(), pending: Some(url) }
}

/// One pull: the front buffered item if there is one; else a fetch of the
/// pending URL; else the end. Only handing out an item changes the state.
pub open spec fn pull_spec<T>(c: CursorView<T>) -> (CursorView<T>, Pulled<T>) {
    if c.buffered.len() > 0 {
        (CursorView { buffered: c.buffered.drop_first(), pending: c.pending }, Pulled::Item(c.buffered[0]))
    } else {
        match c.pending {
            Some(u) => (c, Pulled::Fetch(u)),
            None => (c, Pulled::End),
        }
    }
}

/// Taking in a fetched page. An empty page ends the sequence for good, whatever
/// its links say; otherwise its items are buffered, its `next` link becomes the
/// pending URL, and its first item is handed out.
pub open spec fn accept_spec<T>(c: CursorView<T>, page: PageView<T>) -> (CursorView<T>, Pulled<T>) {
    if page.items.len() == 0 {
        (CursorView { buffered: c.buffered, pending: None }, Pulled::End)
    } else {
        (
            CursorView { buffered: page.items.drop_first(), pending: next_href(page.links) },
            Pulled::Item(page.items[0]),
        )
    }
}

/// The items of `s` in reverse order.
pub open spec fn backwards<T>(s: Seq<T>) -> Seq<T> {
    Seq::new(s.len(), |i: int| s[s.len() - 1 - i])
}

/// A lazy, forward-only sequence of the items of a chain of pages.
pub struct PageCursor<T> {
    /// The buffered items, last one first, so that the next one is popped.
    stack: Vec<T>,
    pending: Option<String>,
}

impl<T> View for PageCursor<T> {
    type V = CursorView<T>;

    closed spec fn view(&self) -> CursorView<T> {
        CursorView { buffered: backwards(self.stack@), pending: opt_view(&self.pending) }
    }
}

impl<T> PageCursor<T> {
    /// A cursor whose first fetch is of `url`.
    pub fn new(url: &str) -> (r: PageCursor<T>)
        ensures
            r@ == fresh::<T>(url@),
    {
        let r = PageCursor { stack: Vec::new(), pending: Some(url.to_string()) };
        assert(r@.buffered =~= Seq::<T>::empty());
        r
    }

    /// Whether the cursor has neither buffered items nor a page to fetch.
    pub fn is_exhausted(&self) -> (r: bool)
        ensures
            r == (self@.buffered.len() == 0 && self@.pending is None),
    {
        self.stack.len() == 0 && self.pending.is_none()
    }

    /// Hands out the next buffered item, or asks for the pending page to be
    /// fetched, or signals the end of the sequence.
    pub fn try_next(&mut self) -> (r: Pull<T>)
        ensures
            (final(self)@, r@) == pull_spec(old(self)@),
    {
        match self.stack.pop() {
            Some(t) => {
                assert(self@.buffered =~= old(self)@.buffered.drop_first());
                Pull::Item(t)
            },
            None => match &self.pending {
                Some(u) => Pull::Fetch(u.clone()),
                None => Pull::End,
            },
        }
    }

    /// Takes in the page fetched after `try_next` asked for one.
    pub fn accept_page(&mut self, page: Page<T>) -> (r: Pull<T>)
        requires
            old(self)@.buffered.len() == 0,
        ensures
            (final(self)@, r@) == accept_spec(old(self)@, page@),
    {
        let Page { items, links } = page;
        if items.len() == 0 {
            self.pending = None;
            return Pull::End;
        }
        let ghost orig = items@;
        self.pending = next_link(&links);
        let mut items = items;
        let mut stack: Vec<T> = Vec::new();
        while items.len() > 0
            invariant
                items@.len() + stack@.len() == orig.len(),
                items@ == orig.subrange(0, items@.len() as int),
                forall|j: int| 0 <= j < stack@.len() ==> stack@[j] == orig[orig.len() - 1 - j],
            decreases items@.len(),
        {
            let t = items.pop().unwrap();
            stack.push(t);
        }
        let first = stack.pop().unwrap();
        assert(orig.subrange(0, 0) =~= Seq::<T>::empty());
        self.stack = stack;
        assert(self@.buffered =~= orig.drop_first());
        Pull::Item(first)
    }
}

/// What a cursor hands out when each fetch it asks for is answered with the
/// next of `pages`: the items in order, the URLs it fetched in order, and
/// whether it reached the end of the sequence (rather than asking for a page
/// beyond `pages`).
pub struct Drained<T> {
    pub items: Seq<T>,
    pub fetched: Seq<Seq<char>>,
    pub ended: bool,
}

/// Pulls `c` until it ends, answering its fetches with `pages` in turn.
pub open spec fn drain<T>(c: CursorView<T>, pages: Seq<PageView<T>>) -> Drained<T>
    decreases pages.len(), c.buffered.len(),
{
    if c.buffered.len() > 0 {
        let d = drain(CursorView { buffered: c.buffered.drop_first(), pending: c.pending }, pages);
        Drained { items: seq![c.buffered[0]] + d.items, fetched: d.fetched, ended: d.ended }
    } else {
        match c.pending {
            None => Drained { items: Seq::empty(), fetched: Seq::empty(), ended: true },
            Some(u) => if pages.len() == 0 {
                Drained { items: Seq::empty(), fetched: Seq::empty(), ended: false }
            } else if pages[0].items.len() == 0 {
                Drained { items: Seq::empty(), fetched: seq![u], ended: true }
            } else {
                let c2 = CursorView { buffered: pages[0].items, pending: next_href(pages[0].links) };
                let d = drain(c2, pages.drop_first());
                Drained { items: d.items, fetched: seq![u] + d.fetched, ended: d.ended }
            },
        }
    }
}

/// The items of `pages`, page after page.
pub open spec fn concat_items<T>(pages: Seq<PageView<T>>) -> Seq<T>
    decreases pages.len(),
{
    if pages.len() == 0 {
        Seq::empty()
    } else {
        pages[0].items + concat_items(pages.drop_first())
    }
}

/// `pages[i]` is the page at `urls[i]`; each page but the last has items and a
/// `next` link to the following URL; the last has no `next` link or no items.
pub open spec fn is_chain<T>(urls: Seq<Seq<char>>, pages: Seq<PageView<T>>) -> bool {
    &&& pages.len() >= 1
    &&& urls.len() == pages.len()
    &&& forall|i: int|
        0 <= i < pages.len() - 1 ==> (#[trigger] pages[i]).items.len() > 0 && next_href(pages[i].links)
            == Some(urls[i + 1])
    &&& (next_href(pages.last().links) is None || pages.last().items.len() == 0)
}

proof fn lemma_drain_buffered<T>(b: Seq<T>, p: Option<Seq<char>>, pages: Seq<PageView<T>>)
    ensures
        drain(CursorView { buffered: b, pending: p }, pages) == (Drained {
            items: b + drain(CursorView { buffered: Seq::<T>::empty(), pending: p }, pages).items,
            ..drain(CursorView { buffered: Seq::<T>::empty(), pending: p }, pages)
        }),
    decreases b.len(),
{
    if b.len() > 0 {
        lemma_drain_buffered(b.drop_first(), p, pages);
        let d = drain(CursorView { buffered: Seq::<T>::empty(), pending: p }, pages);
        assert(seq![b[0]] + (b.drop_first() + d.items) =~= b + d.items);
    } else {
        assert(b =~= Seq::<T>::empty());
        assert(b + drain(CursorView { buffered: b, pending: p }, pages).items =~= drain(
            CursorView { buffered: b, pending: p },
            pages,
        ).items);
    }
}

/// A cursor started at the first URL of a chain of pages fetches exactly the
/// chain's URLs in order, hands out exactly the items of all its pages in
/// order, and then ends.
pub proof fn lemma_chain_drains_in_order<T>(urls: Seq<Seq<char>>, pages: Seq<PageView<T>>)
    requires
        is_chain(urls, pages),
    ensures
        drain(fresh::<T>(urls[0]), pages) == (Drained { items: concat_items(pages), fetched: urls, ended: true }),
    decreases pages.len(),
{
    let p0 = pages[0];
    let rest = pages.drop_first();
    if p0.items.len() == 0 {
        assert(pages.len() == 1);
        assert(rest.len() == 0);
        assert(concat_items(rest) =~= Seq::<T>::empty());
        assert(concat_items(pages) =~= Seq::<T>::empty());
        assert(urls =~= seq![urls[0]]);
    } else {
        let p = next_href(p0.links);
        lemma_drain_buffered(p0.items, p, rest);
        if pages.len() == 1 {
            assert(p is None);
            assert(concat_items(rest) =~= Seq::<T>::empty());
            assert(p0.items + Seq::<T>::empty() =~= p0.items);
            assert(urls =~= seq![urls[0]] + Seq::<Seq<char>>::empty());
        } else {
            let urls2 = urls.drop_first();
            assert(urls2[0] == urls[1]);
            assert forall|i: int| 0 <= i < rest.len() - 1 implies (#[trigger] rest[i]).items.len() > 0 && next_href(
                rest[i].links,
            ) == Some(urls2[i + 1]) by {
                assert(0 <= i + 1 < pages.len() - 1);
                assert(pages[i + 1] == rest[i]);
                assert(urls[(i + 1) + 1] == urls2[i + 1]);
            }
            assert(rest.last() == pages.last());
            assert(is_chain(urls2, rest));
            lemma_chain_drains_in_order(urls2, rest);
            assert(p == Some(urls[1]));
            assert(urls =~= seq![urls[0]] + urls2);
        }
    }
}

/// Once a cursor has taken in an empty page it stays at the end: the `next`
/// link of that page is never followed, and every later pull ends again.
pub proof fn lemma_empty_page_ends<T>(c: CursorView<T>, page: PageView<T>)
    requires
        c.buffered.len() == 0,
        page.items.len() == 0,
    ensures
        accept_spec(c, page).1 == Pulled::<T>::End,
        accept_spec(c, page).0.pending is None,
        pull_spec(accept_spec(c, page).0) == (accept_spec(c, page).0, Pulled::<T>::End),
{
}

} // verus!
