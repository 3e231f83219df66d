//! The decisions of a replication run. The caller performs each action the
//! run asks for (create the collection, fetch a page, create an item) and
//! hands back what came of it; the run answers with the next action.

use vstd::prelude::*;

use crate::cursor::{
    accept_spec, concat_items, drain, fresh, is_chain, lemma_chain_drains_in_order, next_href, pull_spec, CursorView,
    Drained, Page, PageCursor, PageView, Pull, Pulled,
};
use crate::cursor::opt_view;
use crate::destination::{collection_request, items_endpoint, items_url, last_slash, request_at, CollectionRequest, RunError};
use crate::source::{source_items_url, source_items_url_of};

verus! {

/// Where a run stands.
#[derive(PartialEq, Eq, Structural, Clone, Copy, Debug)]
pub enum Phase {
    /// Waiting for the destination collection to be created.
    Provisioning,
    /// Waiting for a page of the source.
    Fetching,
    /// Waiting for an item to be created at the destination.
    Writing,
    /// Every item was written.
    Finished,
    /// The run stopped on an error.
    Failed(RunError),
}

/// What came of the last action.
pub enum Event<T> {
    /// The collection was created, or not.
    Provisioned(bool),
    /// The page that was asked for, or `None` where fetching or decoding it failed.
    Fetched(Option<Page<T>>),
    /// The item was created, or not.
    Written(bool),
    /// The run is to stop.
    Interrupted,
}

/// The abstract counterpart of `Event`.
pub enum EventView<T> {
    Provisioned(bool),
    Fetched(Option<PageView<T>>),
    Written(bool),
    Interrupted,
}

impl<T> View for Event<T> {
    type V = EventView<T>;

    open spec fn view(&self) -> EventView<T> {
        match self {
            Event::Provisioned(ok) => EventView::Provisioned(*ok),
            Event::Fetched(Some(p)) => EventView::Fetched(Some(p@)),
            Event::Fetched(None) => EventView::Fetched(None),
            Event::Written(ok) => EventView::Written(*ok),
            Event::Interrupted => EventView::Interrupted,
        }
    }
}

/// What the run asks of its caller next.
pub enum Action<T> {
    /// Fetch the page at this URL.
    Fetch(String),
    /// Create this item at this URL.
    Write(String, T),
    /// The run is complete.
    Finish,
    /// The run stopped on this error.
    Abort(RunError),
}

/// The abstract counterpart of `Action`.
pub enum ActionView<T> {
    Fetch(Seq<char>),
    Write(Seq<char>, T),
    Finish,
    Abort(RunError),
}

impl<T> View for Action<T> {
    type V = ActionView<T>;

    open spec fn view(&self) -> ActionView<T> {
        match self {
            Action::Fetch(u) => ActionView::Fetch(u@),
            Action::Write(u, t) => ActionView::Write(u@, *t),
            Action::Finish => ActionView::Finish,
            Action::Abort(e) => ActionView::Abort(*e),
        }
    }
}

/// The state of a run: its phase, its cursor over the source, and the URL at
/// which items are created.
pub struct RunView<T> {
    pub phase: Phase,
    pub cursor: CursorView<T>,
    pub items_url: Seq<char>,
}

/// A run that has yet to create the collection and will read from `src`.
pub open spec fn initial<T>(src: Seq<char>, items_url: Seq<char>) -> RunView<T> {
    RunView { phase: Phase::Provisioning, cursor: fresh::<T>(src), items_url }
}

/// Whether `e` is an answer to what a run in phase `p` waits for.
pub open spec fn expects<T>(p: Phase, e: EventView<T>) -> bool {
    match (p, e) {
        (_, EventView::Interrupted) => true,
        (Phase::Provisioning, EventView::Provisioned(_)) => true,
        (Phase::Fetching, EventView::Fetched(_)) => true,
        (Phase::Writing, EventView::Written(_)) => true,
        (Phase::Finished, _) => true,
        (Phase::Failed(_), _) => true,
        _ => false,
    }
}

/// The action that follows what the cursor produced: write an item, fetch a
/// page, or finish.
pub open spec fn follow<T>(s: RunView<T>, step: (CursorView<T>, Pulled<T>)) -> (RunView<T>, ActionView<T>) {
    let c = step.0;
    match step.1 {
        Pulled::Item(t) => (
            RunView { phase: Phase::Writing, cursor: c, items_url: s.items_url },
            ActionView::Write(s.items_url, t),
        ),
        Pulled::Fetch(u) => (
            RunView { phase: Phase::Fetching, cursor: c, items_url: s.items_url },
            ActionView::Fetch(u),
        ),
        Pulled::End => (
            RunView { phase: Phase::Finished, cursor: c, items_url: s.items_url },
            ActionView::Finish,
        ),
    }
}

/// Stopping the run on `e`.
pub open spec fn fail<T>(s: RunView<T>, e: RunError) -> (RunView<T>, ActionView<T>) {
    (RunView { phase: Phase::Failed(e), ..s }, ActionView::Abort(e))
}

/// One decision. A finished or failed run stays so and repeats its outcome.
/// Otherwise an interruption, or a failure to create the collection, read a
/// page or write an item, stops the run with that error; a success lets the
/// cursor go on, and the run asks for what it produced.
pub open spec fn react<T>(s: RunView<T>, e: EventView<T>) -> (RunView<T>, ActionView<T>) {
    match s.phase {
        Phase::Failed(err) => (s, ActionView::Abort(err)),
        Phase::Finished => (s, ActionView::Finish),
        _ => match e {
            EventView::Interrupted => fail(s, RunError::Interrupted),
            EventView::Provisioned(ok) => if ok {
                follow(s, pull_spec(s.cursor))
            } else {
                fail(s, RunError::Provision)
            },
            EventView::Fetched(Some(p)) => follow(s, accept_spec(s.cursor, p)),
            EventView::Fetched(None) => fail(s, RunError::Read),
            EventView::Written(ok) => if ok {
                follow(s, pull_spec(s.cursor))
            } else {
                fail(s, RunError::Write)
            },
        },
    }
}

/// A replication run from a paged source into a destination collection.
pub struct Replicator<T> {
    phase: Phase,
    cursor: PageCursor<T>,
    collection: CollectionRequest,
    items_url: String,
}

impl<T> View for Replicator<T> {
    type V = RunView<T>;

    closed spec fn view(&self) -> RunView<T> {
        RunView { phase: self.phase, cursor: self.cursor@, items_url: self.items_url@ }
    }
}

impl<T> Replicator<T> {
    /// A page is only waited for when no item is buffered.
    pub open spec fn wf(&self) -> bool {
        self@.phase == Phase::Fetching ==> self@.cursor.buffered.len() == 0
    }

    /// The collection this run creates and writes into.
    pub closed spec fn collection_spec(&self) -> CollectionRequest {
        self.collection
    }

    /// A run that creates and writes into `collection` and reads the pages
    /// from `source_items` on, the items endpoint of the source collection.
    /// Fails with `SourceUrl` exactly when there is no such endpoint.
    pub fn start(collection: CollectionRequest, source_items: Option<String>) -> (r: Result<Replicator<T>, RunError>)
        ensures
            match opt_view(&source_items) {
                None => r matches Err(e) && e == RunError::SourceUrl,
                Some(u) => r matches Ok(rep) && rep.wf() && rep.collection_spec() == collection && rep@ == initial::<T>(
                    u,
                    items_endpoint(collection.collections_url@, collection.id@),
                ),
            },
    {
        match source_items {
            None => Err(RunError::SourceUrl),
            Some(src_items) => {
                let items_url = items_url(&collection);
                let cursor = PageCursor::new(src_items.as_str());
                Ok(Replicator { phase: Phase::Provisioning, cursor, collection, items_url })
            },
        }
    }

    /// A run that copies the items of the collection named by `dst`, a URL of
    /// the form `<collections-url>/<collection-id>`, from the collection of
    /// the same id of the API rooted at `src`. Fails, before anything is done,
    /// with `Config` exactly when `dst` holds no `/`, and otherwise with
    /// `SourceUrl` exactly when `src` gives no items endpoint for that id.
    pub fn new(dst: &str, src: &str) -> (r: Result<Replicator<T>, RunError>)
        ensures
            match last_slash(dst@) {
                None => r matches Err(e) && e == RunError::Config,
                Some(i) => match source_items_url_of(src@, dst@.subrange(i + 1, dst@.len() as int)) {
                    None => r matches Err(e) && e == RunError::SourceUrl,
                    Some(u) => r matches Ok(rep) && rep.wf() && request_at(dst@, i, rep.collection_spec())
                        && rep@ == initial::<T>(
                        u,
                        items_endpoint(rep.collection_spec().collections_url@, rep.collection_spec().id@),
                    ),
                },
            },
    {
        match collection_request(dst) {
            Err(e) => Err(e),
            Ok(collection) => {
                let source_items = source_items_url(src, collection.id.as_str());
                Replicator::start(collection, source_items)
            },
        }
    }

    /// The request that creates the destination collection.
    pub fn collection(&self) -> (r: &CollectionRequest)
        ensures
            *r == self.collection_spec(),
    {
        &self.collection
    }

    /// Where the run stands.
    pub fn phase(&self) -> (r: Phase)
        ensures
            r == self@.phase,
    {
        self.phase
    }

    fn follow_pull(&mut self, p: Pull<T>) -> (r: Action<T>)
        ensures
            final(self).collection_spec() == old(self).collection_spec(),
            (final(self)@, r@) == follow(old(self)@, (old(self)@.cursor, p@)),
    {
        match p {
            Pull::Item(t) => {
                self.phase = Phase::Writing;
                Action::Write(self.items_url.clone(), t)
            },
            Pull::Fetch(u) => {
                self.phase = Phase::Fetching;
                Action::Fetch(u)
            },
            Pull::End => {
                self.phase = Phase::Finished;
                Action::Finish
            },
        }
    }

    fn stop(&mut self, e: RunError) -> (r: Action<T>)
        ensures
            final(self).collection_spec() == old(self).collection_spec(),
            (final(self)@, r@) == fail(old(self)@, e),
    {
        self.phase = Phase::Failed(e);
        Action::Abort(e)
    }

    /// Takes in what came of the last action and decides the next one.
    pub fn handle(&mut self, e: Event<T>) -> (r: Action<T>)
        requires
            old(self).wf(),
            expects(old(self)@.phase, e@),
        ensures
            final(self).wf(),
            final(self).collection_spec() == old(self).collection_spec(),
            (final(self)@, r@) == react(old(self)@, e@),
    {
        if let Phase::Failed(err) = self.phase {
            return Action::Abort(err);
        }
        if self.phase == Phase::Finished {
            return Action::Finish;
        }
        match e {
            Event::Interrupted => self.stop(RunError::Interrupted),
            Event::Provisioned(ok) => {
                if ok {
                    let p = self.cursor.try_next();
                    self.follow_pull(p)
                } else {
                    self.stop(RunError::Provision)
                }
            },
            Event::Fetched(Some(page)) => {
                let p = self.cursor.accept_page(page);
                self.follow_pull(p)
            },
            Event::Fetched(None) => self.stop(RunError::Read),
            Event::Written(ok) => {
                if ok {
                    let p = self.cursor.try_next();
                    self.follow_pull(p)
                } else {
                    self.stop(RunError::Write)
                }
            },
        }
    }
}

/// The actions a run in state `s` answers `events` with, one each.
pub open spec fn replay<T>(s: RunView<T>, events: Seq<EventView<T>>) -> Seq<ActionView<T>>
    decreases events.len(),
{
    if events.len() == 0 {
        Seq::empty()
    } else {
        let (s2, a) = react(s, events[0]);
        seq![a] + replay(s2, events.drop_first())
    }
}

/// A failed run answers whatever comes after with its error, and asks for
/// nothing more.
pub proof fn lemma_failed_stays_failed<T>(s: RunView<T>, e: RunError, events: Seq<EventView<T>>)
    requires
        s.phase == Phase::Failed(e),
    ensures
        replay(s, events) =~= Seq::new(events.len(), |i: int| ActionView::<T>::Abort(e)),
    decreases events.len(),
{
    if events.len() > 0 {
        lemma_failed_stays_failed(s, e, events.drop_first());
    }
}

/// Once the write of an item fails, the run stops with a write error: no page
/// is fetched and no item is written after it, whatever comes next.
pub proof fn lemma_failed_write_aborts<T>(s: RunView<T>, events: Seq<EventView<T>>)
    requires
        s.phase == Phase::Writing,
    ensures
        replay(s, seq![EventView::Written(false)] + events) =~= Seq::new(
            events.len() + 1,
            |i: int| ActionView::<T>::Abort(RunError::Write),
        ),
{
    let all = seq![EventView::Written(false)] + events;
    assert(all.drop_first() =~= events);
    lemma_failed_stays_failed(fail(s, RunError::Write).0, RunError::Write, events);
}

/// A write comes before the fetch that may follow it.
pub open spec fn write_rank<T>(a: ActionView<T>) -> nat {
    match a {
        ActionView::Write(_, _) => 1,
        _ => 0,
    }
}

/// What a run in state `s`, having just asked for `a`, goes on to do when
/// every write succeeds and each fetch is answered with the next of `pages`:
/// the items it writes, the URLs it fetches, and whether it finishes (rather
/// than stopping, or asking for a page beyond `pages`).
pub open spec fn serve<T>(s: RunView<T>, a: ActionView<T>, pages: Seq<PageView<T>>) -> Drained<T>
    decreases pages.len(), s.cursor.buffered.len(), write_rank(a),
{
    match a {
        ActionView::Write(_, t) => {
            let (s2, a2) = react(s, EventView::Written(true));
            // Holds of every write a run asks for; it shows that the recursion ends.
            if s.phase == Phase::Writing && (s2.cursor.buffered.len() < s.cursor.buffered.len() || write_rank(a2)
                == 0) {
                let d = serve(s2, a2, pages);
                Drained { items: seq![t] + d.items, fetched: d.fetched, ended: d.ended }
            } else {
                Drained { items: seq![t], fetched: Seq::empty(), ended: false }
            }
        },
        ActionView::Fetch(u) => if pages.len() == 0 {
            Drained { items: Seq::empty(), fetched: Seq::empty(), ended: false }
        } else {
            let (s2, a2) = react(s, EventView::Fetched(Some(pages[0])));
            let d = serve(s2, a2, pages.drop_first());
            Drained { items: d.items, fetched: seq![u] + d.fetched, ended: d.ended }
        },
        ActionView::Finish => Drained { items: Seq::empty(), fetched: Seq::empty(), ended: true },
        ActionView::Abort(_) => Drained { items: Seq::empty(), fetched: Seq::empty(), ended: false },
    }
}

proof fn lemma_serve_follows_cursor<T>(s: RunView<T>, c: CursorView<T>, pages: Seq<PageView<T>>)
    requires
        s.phase == Phase::Writing || s.phase == Phase::Provisioning,
    ensures
        serve(follow(s, pull_spec(c)).0, follow(s, pull_spec(c)).1, pages) == drain(c, pages),
    decreases pages.len(), c.buffered.len(),
{
    let (s2, a2) = follow(s, pull_spec(c));
    if c.buffered.len() > 0 {
        let c2 = pull_spec(c).0;
        lemma_serve_follows_cursor(s2, c2, pages);
        let (s4, a4) = react(s2, EventView::Written(true));
        assert(s4.cursor.buffered.len() < s2.cursor.buffered.len() || write_rank(a4) == 0);
    } else if let Some(u) = c.pending {
        if pages.len() > 0 {
            let p0 = pages[0];
            let rest = pages.drop_first();
            let (s3, a3) = react(s2, EventView::Fetched(Some(p0)));
            if p0.items.len() > 0 {
                let c3 = s3.cursor;
                lemma_serve_follows_cursor(s3, c3, rest);
                let (s4, a4) = react(s3, EventView::Written(true));
                assert(s4.cursor.buffered.len() < s3.cursor.buffered.len() || write_rank(a4) == 0);
                let c2 = CursorView { buffered: p0.items, pending: next_href(p0.links) };
                assert(c2.buffered.drop_first() =~= c3.buffered);
                assert(drain(c2, rest).items == seq![p0.items[0]] + drain(c3, rest).items);
                assert(serve(s3, a3, rest).items == seq![p0.items[0]] + drain(c3, rest).items);
            } else {
                assert(serve(s3, a3, rest) == (Drained::<T> {
                    items: Seq::empty(),
                    fetched: Seq::empty(),
                    ended: true,
                }));
                assert(seq![u] + Seq::<Seq<char>>::empty() =~= seq![u]);
            }
        }
    }
}

/// A run started on the first URL of a chain of pages, once its collection is
/// created, fetches the chain's URLs in order, writes every item of every page
/// in order and nothing else, and finishes, when each write succeeds and each
/// fetch is answered with the next page of the chain.
pub proof fn lemma_run_writes_chain<T>(items_url: Seq<char>, urls: Seq<Seq<char>>, pages: Seq<PageView<T>>)
    requires
        is_chain(urls, pages),
    ensures
        ({
            let (s, a) = react(initial::<T>(urls[0], items_url), EventView::Provisioned(true));
            serve(s, a, pages) == (Drained { items: concat_items(pages), fetched: urls, ended: true })
        }),
{
    let s0 = initial::<T>(urls[0], items_url);
    lemma_serve_follows_cursor(s0, s0.cursor, pages);
    lemma_chain_drains_in_order(urls, pages);
}

/// A run keeps nothing of earlier runs and does not deduplicate: running it
/// again over the same chain of pages writes every item of the chain again,
/// so two runs write each item twice.
pub proof fn lemma_rerun_writes_again<T>(items_url: Seq<char>, urls: Seq<Seq<char>>, pages: Seq<PageView<T>>)
    requires
        is_chain(urls, pages),
    ensures
        ({
            let (s, a) = react(initial::<T>(urls[0], items_url), EventView::Provisioned(true));
            serve(s, a, pages).items + serve(s, a, pages).items == concat_items(pages) + concat_items(pages)
        }),
{
    lemma_run_writes_chain(items_url, urls, pages);
}

} // verus!
