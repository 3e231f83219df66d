use stac_siphon_rs::cursor::{next_link, Link, Page, PageCursor, Pull};
use stac_siphon_rs::destination::{collection_request, items_url, RunError};
use stac_siphon_rs::run::{Action, Event, Phase, Replicator};

fn link(rel: &str, href: &str) -> Link {
    Link { rel: rel.to_string(), href: href.to_string() }
}

fn page(ids: &[&str], links: Vec<Link>) -> Page<String> {
    Page { items: ids.iter().map(|s| s.to_string()).collect(), links }
}

fn source(url: &str) -> Option<Page<String>> {
    match url {
        "https://src.test/api/collections/foo/items" => Some(page(&["a", "b"], vec![link("self", "x"), link("next", "page2")])),
        "page2" => Some(page(&["c"], vec![])),
        _ => None,
    }
}

/// What the destination saw: posts in order, as (url, body id).
#[derive(Debug, PartialEq)]
struct Post(String, String);

/// Drives a run to its end; `fail_write` names an item whose write fails.
fn drive(dst: &str, fail_write: Option<&str>, posts: &mut Vec<Post>) -> Result<(), RunError> {
    let mut rep: Replicator<String> = Replicator::new(dst, "https://src.test/api")?;
    let req = rep.collection();
    posts.push(Post(req.collections_url.clone(), req.id.clone()));
    assert_eq!(req.title, req.id);
    let mut action = rep.handle(Event::Provisioned(true));
    loop {
        action = match action {
            Action::Fetch(url) => rep.handle(Event::Fetched(source(&url))),
            Action::Write(url, item) => {
                let ok = fail_write != Some(item.as_str());
                posts.push(Post(url, item));
                rep.handle(Event::Written(ok))
            }
            Action::Finish => return Ok(()),
            Action::Abort(e) => return Err(e),
        };
    }
}

fn drain(cursor: &mut PageCursor<String>, pages: &mut Vec<Page<String>>, fetched: &mut Vec<String>) -> Vec<String> {
    let mut out = Vec::new();
    let mut pull = cursor.try_next();
    loop {
        pull = match pull {
            Pull::Item(t) => {
                out.push(t);
                cursor.try_next()
            }
            Pull::Fetch(u) => {
                fetched.push(u);
                cursor.accept_page(pages.remove(0))
            }
            Pull::End => return out,
        };
    }
}

#[test]
fn cursor_follows_chain_in_order() {
    let mut cursor = PageCursor::new("p1");
    let mut pages = vec![
        page(&["a", "b"], vec![link("next", "p2")]),
        page(&["c"], vec![link("prev", "p1"), link("next", "p3")]),
        page(&["d", "e"], vec![]),
    ];
    let mut fetched = Vec::new();
    let items = drain(&mut cursor, &mut pages, &mut fetched);
    assert_eq!(items, vec!["a", "b", "c", "d", "e"]);
    assert_eq!(fetched, vec!["p1", "p2", "p3"]);
    assert!(cursor.is_exhausted());
    assert!(matches!(cursor.try_next(), Pull::End));
}

#[test]
fn cursor_ends_at_empty_last_page() {
    let mut cursor = PageCursor::new("p1");
    let mut pages = vec![page(&["a"], vec![link("next", "p2")]), page(&[], vec![])];
    let mut fetched = Vec::new();
    let items = drain(&mut cursor, &mut pages, &mut fetched);
    assert_eq!(items, vec!["a"]);
    assert_eq!(fetched, vec!["p1", "p2"]);
}

#[test]
fn empty_page_with_next_link_ends_sequence() {
    let mut cursor: PageCursor<String> = PageCursor::new("p1");
    assert!(matches!(cursor.try_next(), Pull::Fetch(ref u) if u == "p1"));
    let r = cursor.accept_page(page(&[], vec![link("next", "p2")]));
    assert!(matches!(r, Pull::End));
    assert!(cursor.is_exhausted());
    assert!(matches!(cursor.try_next(), Pull::End));
    assert!(matches!(cursor.try_next(), Pull::End));
}

#[test]
fn next_link_takes_first_next_relation() {
    let links = vec![link("self", "s"), link("next", "n1"), link("next", "n2")];
    assert_eq!(next_link(&links), Some("n1".to_string()));
    assert_eq!(next_link(&vec![link("prev", "p"), link("nextish", "q")]), None);
    assert_eq!(next_link(&vec![]), None);
}

#[test]
fn provisioning_splits_at_last_slash() {
    let req = collection_request("https://example.org/collections/foo").unwrap();
    assert_eq!(req.collections_url, "https://example.org/collections");
    assert_eq!(req.id, "foo");
    assert_eq!(req.title, "foo");
    assert_eq!(items_url(&req), "https://example.org/collections/foo/items");
}

#[test]
fn provisioning_with_trailing_slash_has_empty_id() {
    let req = collection_request("https://example.org/collections/").unwrap();
    assert_eq!(req.collections_url, "https://example.org/collections");
    assert_eq!(req.id, "");
}

#[test]
fn destination_without_slash_is_config_error() {
    assert!(matches!(collection_request("no-separator-here"), Err(RunError::Config)));
    assert!(matches!(collection_request(""), Err(RunError::Config)));
    let mut posts = Vec::new();
    assert_eq!(drive("no-separator-here", None, &mut posts), Err(RunError::Config));
    assert!(posts.is_empty());
}

#[test]
fn end_to_end_writes_items_in_order_after_collection() {
    let mut posts = Vec::new();
    assert_eq!(drive("https://example.org/collections/foo", None, &mut posts), Ok(()));
    let items = "https://example.org/collections/foo/items".to_string();
    assert_eq!(
        posts,
        vec![
            Post("https://example.org/collections".to_string(), "foo".to_string()),
            Post(items.clone(), "a".to_string()),
            Post(items.clone(), "b".to_string()),
            Post(items, "c".to_string()),
        ]
    );
}

#[test]
fn end_to_end_write_failure_stops_run() {
    let mut posts = Vec::new();
    assert_eq!(drive("https://example.org/collections/foo", Some("b"), &mut posts), Err(RunError::Write));
    let ids: Vec<&str> = posts.iter().map(|p| p.1.as_str()).collect();
    assert_eq!(ids, vec!["foo", "a", "b"]);
}

#[test]
fn rerun_duplicates_every_item() {
    let mut posts = Vec::new();
    assert_eq!(drive("https://example.org/collections/foo", None, &mut posts), Ok(()));
    assert_eq!(drive("https://example.org/collections/foo", None, &mut posts), Ok(()));
    let ids: Vec<&str> = posts.iter().map(|p| p.1.as_str()).collect();
    assert_eq!(ids, vec!["foo", "a", "b", "c", "foo", "a", "b", "c"]);
}

#[test]
fn failed_provisioning_reads_nothing() {
    let mut rep: Replicator<String> = Replicator::new("https://d.test/collections/c", "https://s.test").unwrap();
    assert!(matches!(rep.handle(Event::Provisioned(false)), Action::Abort(RunError::Provision)));
    assert_eq!(rep.phase(), Phase::Failed(RunError::Provision));
    assert!(matches!(rep.handle(Event::Interrupted), Action::Abort(RunError::Provision)));
}

#[test]
fn read_failure_aborts() {
    let mut rep: Replicator<String> = Replicator::new("https://d.test/collections/c", "https://s.test").unwrap();
    assert!(matches!(rep.handle(Event::Provisioned(true)), Action::Fetch(ref u) if u == "https://s.test/collections/c/items"));
    assert_eq!(rep.phase(), Phase::Fetching);
    assert!(matches!(rep.handle(Event::Fetched(None)), Action::Abort(RunError::Read)));
}

#[test]
fn interruption_stops_before_next_write() {
    let mut rep: Replicator<String> = Replicator::new("https://d.test/collections/c", "https://s.test").unwrap();
    rep.handle(Event::Provisioned(true));
    let a = rep.handle(Event::Fetched(Some(page(&["x", "y"], vec![]))));
    assert!(matches!(a, Action::Write(ref u, ref t) if u == "https://d.test/collections/c/items" && t == "x"));
    assert_eq!(rep.phase(), Phase::Writing);
    assert!(matches!(rep.handle(Event::Interrupted), Action::Abort(RunError::Interrupted)));
    assert!(matches!(rep.handle(Event::Written(true)), Action::Abort(RunError::Interrupted)));
}

#[test]
fn run_finishes_and_stays_finished() {
    let mut rep: Replicator<String> = Replicator::new("https://d.test/collections/c", "https://s.test").unwrap();
    rep.handle(Event::Provisioned(true));
    assert!(matches!(rep.handle(Event::Fetched(Some(page(&[], vec![link("next", "s2")])))), Action::Finish));
    assert_eq!(rep.phase(), Phase::Finished);
    assert!(matches!(rep.handle(Event::Written(true)), Action::Finish));
}

#[test]
fn first_fetch_is_source_collection_items() {
    let mut rep: Replicator<String> =
        Replicator::new("https://example.org/collections/foo", "https://src.test/api").unwrap();
    match rep.handle(Event::Provisioned(true)) {
        Action::Fetch(u) => assert_eq!(u, "https://src.test/api/collections/foo/items"),
        _ => panic!("expected a fetch"),
    }
    let mut rep: Replicator<String> =
        Replicator::new("https://example.org/collections/foo", "https://src.test/api/").unwrap();
    assert!(matches!(rep.handle(Event::Provisioned(true)),
        Action::Fetch(ref u) if u == "https://src.test/api/collections/foo/items"));
}

#[test]
fn unparsable_source_is_source_url_error() {
    let r: Result<Replicator<String>, RunError> = Replicator::new("https://example.org/collections/foo", "not a url");
    assert!(matches!(r, Err(RunError::SourceUrl)));
    let r: Result<Replicator<String>, RunError> = Replicator::new("no-separator", "not a url");
    assert!(matches!(r, Err(RunError::Config)));
}

#[test]
fn start_takes_given_source_endpoint() {
    let req = collection_request("https://example.org/collections/foo").unwrap();
    let mut rep: Replicator<String> = Replicator::start(req, Some("https://s.test/x".to_string())).unwrap();
    assert!(matches!(rep.handle(Event::Provisioned(true)), Action::Fetch(ref u) if u == "https://s.test/x"));
    let req = collection_request("https://example.org/collections/foo").unwrap();
    let r: Result<Replicator<String>, RunError> = Replicator::start(req, None);
    assert!(matches!(r, Err(RunError::SourceUrl)));
}
