use rseek::engine::{Crawler, DispatchStep};
use rseek::frontier::Frontier;
use rseek::page::Page;
use rseek::visited::VisitedSet;

fn page_with_links(title: &str, body: &str, hrefs: &[&str]) -> Page {
    Page {
        title: Some(String::from(title)),
        content: String::from(body),
        hrefs: hrefs.iter().map(|h| String::from(*h)).collect(),
    }
}

#[test]
fn visited_marking_is_idempotent() {
    let mut visited = VisitedSet::new();
    let url = String::from("http://a.com/");
    assert_eq!(visited.check_and_mark(&url), false);
    assert_eq!(visited.check_and_mark(&url), true);
    assert_eq!(visited.check_and_mark(&url), true);
    let other = String::from("http://b.com/");
    assert_eq!(visited.check_and_mark(&other), false);
    assert_eq!(visited.check_and_mark(&other), true);
}

#[test]
fn frontier_is_fifo() {
    let mut f = Frontier::new();
    assert_eq!(f.pop(), None);
    f.push(String::from("a"));
    f.push(String::from("b"));
    f.push(String::from("c"));
    assert_eq!(f.pop(), Some(String::from("a")));
    assert_eq!(f.pop(), Some(String::from("b")));
    f.push(String::from("d"));
    assert_eq!(f.pop(), Some(String::from("c")));
    assert_eq!(f.pop(), Some(String::from("d")));
    assert_eq!(f.pop(), None);
}

#[test]
fn end_to_end_three_pages_crawled_and_indexed() {
    // One seed page with two distinct outbound links; the targets have no
    // further links. With concurrency 2, exactly 3 pages are fetched, 3
    // documents indexed, and the final count is 3.
    let seed = String::from("http://s.com/");
    let mut c = Crawler::new(seed.clone(), 2);
    let mut fetched: Vec<String> = Vec::new();
    loop {
        match c.poll_dispatch() {
            DispatchStep::Dispatch(url) => {
                fetched.push(url.clone());
                let page = if url == seed {
                    page_with_links("seed", "root page", &["/one", "http://t.com/two"])
                } else {
                    page_with_links("leaf", "leaf page", &[])
                };
                c.on_fetch_success(&url, &page);
            }
            DispatchStep::Discard(_) => {}
            DispatchStep::AwaitWorker => {
                // The driver is synchronous: no worker is actually pending.
                unreachable!("no worker can be awaited in a synchronous drive");
            }
            DispatchStep::Finished => break,
        }
    }
    assert_eq!(fetched.len(), 3);
    assert_eq!(
        fetched,
        vec![
            String::from("http://s.com/"),
            String::from("http://s.com/one"),
            String::from("http://t.com/two")
        ]
    );
    assert_eq!(c.index.len(), 3);
    assert_eq!(c.dequeued, 3);
    assert_eq!(c.in_flight, 0);
}

#[test]
fn shared_targets_are_fetched_exactly_once() {
    // Two pages both link to the same target; the target is dispatched once.
    let seed = String::from("http://s.com/");
    let mut c = Crawler::new(seed.clone(), 3);
    let mut fetched: Vec<String> = Vec::new();
    let mut discarded = 0usize;
    loop {
        match c.poll_dispatch() {
            DispatchStep::Dispatch(url) => {
                fetched.push(url.clone());
                let page = if url == seed {
                    page_with_links("seed", "", &["/a", "/b"])
                } else if url.ends_with("/a") || url.ends_with("/b") {
                    page_with_links("mid", "", &["/shared"])
                } else {
                    page_with_links("leaf", "", &[])
                };
                c.on_fetch_success(&url, &page);
            }
            DispatchStep::Discard(_) => discarded += 1,
            DispatchStep::AwaitWorker => unreachable!(),
            DispatchStep::Finished => break,
        }
    }
    let shared_fetches = fetched
        .iter()
        .filter(|u| u.as_str() == "http://s.com/shared")
        .count();
    assert_eq!(shared_fetches, 1);
    assert_eq!(discarded, 1);
    assert_eq!(fetched.len(), 4);
    assert_eq!(c.dequeued, 5);
}

#[test]
fn dispatch_respects_the_permit_bound() {
    let seed = String::from("http://s.com/");
    let mut c = Crawler::new(seed.clone(), 1);
    let first = c.poll_dispatch();
    let url = match first {
        DispatchStep::Dispatch(u) => u,
        _ => panic!("the seed must be dispatched"),
    };
    assert_eq!(c.in_flight, 1);
    // Discovery while the one permit is taken: the engine must wait.
    c.on_fetch_success(&url, &page_with_links("seed", "", &["/next", "/more"]));
    assert_eq!(c.in_flight, 0);
    let second = match c.poll_dispatch() {
        DispatchStep::Dispatch(u) => u,
        _ => panic!("a permit is free and the frontier is non-empty"),
    };
    assert_eq!(second, "http://s.com/next");
    assert!(matches!(c.poll_dispatch(), DispatchStep::AwaitWorker));
    assert_eq!(c.in_flight, 1);
    c.on_fetch_failure();
    assert_eq!(c.in_flight, 0);
    let third = match c.poll_dispatch() {
        DispatchStep::Dispatch(u) => u,
        _ => panic!("a permit is free again"),
    };
    assert_eq!(third, "http://s.com/more");
}

#[test]
fn failed_fetch_is_not_retried_and_does_not_stop_the_run() {
    let seed = String::from("http://s.com/");
    let mut c = Crawler::new(seed.clone(), 2);
    let url = match c.poll_dispatch() {
        DispatchStep::Dispatch(u) => u,
        _ => panic!("the seed must be dispatched"),
    };
    c.on_fetch_failure();
    assert_eq!(c.index.len(), 0);
    assert!(matches!(c.poll_dispatch(), DispatchStep::Finished));
    // The failed URL stays visited: re-enqueueing it is discarded.
    let _ = url;
}

#[test]
fn crawled_pages_are_searchable_in_the_same_run() {
    let seed = String::from("http://s.com/");
    let mut c = Crawler::new(seed.clone(), 2);
    loop {
        match c.poll_dispatch() {
            DispatchStep::Dispatch(url) => {
                let page = if url == seed {
                    page_with_links("start here", "links ahead", &["/deep"])
                } else {
                    page_with_links("deep page", "treasure inside", &[])
                };
                c.on_fetch_success(&url, &page);
            }
            DispatchStep::Discard(_) => {}
            DispatchStep::AwaitWorker => unreachable!(),
            DispatchStep::Finished => break,
        }
    }
    let hits = c.index.query("treasure");
    assert_eq!(hits.len(), 1);
    assert_eq!(hits[0].doc, 1);
    assert!(c.index.query("nothinghere").is_empty());
}
