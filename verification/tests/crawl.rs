use crawl::crawl::{Action, Crawl, StartError, Status, StopReason};
use crawl::markup::{Attribute, Document, Element, Node};
use crawl::target::{resolve, CrawlTarget, Resolution};
use crawl::text::{holds, same_text, starts_with};

/// What a site serves: for each address the body, or `None` for an address
/// whose fetch fails.
fn body_of<'a>(site: &[(&'a str, Option<&'a str>)], url: &str) -> Option<&'a str> {
    match site.iter().find(|(address, _)| *address == url) {
        Some((_, body)) => *body,
        None => None,
    }
}

/// Runs a crawl to its end against `site` and returns the addresses fetched
/// in order, the addresses skipped, the reason for the stop and the crawl.
fn run(seed: &str, budget: u32, site: &[(&str, Option<&str>)]) -> (Vec<String>, Vec<String>, StopReason, Crawl) {
    let mut crawl = Crawl::new(seed, budget).expect("seed parses");
    let mut fetched = Vec::new();
    let mut skipped = Vec::new();
    loop {
        match crawl.advance() {
            Action::Stop(reason) => return (fetched, skipped, reason, crawl),
            Action::Skip(url) => skipped.push(url),
            Action::Fetch(target) => {
                fetched.push(String::from(target.as_str()));
                crawl.absorb(&target, body_of(site, target.as_str()));
            }
        }
    }
}

fn page(raw: &str) -> CrawlTarget {
    match resolve(raw, None) {
        Resolution::Target(target) => target,
        other => panic!("{} did not resolve: {:?}", raw, other),
    }
}

#[test]
fn bad_seed_is_a_start_error() {
    assert!(matches!(Crawl::new("not an address", 3), Err(StartError::BadSeed)));
    assert!(matches!(Crawl::new("", 3), Err(StartError::BadSeed)));
    assert!(matches!(Crawl::new("/relative/path", 3), Err(StartError::BadSeed)));
}

#[test]
fn crawl_begins_at_a_parsed_seed() {
    assert!(matches!(Crawl::begin(None, 3), Err(StartError::BadSeed)));
    let mut crawl = Crawl::begin(Some(String::from("https://site/x")), 4).expect("seed is given");
    assert_eq!(crawl.remaining(), 4);
    assert_eq!(crawl.pending_count(), 1);
    match crawl.advance() {
        Action::Fetch(target) => assert_eq!(target.as_str(), "https://site/x"),
        other => panic!("expected a fetch: {:?}", other),
    }
}

#[test]
fn crawl_starts_with_the_normalized_seed() {
    let mut crawl = Crawl::new("HTTP://Example.com", 2).expect("seed parses");
    assert_eq!(crawl.status(), Status::Running);
    assert_eq!(crawl.remaining(), 2);
    assert_eq!(crawl.pending_count(), 1);
    assert_eq!(crawl.visit_count(), 0);
    assert!(crawl.images().is_empty());
    match crawl.advance() {
        Action::Fetch(target) => assert_eq!(target.as_str(), "http://example.com/"),
        other => panic!("expected a fetch: {:?}", other),
    }
    assert_eq!(crawl.remaining(), 1);
    assert_eq!(crawl.pending_count(), 0);
    assert_eq!(crawl.visit_count(), 1);
    assert_eq!(crawl.status(), Status::Stopped(StopReason::Exhausted));
}

#[test]
fn breadth_first_order() {
    let site = [
        ("http://site/", Some("<p><a href=\"/a\">a</a><a href=\"/b\">b</a></p>")),
        ("http://site/a", Some("<a href=\"/c\">c</a>")),
        ("http://site/b", Some("<a href=\"/d\">d</a><a href=\"/c\">c</a>")),
        ("http://site/c", Some("<p>leaf</p>")),
        ("http://site/d", Some("<p>leaf</p>")),
    ];
    let (fetched, skipped, reason, crawl) = run("http://site/", 10, &site);
    assert_eq!(fetched, vec!["http://site/", "http://site/a", "http://site/b", "http://site/c", "http://site/d"]);
    assert!(skipped.is_empty());
    assert_eq!(reason, StopReason::Exhausted);
    assert_eq!(crawl.remaining(), 5);
    assert_eq!(crawl.visit_count(), 5);
}

#[test]
fn page_is_fetched_at_most_once() {
    let site = [
        ("http://site/", Some("<a href=\"/a\">a</a><a href=\"/a\">a</a><a href=\"/\">home</a><a href=\"a\">a</a>")),
        ("http://site/a", Some("<a href=\"/\">home</a><a href=\"/a\">self</a><a href=\"http://SITE/a\">self</a>")),
    ];
    let (fetched, _, reason, crawl) = run("http://site/", 10, &site);
    assert_eq!(fetched, vec!["http://site/", "http://site/a"]);
    assert_eq!(reason, StopReason::Exhausted);
    assert_eq!(crawl.remaining(), 8);
}

#[test]
fn unresolvable_references_are_never_fetched() {
    let site = [(
        "http://site/",
        Some("<a href=\"ftp://x\">f</a><a href=\"mailto:a@b.c\">m</a><a href=\"http://[::1\">bad</a><a href=\"/ok\">ok</a><img src=\"ftp://x/i.png\"><img src=\"data:image/png;base64,AAAA\">"),
    )];
    let (fetched, skipped, reason, crawl) = run("http://site/", 10, &site);
    assert_eq!(fetched, vec!["http://site/", "http://site/ok"]);
    assert!(skipped.is_empty());
    assert_eq!(reason, StopReason::Exhausted);
    assert!(crawl.images().is_empty());
}

#[test]
fn seed_with_another_scheme_is_skipped_and_counted() {
    let (fetched, skipped, reason, crawl) = run("ftp://x", 3, &[]);
    assert!(fetched.is_empty());
    assert_eq!(skipped, vec!["ftp://x/"]);
    assert_eq!(reason, StopReason::Exhausted);
    assert_eq!(crawl.remaining(), 2);
    assert_eq!(crawl.visit_count(), 1);
}

#[test]
fn failed_page_does_not_end_the_crawl() {
    let site = [
        ("http://site/", Some("<a href=\"/down\">a</a><a href=\"/up\">b</a>")),
        ("http://site/down", None),
        ("http://site/up", Some("<img src=\"/i.png\">")),
    ];
    let (fetched, _, reason, crawl) = run("http://site/", 10, &site);
    assert_eq!(fetched, vec!["http://site/", "http://site/down", "http://site/up"]);
    assert_eq!(reason, StopReason::Exhausted);
    assert_eq!(crawl.images(), vec!["http://site/i.png"]);
    assert_eq!(crawl.remaining(), 7);
}

#[test]
fn failed_fetch_changes_nothing() {
    let mut crawl = Crawl::new("http://site/", 5).expect("seed parses");
    let seed = match crawl.advance() {
        Action::Fetch(target) => target,
        other => panic!("expected a fetch: {:?}", other),
    };
    crawl.absorb(&seed, Some("<a href=\"/a\">a</a><img src=\"/i.png\">"));
    assert_eq!(crawl.pending_count(), 1);
    crawl.absorb(&page("http://site/other"), None);
    assert_eq!(crawl.pending_count(), 1);
    assert_eq!(crawl.visit_count(), 1);
    assert_eq!(crawl.remaining(), 4);
    assert_eq!(crawl.images(), vec!["http://site/i.png"]);
    assert_eq!(crawl.status(), Status::Running);
}

#[test]
fn unparsed_page_counts_as_empty() {
    let site = [
        ("http://site/", Some("<a href=\"/broken\">a</a><a href=\"/fine\">b</a>")),
        ("http://site/broken", Some("<div></div><body><a href=\"/hidden\">h</a><img src=\"/h.png\"></body>")),
        ("http://site/fine", Some("")),
    ];
    let (fetched, _, reason, crawl) = run("http://site/", 10, &site);
    assert_eq!(fetched, vec!["http://site/", "http://site/broken", "http://site/fine"]);
    assert_eq!(reason, StopReason::Exhausted);
    assert!(crawl.images().is_empty());
}

#[test]
fn seed_without_links_ends_after_one_page() {
    let site = [(
        "http://site/",
        Some("<div><img src=\"1.png\"><img src=\"2.png\"><img src=\"3.png\"><img src=\"4.png\"><img src=\"5.png\"></div>"),
    )];
    let (fetched, _, reason, crawl) = run("http://site/", 3, &site);
    assert_eq!(fetched, vec!["http://site/"]);
    assert_eq!(reason, StopReason::Exhausted);
    assert_eq!(crawl.remaining(), 2);
    assert_eq!(crawl.images().len(), 5);
}

#[test]
fn budget_counts_page_visits() {
    let site = [
        ("http://site/", Some("<a href=\"/a\">a</a><a href=\"/b\">b</a><a href=\"/c\">c</a>")),
        ("http://site/a", Some("<img src=\"/a.png\">")),
        ("http://site/b", Some("<img src=\"/b.png\">")),
        ("http://site/c", Some("<img src=\"/c.png\">")),
    ];
    let (fetched, _, reason, crawl) = run("http://site/", 2, &site);
    assert_eq!(fetched, vec!["http://site/", "http://site/a"]);
    assert_eq!(reason, StopReason::BudgetMet);
    assert_eq!(crawl.remaining(), 0);
    assert_eq!(crawl.pending_count(), 2);
    assert_eq!(crawl.images(), vec!["http://site/a.png"]);
    assert_eq!(crawl.status(), Status::Stopped(StopReason::BudgetMet));
}

#[test]
fn budget_of_zero_stops_at_once() {
    let (fetched, skipped, reason, crawl) = run("http://site/", 0, &[]);
    assert!(fetched.is_empty());
    assert!(skipped.is_empty());
    assert_eq!(reason, StopReason::BudgetMet);
    assert_eq!(crawl.pending_count(), 1);
}

#[test]
fn stopped_crawl_stays_stopped() {
    let mut crawl = Crawl::new("http://site/", 1).expect("seed parses");
    assert!(matches!(crawl.advance(), Action::Fetch(_)));
    assert!(matches!(crawl.advance(), Action::Stop(StopReason::Exhausted)));
    assert!(matches!(crawl.advance(), Action::Stop(StopReason::Exhausted)));
    assert_eq!(crawl.remaining(), 0);
    assert_eq!(crawl.visit_count(), 1);
}

#[test]
fn image_on_two_pages_is_collected_once() {
    let site = [
        ("http://site/", Some("<a href=\"/a/\">a</a><img src=\"/logo.png\"><img src=\"logo.png\"><img src=\"first.png\">")),
        ("http://site/a/", Some("<img src=\"/logo.png\"><img src=\"../logo.png\"><img src=\"logo.png\"><img src=\"http://site/first.png\">")),
    ];
    let (_, _, _, crawl) = run("http://site/", 10, &site);
    assert_eq!(crawl.images(), vec!["http://site/logo.png", "http://site/first.png", "http://site/a/logo.png"]);
}

#[test]
fn empty_image_source_is_not_resolved() {
    let site = [("http://site/dir/page", Some("<img><img src=\"\"><img src=\"x.png\">"))];
    let (_, _, _, crawl) = run("http://site/dir/page", 10, &site);
    assert_eq!(crawl.images(), vec!["http://site/dir/x.png"]);
}

#[test]
fn empty_link_is_not_resolved() {
    let site = [
        ("http://site/dir/page#part", Some("<a href=\"\">self</a><a href>bare</a><a href=\"next\">n</a>")),
        ("http://site/dir/next", Some("<a href=\"\">self</a>")),
    ];
    let (fetched, _, reason, crawl) = run("http://site/dir/page#part", 10, &site);
    assert_eq!(fetched, vec!["http://site/dir/page#part", "http://site/dir/next"]);
    assert_eq!(reason, StopReason::Exhausted);
    assert_eq!(crawl.remaining(), 8);
}

#[test]
fn offers_take_targets_only() {
    let mut crawl = Crawl::new("http://site/", 5).expect("seed parses");
    crawl.offer_link(resolve("ftp://x", None));
    crawl.offer_link(resolve("relative", None));
    assert_eq!(crawl.pending_count(), 1);
    crawl.offer_link(resolve("http://site/a", None));
    crawl.offer_link(resolve("http://site/a", None));
    crawl.offer_link(resolve("http://site/", None));
    assert_eq!(crawl.pending_count(), 2);
    crawl.offer_image(resolve("ftp://x/i.png", None));
    crawl.offer_image(resolve("http://site/i.png", None));
    crawl.offer_image(resolve("http://site/i.png", None));
    assert_eq!(crawl.images(), vec!["http://site/i.png"]);
    assert_eq!(crawl.remaining(), 5);
}

#[test]
fn absorbing_a_hand_built_document() {
    let mut crawl = Crawl::new("http://site/dir/", 5).expect("seed parses");
    let seed = match crawl.advance() {
        Action::Fetch(target) => target,
        other => panic!("expected a fetch: {:?}", other),
    };
    let link = |href: &str| {
        Node::Element(Element {
            name: String::from("a"),
            attributes: vec![Attribute { name: String::from("href"), value: Some(String::from(href)) }],
        })
    };
    let image = |src: &str| {
        Node::Element(Element {
            name: String::from("img"),
            attributes: vec![Attribute { name: String::from("src"), value: Some(String::from(src)) }],
        })
    };
    let document = Document { nodes: vec![link("x"), image("p.png"), link("/y"), link("x"), image("p.png")] };
    crawl.absorb_document(&seed, &document);
    assert_eq!(crawl.pending_count(), 2);
    assert_eq!(crawl.images(), vec!["http://site/dir/p.png"]);
    match crawl.advance() {
        Action::Fetch(target) => assert_eq!(target.as_str(), "http://site/dir/x"),
        other => panic!("expected a fetch: {:?}", other),
    }
    match crawl.advance() {
        Action::Fetch(target) => assert_eq!(target.as_str(), "http://site/y"),
        other => panic!("expected a fetch: {:?}", other),
    }
}

#[test]
fn text_helpers() {
    assert!(starts_with("http://a", "http:"));
    assert!(starts_with("abc", ""));
    assert!(starts_with("abc", "abc"));
    assert!(!starts_with("ab", "abc"));
    assert!(!starts_with("abd", "abc"));
    assert!(same_text("", ""));
    assert!(same_text("\u{e9}a", "\u{e9}a"));
    assert!(!same_text("a", "b"));
    assert!(!same_text("a", "ab"));
    let items = vec![String::from("a"), String::from("b")];
    assert!(holds(&items, "b"));
    assert!(!holds(&items, "c"));
    assert!(!holds(&Vec::new(), ""));
}
