use sitemirror::crawler::{Crawler, Step};
use sitemirror::urls::CrawlTarget;

/// Drives a crawl to completion, answering every fetch from `pages`:
/// a URL listed there is answered with its body, any other URL fails.
/// Returns the fetched URLs in order, the skipped URLs, and the outcome.
fn drive(seed: &str, recursive: bool, pages: &[(&str, &str)]) -> (Vec<String>, Vec<String>, bool) {
    let mut c = Crawler::new(seed, recursive).expect("seed should parse");
    let mut fetched: Vec<String> = Vec::new();
    let mut skipped: Vec<String> = Vec::new();
    loop {
        match c.step() {
            Step::Done => break,
            Step::Skip(u) => skipped.push(u),
            Step::Fetch(t) => {
                fetched.push(t.url.clone());
                match pages.iter().find(|(u, _)| *u == t.url.as_str()) {
                    Some((_, body)) => {
                        c.on_fetched(&t, body);
                    }
                    None => c.on_failed(&t),
                }
            }
        }
    }
    (fetched, skipped, c.succeeded())
}

#[test]
fn non_recursive_fetches_seed_only() {
    let (fetched, skipped, ok) = drive(
        "https://ex.com/index.html",
        false,
        &[("https://ex.com/index.html", "<a href=\"/page2\">p</a>")],
    );
    assert_eq!(fetched, vec!["https://ex.com/index.html"]);
    assert!(skipped.is_empty());
    assert!(ok);
}

#[test]
fn recursive_follows_same_host_links_only() {
    let body = "<html><body><a href=\"/page2\">p</a><img src=\"img.png\"/>\
                <a href=\"https://other.com/x\">o</a></body></html>";
    let (fetched, _, ok) = drive(
        "https://ex.com/index.html",
        true,
        &[
            ("https://ex.com/index.html", body),
            ("https://ex.com/page2", ""),
            ("https://ex.com/img.png", ""),
        ],
    );
    assert_eq!(
        fetched,
        vec![
            "https://ex.com/index.html",
            "https://ex.com/page2",
            "https://ex.com/img.png",
        ]
    );
    assert!(fetched.iter().all(|u| !u.contains("other.com")));
    assert!(ok);
}

#[test]
fn duplicate_and_self_links_fetched_once() {
    let body = "<a href=\"/page2\">1</a><a href=\"/page2\">2</a>\
                <a href=\"index.html\">self</a>";
    let (fetched, skipped, ok) = drive(
        "https://ex.com/index.html",
        true,
        &[("https://ex.com/index.html", body), ("https://ex.com/page2", "")],
    );
    assert_eq!(fetched, vec!["https://ex.com/index.html", "https://ex.com/page2"]);
    assert_eq!(
        fetched.iter().filter(|u| u.as_str() == "https://ex.com/page2").count(),
        1
    );
    assert_eq!(skipped, vec!["https://ex.com/page2", "https://ex.com/index.html"]);
    assert!(ok);
}

#[test]
fn two_page_cycle_terminates() {
    let (fetched, skipped, ok) = drive(
        "https://ex.com/a",
        true,
        &[
            ("https://ex.com/a", "<a href=\"/b\">b</a>"),
            ("https://ex.com/b", "<a href=\"/a\">a</a>"),
        ],
    );
    assert_eq!(fetched, vec!["https://ex.com/a", "https://ex.com/b"]);
    assert_eq!(skipped, vec!["https://ex.com/a"]);
    assert!(ok);
}

#[test]
fn scope_is_by_host_not_port() {
    let body = "<a href=\"https://ex.com:8080/x\">x</a>";
    let (fetched, _, ok) = drive(
        "https://ex.com/index.html",
        true,
        &[
            ("https://ex.com/index.html", body),
            ("https://ex.com:8080/x", ""),
        ],
    );
    assert_eq!(fetched, vec!["https://ex.com/index.html", "https://ex.com:8080/x"]);
    assert!(ok);
}

#[test]
fn non_web_schemes_not_followed() {
    let body = "<a href=\"ftp://ex.com/f\">f</a><a href=\"mailto:someone@ex.com\">m</a>";
    let (fetched, _, ok) = drive(
        "https://ex.com/index.html",
        true,
        &[("https://ex.com/index.html", body)],
    );
    assert_eq!(fetched, vec!["https://ex.com/index.html"]);
    assert!(ok);
}

#[test]
fn relative_parent_reference_resolved() {
    let body = "<a href=\"../up.html\">u</a>";
    let (fetched, _, ok) = drive(
        "https://ex.com/a/b/",
        true,
        &[("https://ex.com/a/b/", body), ("https://ex.com/a/up.html", "")],
    );
    assert_eq!(fetched, vec!["https://ex.com/a/b/", "https://ex.com/a/up.html"]);
    assert!(ok);
}

#[test]
fn depth_first_in_document_order() {
    let (fetched, _, ok) = drive(
        "https://ex.com/",
        true,
        &[
            ("https://ex.com/", "<a href=\"/a\">a</a><a href=\"/b\">b</a>"),
            ("https://ex.com/a", "<a href=\"/a1\">a1</a>"),
            ("https://ex.com/a1", ""),
            ("https://ex.com/b", ""),
        ],
    );
    assert_eq!(
        fetched,
        vec![
            "https://ex.com/",
            "https://ex.com/a",
            "https://ex.com/a1",
            "https://ex.com/b",
        ]
    );
    assert!(ok);
}

#[test]
fn child_failure_does_not_fail_crawl() {
    let body = "<a href=\"/missing\">m</a><a href=\"/page2\">p</a>";
    let (fetched, _, ok) = drive(
        "https://ex.com/index.html",
        true,
        &[("https://ex.com/index.html", body), ("https://ex.com/page2", "")],
    );
    assert_eq!(
        fetched,
        vec![
            "https://ex.com/index.html",
            "https://ex.com/missing",
            "https://ex.com/page2",
        ]
    );
    assert!(ok);
}

#[test]
fn seed_failure_fails_crawl() {
    let (fetched, _, ok) = drive("https://ex.com/index.html", true, &[]);
    assert_eq!(fetched, vec!["https://ex.com/index.html"]);
    assert!(!ok);
}

#[test]
fn malformed_seed_rejected() {
    assert!(Crawler::new("not a url", false).is_none());
    assert!(Crawler::new("/relative/only", true).is_none());
}

#[test]
fn non_web_seed_rejected() {
    assert!(Crawler::new("ftp://ex.com/x", false).is_none());
    assert!(Crawler::new("mailto:someone@ex.com", false).is_none());
}

#[test]
fn followed_and_external_links_reported() {
    let mut c = Crawler::new("https://ex.com/index.html", true).expect("seed should parse");
    let seed = match c.step() {
        Step::Fetch(t) => t,
        _ => panic!("expected the seed to be handed out"),
    };
    let body = "<a href=\"/page2\">p</a><img src=\"img.png\"/>\
                <a href=\"https://other.com/x\">o</a>";
    let (followed, external) = c.on_fetched(&seed, body);
    // Reverse document order: the last pushed link is the next one fetched.
    assert_eq!(followed, vec!["https://ex.com/img.png", "https://ex.com/page2"]);
    assert_eq!(external, vec!["https://other.com/x"]);
}

#[test]
fn nothing_reported_when_not_recursive() {
    let mut c = Crawler::new("https://ex.com/index.html", false).expect("seed should parse");
    let seed = match c.step() {
        Step::Fetch(t) => t,
        _ => panic!("expected the seed to be handed out"),
    };
    let (followed, external) = c.on_fetched(&seed, "<a href=\"/page2\">p</a>");
    assert!(followed.is_empty());
    assert!(external.is_empty());
}

#[test]
fn stepping_after_done_stays_done() {
    let mut c = Crawler::new("https://ex.com/", false).expect("seed should parse");
    match c.step() {
        Step::Fetch(t) => {
            c.on_fetched(&t, "hello");
        }
        _ => panic!("expected the seed to be handed out"),
    }
    assert!(matches!(c.step(), Step::Done));
    assert!(matches!(c.step(), Step::Done));
}

#[test]
fn failure_reported_for_store_as_for_fetch() {
    let mut c = Crawler::new("https://ex.com/", true).expect("seed should parse");
    let seed: CrawlTarget = match c.step() {
        Step::Fetch(t) => t,
        _ => panic!("expected the seed to be handed out"),
    };
    c.on_fetched(&seed, "<a href=\"/p\">p</a>");
    let child = match c.step() {
        Step::Fetch(t) => t,
        _ => panic!("expected the child to be handed out"),
    };
    assert_eq!(child.url, "https://ex.com/p");
    c.on_failed(&child);
    assert!(c.succeeded());
    assert!(matches!(c.step(), Step::Done));
}
