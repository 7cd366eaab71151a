//! The traversal engine: visited-set deduplication, same-host scope
//! filtering, and depth-first ordering over an explicit worklist stack.
//!
//! The crawler itself performs no I/O. The caller drives it: `step` hands out
//! the next URL to fetch (or reports a skip, or completion), and the caller
//! answers each `Fetch` with either `on_fetched` and the body, or
//! `on_failed`. A URL string enters the visited set the moment it is handed
//! out, so it is handed out at most once per run; discovered links are kept
//! only when their host equals the seed's host and their scheme is `http` or
//! `https`; a failure is fatal only for the seed.

use vstd::prelude::*;

use crate::extract::extract_links;
use crate::extract::extracted_links;
use crate::text::contains_str;
use crate::text::str_eq;
use crate::urls::CrawlTarget;
use crate::urls::UrlParts;
use crate::urls::parse_url;
use crate::urls::resolve_url;
use crate::urls::url_join_of;
use crate::urls::url_parse_of;

verus! {

/// True of the schemes the crawler follows.
pub open spec fn is_web_scheme(scheme: Seq<char>) -> bool {
    scheme == "http"@ || scheme == "https"@
}

/// A URL is in scope when its host is the scope host and its scheme is
/// `http` or `https`.
pub open spec fn in_scope(scheme: Seq<char>, host: Seq<char>, scope_host: Seq<char>) -> bool {
    host == scope_host && is_web_scheme(scheme)
}

/// The in-scope resolutions of `links` against `base`, in reverse document
/// order: the order in which they are pushed onto the stack, so that the
/// first link of a document is the next one popped.
pub open spec fn pending_links_of(
    base: Seq<char>,
    links: Seq<Seq<char>>,
    scope_host: Seq<char>,
) -> Seq<UrlParts>
    decreases links.len(),
{
    if links.len() == 0 {
        Seq::empty()
    } else {
        let rest = pending_links_of(base, links.drop_first(), scope_host);
        match url_join_of(base, links.first()) {
            Some(p) => if in_scope(p.1, p.2, scope_host) {
                rest + seq![p]
            } else {
                rest
            },
            None => rest,
        }
    }
}

/// The URL strings of the in-scope resolutions of `links` against `base`,
/// in reverse document order: the links the crawler follows.
pub open spec fn followed_links_of(
    base: Seq<char>,
    links: Seq<Seq<char>>,
    scope_host: Seq<char>,
) -> Seq<Seq<char>>
    decreases links.len(),
{
    if links.len() == 0 {
        Seq::empty()
    } else {
        let rest = followed_links_of(base, links.drop_first(), scope_host);
        match url_join_of(base, links.first()) {
            Some(p) => if in_scope(p.1, p.2, scope_host) {
                rest + seq![p.0]
            } else {
                rest
            },
            None => rest,
        }
    }
}

/// The URL strings of the resolutions of `links` against `base` that are out
/// of scope, in reverse document order: the links the crawler reports and
/// drops.
pub open spec fn external_links_of(
    base: Seq<char>,
    links: Seq<Seq<char>>,
    scope_host: Seq<char>,
) -> Seq<Seq<char>>
    decreases links.len(),
{
    if links.len() == 0 {
        Seq::empty()
    } else {
        let rest = external_links_of(base, links.drop_first(), scope_host);
        match url_join_of(base, links.first()) {
            Some(p) => if !in_scope(p.1, p.2, scope_host) {
                rest + seq![p.0]
            } else {
                rest
            },
            None => rest,
        }
    }
}

/// Every target that a document's links put on the stack is in scope: a
/// resolved link whose host is not the scope host, or whose scheme is not
/// `http` or `https`, is never enqueued, so it is never fetched and nothing
/// is ever discovered through it.
pub proof fn lemma_scope_containment(base: Seq<char>, links: Seq<Seq<char>>, scope_host: Seq<char>)
    ensures
        forall|i: int|
            0 <= i < pending_links_of(base, links, scope_host).len()
                ==> #[trigger] in_scope(
                pending_links_of(base, links, scope_host)[i].1,
                pending_links_of(base, links, scope_host)[i].2,
                scope_host,
            ),
    decreases links.len(),
{
    if links.len() > 0 {
        lemma_scope_containment(base, links.drop_first(), scope_host);
        let rest = pending_links_of(base, links.drop_first(), scope_host);
        let all = pending_links_of(base, links, scope_host);
        match url_join_of(base, links.first()) {
            Some(p) => {
                if in_scope(p.1, p.2, scope_host) {
                    assert(all == rest + seq![p]);
                    assert forall|i: int| 0 <= i < all.len() implies #[trigger] in_scope(
                        all[i].1,
                        all[i].2,
                        scope_host,
                    ) by {
                        if i < rest.len() {
                            assert(all[i] == rest[i]);
                            assert(in_scope(rest[i].1, rest[i].2, scope_host));
                        } else {
                            assert(all[i] == p);
                        }
                    }
                } else {
                    assert(all == rest);
                }
            },
            None => {
                assert(all == rest);
            },
        }
    }
}

/// What one call of `step` reports.
pub enum Step {
    /// The next URL to fetch; it has just entered the visited set.
    Fetch(CrawlTarget),
    /// A pending reference was dropped: this URL string was already visited.
    Skip(String),
    /// The worklist is empty: the crawl is complete.
    Done,
}

/// The crawl state: the visited URL strings, the worklist stack, the fixed
/// scope, and whether the seed itself has failed.
pub struct Crawler {
    pub visited: Vec<String>,
    pub stack: Vec<CrawlTarget>,
    pub scope_host: String,
    pub recursive: bool,
    pub seed_url: String,
    pub seed_failed: bool,
}

impl Crawler {
    /// Every target waiting on the stack is in scope.
    pub open spec fn wf(self) -> bool {
        forall|i: int|
            0 <= i < self.stack@.len() ==> #[trigger] in_scope(
                self.stack@[i].scheme@,
                self.stack@[i].host@,
                self.scope_host@,
            )
    }

    /// Starts a crawl at `seed`. Returns `None` exactly when `seed` is not a
    /// parseable absolute URL or its scheme is not `http` or `https`; else
    /// the worklist holds the seed alone, nothing is visited, the scope host
    /// is the seed's host, and the crawl has not failed.
    pub fn new(seed: &str, recursive: bool) -> (r: Option<Crawler>)
        ensures
            match url_parse_of(seed@) {
                Some(p) => {
                    if is_web_scheme(p.1) {
                        &&& r is Some
                        &&& r->0.wf()
                        &&& r->0.visited@.len() == 0
                        &&& r->0.stack.deep_view() =~= seq![p]
                        &&& r->0.scope_host@ == p.2
                        &&& r->0.recursive == recursive
                        &&& r->0.seed_url@ == p.0
                        &&& !r->0.seed_failed
                    } else {
                        r is None
                    }
                },
                None => r is None,
            },
    {
        let t = match parse_url(seed) {
            Some(t) => t,
            None => {
                return None;
            },
        };
        if !(str_eq(t.scheme.as_str(), "http") || str_eq(t.scheme.as_str(), "https")) {
            return None;
        }
        let scope_host = t.host.clone();
        let seed_url = t.url.clone();
        let mut stack: Vec<CrawlTarget> = Vec::new();
        stack.push(t);
        let c = Crawler {
            visited: Vec::new(),
            stack,
            scope_host,
            recursive,
            seed_url,
            seed_failed: false,
        };
        proof {
            assert(c.stack.deep_view() =~= seq![url_parse_of(seed@)->0]);
        }
        Some(c)
    }

    /// Pops the next pending target. An already-visited URL string is
    /// reported as `Skip` and dropped; an unvisited one enters the visited
    /// set and is handed out as `Fetch`; an empty worklist is `Done`. Only
    /// the popped entry and the visited set change, and a fetched target is
    /// in scope whenever the state is well-formed.
    pub fn step(&mut self) -> (r: Step)
        ensures
            final(self).scope_host == old(self).scope_host,
            final(self).recursive == old(self).recursive,
            final(self).seed_url == old(self).seed_url,
            final(self).seed_failed == old(self).seed_failed,
            old(self).wf() ==> final(self).wf(),
            match r {
                Step::Done => {
                    &&& old(self).stack@.len() == 0
                    &&& final(self).stack@ == old(self).stack@
                    &&& final(self).visited@ == old(self).visited@
                },
                Step::Skip(u) => {
                    &&& old(self).stack@.len() > 0
                    &&& u == old(self).stack@.last().url
                    &&& old(self).visited.deep_view().contains(u@)
                    &&& final(self).stack@ == old(self).stack@.drop_last()
                    &&& final(self).visited@ == old(self).visited@
                },
                Step::Fetch(t) => {
                    &&& old(self).stack@.len() > 0
                    &&& t == old(self).stack@.last()
                    &&& !old(self).visited.deep_view().contains(t.url@)
                    &&& final(self).stack@ == old(self).stack@.drop_last()
                    &&& final(self).visited@ == old(self).visited@.push(t.url)
                    &&& old(self).wf() ==> in_scope(t.scheme@, t.host@, old(self).scope_host@)
                },
            },
    {
        let t = match self.stack.pop() {
            Some(t) => t,
            None => {
                return Step::Done;
            },
        };
        if contains_str(&self.visited, t.url.as_str()) {
            Step::Skip(t.url)
        } else {
            self.visited.push(t.url.clone());
            Step::Fetch(t)
        }
    }

    /// Records the body fetched for `t`. With recursion off nothing changes
    /// and nothing is reported; with recursion on, exactly the in-scope
    /// resolutions of the body's extracted links against `t`'s URL are pushed
    /// onto the stack, in reverse document order, and the result reports the
    /// followed URLs and the resolved but out-of-scope URLs, in that same
    /// order.
    pub fn on_fetched(&mut self, t: &CrawlTarget, body: &str) -> (r: (Vec<String>, Vec<String>))
        ensures
            final(self).visited@ == old(self).visited@,
            final(self).scope_host == old(self).scope_host,
            final(self).recursive == old(self).recursive,
            final(self).seed_url == old(self).seed_url,
            final(self).seed_failed == old(self).seed_failed,
            old(self).recursive ==> {
                &&& final(self).stack.deep_view() == old(self).stack.deep_view()
                    + pending_links_of(t.url@, extracted_links(body@), old(self).scope_host@)
                &&& r.0.deep_view() == followed_links_of(
                    t.url@,
                    extracted_links(body@),
                    old(self).scope_host@,
                )
                &&& r.1.deep_view() == external_links_of(
                    t.url@,
                    extracted_links(body@),
                    old(self).scope_host@,
                )
            },
            !old(self).recursive ==> final(self).stack@ == old(self).stack@ && r.0@.len() == 0
                && r.1@.len() == 0,
            old(self).wf() ==> final(self).wf(),
    {
        let mut followed: Vec<String> = Vec::new();
        let mut external: Vec<String> = Vec::new();
        if !self.recursive {
            return (followed, external);
        }
        let links = extract_links(body);
        let ghost links_v = links.deep_view();
        let ghost stack0 = self.stack.deep_view();
        let n = links.len();
        proof {
            assert(links_v.subrange(n as int, n as int) =~= Seq::<Seq<char>>::empty());
            assert(followed.deep_view() =~= Seq::<Seq<char>>::empty());
            assert(external.deep_view() =~= Seq::<Seq<char>>::empty());
        }
        let mut i: usize = n;
        while i > 0
            invariant
                i <= n,
                n == links@.len(),
                links.deep_view() == links_v,
                links_v.len() == n,
                self.visited@ == old(self).visited@,
                self.scope_host == old(self).scope_host,
                self.recursive == old(self).recursive,
                self.seed_url == old(self).seed_url,
                self.seed_failed == old(self).seed_failed,
                self.stack.deep_view() == stack0 + pending_links_of(
                    t.url@,
                    links_v.subrange(i as int, n as int),
                    self.scope_host@,
                ),
                followed.deep_view() == followed_links_of(
                    t.url@,
                    links_v.subrange(i as int, n as int),
                    self.scope_host@,
                ),
                external.deep_view() == external_links_of(
                    t.url@,
                    links_v.subrange(i as int, n as int),
                    self.scope_host@,
                ),
                old(self).wf() ==> self.wf(),
                stack0 == old(self).stack.deep_view(),
            decreases i,
        {
            i = i - 1;
            let ghost tail = pending_links_of(
                t.url@,
                links_v.subrange(i + 1, n as int),
                self.scope_host@,
            );
            proof {
                assert(links.deep_view()[i as int] == links@[i as int]@);
                assert(links_v.subrange(i as int, n as int).drop_first() =~= links_v.subrange(
                    i + 1,
                    n as int,
                ));
                assert(links_v.subrange(i as int, n as int).first() == links_v[i as int]);
            }
            match resolve_url(t.url.as_str(), links[i].as_str()) {
                Some(t2) => {
                    let keep = str_eq(t2.host.as_str(), self.scope_host.as_str()) && (str_eq(
                        t2.scheme.as_str(),
                        "http",
                    ) || str_eq(t2.scheme.as_str(), "https"));
                    if keep {
                        let ghost stack_before = self.stack.deep_view();
                        let ghost followed_before = followed.deep_view();
                        let ghost t2v = t2@;
                        followed.push(t2.url.clone());
                        self.stack.push(t2);
                        proof {
                            assert(followed.deep_view() =~= followed_before + seq![t2v.0]);
                            assert(self.stack.deep_view() =~= stack_before + seq![t2v]);
                            assert(stack0 + (tail + seq![t2v]) =~= (stack0 + tail) + seq![t2v]);
                        }
                    } else {
                        let ghost external_before = external.deep_view();
                        let ghost t2v = t2@;
                        external.push(t2.url);
                        proof {
                            assert(external.deep_view() =~= external_before + seq![t2v.0]);
                        }
                    }
                },
                None => {},
            }
        }
        proof {
            assert(links_v.subrange(0, n as int) =~= links_v);
        }
        (followed, external)
    }

    /// Records that fetching or storing `t` failed. The crawl as a whole
    /// fails exactly when the failed target is the seed; nothing else
    /// changes, so every other pending target is still processed.
    pub fn on_failed(&mut self, t: &CrawlTarget)
        ensures
            final(self).visited@ == old(self).visited@,
            final(self).stack@ == old(self).stack@,
            final(self).scope_host == old(self).scope_host,
            final(self).recursive == old(self).recursive,
            final(self).seed_url == old(self).seed_url,
            final(self).seed_failed == (old(self).seed_failed || t.url@ == old(self).seed_url@),
            old(self).wf() ==> final(self).wf(),
    {
        if str_eq(t.url.as_str(), self.seed_url.as_str()) {
            self.seed_failed = true;
        }
    }

    /// True while no failure has hit the seed itself: the crawl's overall
    /// outcome.
    pub fn succeeded(&self) -> (r: bool)
        ensures
            r == !self.seed_failed,
    {
        !self.seed_failed
    }
}

/// A URL string fetched once is never fetched again. `u1` was handed out at
/// some step (it was unvisited and entered the visited set); the visited set
/// only ever grows; so a later step that hands out `u2`, which is unvisited
/// then, hands out a different URL string.
pub proof fn lemma_fetched_at_most_once(
    v0: Seq<Seq<char>>,
    v1: Seq<Seq<char>>,
    v2: Seq<Seq<char>>,
    u1: Seq<char>,
    u2: Seq<char>,
)
    requires
        !v0.contains(u1),
        v1 == v0.push(u1),
        forall|u: Seq<char>| v1.contains(u) ==> v2.contains(u),
        !v2.contains(u2),
    ensures
        u1 != u2,
{
    assert(v1.contains(u1)) by {
        assert(v1[v0.len() as int] == u1);
    }
}

/// A failure on a target other than the seed never fails the crawl: if the
/// seed has not failed and a failed target's URL differs from the seed's,
/// the crawl still succeeds.
pub proof fn lemma_failure_isolated(c0: Crawler, c1: Crawler, t: CrawlTarget)
    requires
        !c0.seed_failed,
        c1.seed_failed == (c0.seed_failed || t.url@ == c0.seed_url@),
        t.url@ != c0.seed_url@,
    ensures
        !c1.seed_failed,
{
}

} // verus!
