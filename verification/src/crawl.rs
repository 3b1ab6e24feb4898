//! The crawl frontier: a breadth-first traversal of same-domain pages up to
//! a depth limit.
//!
//! Fetching a page is outside work; everything the frontier decides — which
//! URL is fetched next, which discovered links join the queue, when the
//! crawl is over — lives here as a state machine. The caller loops:
//! `next_to_fetch` hands out the next unvisited URL, and `record_success`
//! or `record_failure` returns the fetch's outcome. Invariants hold
//! throughout: every queued URL is on the seed's domain, queued depths are
//! non-decreasing (breadth-first layering), a URL is visited at most once,
//! and with a depth limit of one only the seed page can ever be recorded.

use crate::html::{html_hrefs, html_href_list};
use crate::resolve::{resolve_link, resolve_link_spec};
use crate::strutil::{str_eq, str_views};
use crate::weburl::{opt_view, parse_url, url_domain, url_parses, url_scheme};
use vstd::prelude::*;

verus! {

/// Why a crawl cannot start: the start URL does not parse as an absolute
/// URL, or it has no domain to restrict the crawl to.
#[derive(Debug, Clone, PartialEq, Eq, Structural)]
pub enum CrawlError {
    InvalidStartUrl,
    NoDomain,
}

/// One page waiting in the crawl queue: its URL and how many link hops it
/// lies from the seed (the seed itself is at depth 1).
pub struct CrawlItem {
    pub url: String,
    pub depth: usize,
}

/// The same-domain links of a list of `href`s: each `href` resolved against
/// the page's URL, keeping those that resolved to a web-scheme URL whose
/// domain is exactly `dom`.
pub open spec fn same_domain_links_spec(
    hrefs: Seq<Seq<char>>,
    base: Seq<char>,
    dom: Seq<char>,
) -> Seq<Seq<char>>
    decreases hrefs.len(),
{
    if hrefs.len() == 0 {
        Seq::empty()
    } else {
        let rest = same_domain_links_spec(hrefs.drop_last(), base, dom);
        match resolve_link_spec(base, hrefs.last()) {
            Some(u) => if url_parses(u) && (url_scheme(u) == "http"@ || url_scheme(u)
                == "https"@) && url_domain(u) == Some(dom) {
                rest.push(u)
            } else {
                rest
            },
            None => rest,
        }
    }
}

/// What extracting the same-domain links of a whole page yields: nothing
/// when the page's own URL does not parse.
pub open spec fn page_links_spec(html: Seq<char>, page: Seq<char>, dom: Seq<char>) -> Seq<
    Seq<char>,
> {
    if url_parses(page) {
        same_domain_links_spec(html_href_list(html), page, dom)
    } else {
        Seq::empty()
    }
}

/// Every member of `same_domain_links_spec` is on the domain `dom`.
pub proof fn lemma_same_domain_members(hrefs: Seq<Seq<char>>, base: Seq<char>, dom: Seq<char>)
    ensures
        forall|k: int|
            0 <= k < same_domain_links_spec(hrefs, base, dom).len()
                ==> url_domain(#[trigger] same_domain_links_spec(hrefs, base, dom)[k]) == Some(
                dom,
            ),
    decreases hrefs.len(),
{
    if hrefs.len() > 0 {
        lemma_same_domain_members(hrefs.drop_last(), base, dom);
    }
}

/// Extracts the links of an HTML page that stay on `base_domain`: each
/// `href` resolved against `page_url`, keeping `http`/`https` URLs whose
/// domain equals `base_domain` exactly. An unparseable `page_url` yields no
/// links.
pub fn extract_same_domain_links(html: &str, page_url: &str, base_domain: &str) -> (r: Vec<String>)
    ensures
        str_views(r@) == page_links_spec(html@, page_url@, base_domain@),
{
    let mut links: Vec<String> = Vec::new();
    proof {
        assert(str_views(links@) =~= Seq::<Seq<char>>::empty());
    }
    if parse_url(page_url).is_none() {
        return links;
    }
    let hrefs = html_hrefs(html);
    let n = hrefs.len();
    let mut i: usize = 0;
    while i < n
        invariant
            n == hrefs@.len(),
            i <= n,
            url_parses(page_url@),
            str_views(links@) == same_domain_links_spec(
                str_views(hrefs@).take(i as int),
                page_url@,
                base_domain@,
            ),
        decreases n - i,
    {
        let ghost prev = str_views(links@);
        match resolve_link(page_url, hrefs[i].as_str()) {
            Some(u) => {
                match parse_url(u.as_str()) {
                    Some(info) => {
                        let scheme_ok = str_eq(info.scheme.as_str(), "http") || str_eq(
                            info.scheme.as_str(),
                            "https",
                        );
                        let domain_ok = match &info.domain {
                            Some(d) => str_eq(d.as_str(), base_domain),
                            None => false,
                        };
                        if scheme_ok && domain_ok {
                            let ghost uv = u@;
                            links.push(u);
                            proof {
                                assert(str_views(links@) =~= prev.push(uv));
                            }
                        }
                    },
                    None => {},
                }
            },
            None => {},
        }
        proof {
            let hs = str_views(hrefs@);
            assert(hs.take(i + 1).drop_last() =~= hs.take(i as int));
            assert(hs.take(i + 1).last() == hs[i as int]);
        }
        i += 1;
    }
    proof {
        assert(str_views(hrefs@).take(n as int) =~= str_views(hrefs@));
    }
    links
}

/// The crawl frontier's state: the FIFO queue of pages to visit, the URLs
/// already visited, the one fetch outstanding (if any), and the pages
/// recorded so far. `frontier` is the depth of the last URL handed out,
/// kept to state the breadth-first layering.
pub struct CrawlState {
    pub seed: String,
    pub base_domain: String,
    pub max_depth: usize,
    pub queue: Vec<CrawlItem>,
    pub visited: Vec<String>,
    pub current: Option<CrawlItem>,
    pub pages: Vec<(String, String)>,
    pub frontier: Ghost<nat>,
}

impl CrawlState {
    /// The URLs waiting in the queue, in order.
    pub open spec fn queue_urls(self) -> Seq<Seq<char>> {
        self.queue@.map_values(|it: CrawlItem| it.url@)
    }

    /// The URLs already visited.
    pub open spec fn visited_set(self) -> Set<Seq<char>> {
        str_views(self.visited@).to_set()
    }

    /// The URLs of the recorded pages, in order.
    pub open spec fn page_urls(self) -> Seq<Seq<char>> {
        self.pages@.map_values(|p: (String, String)| p.0@)
    }

    /// What holds of every queued item: a depth of at least 1 that respects
    /// the depth limit (the seed's depth 1 is allowed even when the limit is
    /// 0), and a URL on the crawl's domain.
    pub open spec fn item_inv(self, it: CrawlItem) -> bool {
        &&& 1 <= it.depth
        &&& it.depth == 1 || it.depth <= self.max_depth
        &&& url_domain(it.url@) == Some(self.base_domain@)
    }

    /// With a depth limit of one (or zero) the crawl never expands: the
    /// queue only ever holds the seed, and at most the seed page is
    /// recorded.
    pub open spec fn depth_one_inv(self) -> bool {
        &&& forall|i: int|
            0 <= i < self.queue@.len() ==> (#[trigger] self.queue@[i]).url@ == self.seed@
        &&& self.pages@.len() <= 1
        &&& self.pages@.len() == 1 ==> self.pages@[0].0@ == self.seed@
            && self.visited_set().contains(self.seed@)
        &&& self.current matches Some(c) ==> c.url@ == self.seed@ && self.pages@.len() == 0
    }

    /// The frontier's invariant: every queued URL is on the seed's domain
    /// and within the depth limit; queued depths are non-decreasing and stay
    /// within one hop of the last dequeued depth (breadth-first layering);
    /// a URL enters the visited list at most once; the outstanding fetch,
    /// if any, was dequeued at the frontier depth and is already marked
    /// visited; and with a depth limit of one, only the seed is ever in
    /// play.
    pub open spec fn wf(self) -> bool {
        &&& url_domain(self.seed@) == Some(self.base_domain@)
        &&& self.frontier@ >= 1
        &&& forall|i: int, j: int|
            #![trigger str_views(self.visited@)[i], str_views(self.visited@)[j]]
            0 <= i < j < self.visited@.len() ==> str_views(self.visited@)[i] != str_views(
                self.visited@,
            )[j]
        &&& forall|i: int| 0 <= i < self.queue@.len() ==> self.item_inv(#[trigger] self.queue@[i])
        &&& forall|i: int, j: int|
            #![trigger self.queue@[i], self.queue@[j]]
            0 <= i <= j < self.queue@.len() ==> self.queue@[i].depth <= self.queue@[j].depth
        &&& forall|i: int|
            0 <= i < self.queue@.len() ==> self.frontier@ <= (#[trigger] self.queue@[i]).depth
                <= self.frontier@ + 1
        &&& self.current matches Some(c) ==> self.item_inv(c) && c.depth == self.frontier@
            && self.visited_set().contains(c.url@)
        &&& self.max_depth <= 1 ==> self.depth_one_inv()
    }

    /// Starts a crawl at `start_url` with the given depth limit. Fails with
    /// `InvalidStartUrl` when the start URL does not parse as an absolute
    /// URL, and with `NoDomain` when it parses but carries no domain; the
    /// domain of the start URL becomes the sole crawl domain.
    pub fn new(start_url: &str, max_depth: usize) -> (r: Result<CrawlState, CrawlError>)
        ensures
            r is Ok <==> (url_parses(start_url@) && url_domain(start_url@) is Some),
            r matches Err(e) ==> (e == CrawlError::InvalidStartUrl <==> !url_parses(start_url@)),
            r matches Ok(st) ==> {
                &&& st.wf()
                &&& st.seed@ == start_url@
                &&& st.max_depth == max_depth
                &&& url_domain(start_url@) == Some(st.base_domain@)
                &&& st.queue@.len() == 1
                &&& st.queue@[0].url@ == start_url@
                &&& st.queue@[0].depth == 1
                &&& st.visited@.len() == 0
                &&& st.pages@.len() == 0
                &&& st.current is None
            },
    {
        let info = match parse_url(start_url) {
            Some(info) => info,
            None => {
                return Err(CrawlError::InvalidStartUrl);
            },
        };
        let dom = match info.domain {
            Some(d) => d,
            None => {
                return Err(CrawlError::NoDomain);
            },
        };
        let mut queue: Vec<CrawlItem> = Vec::new();
        queue.push(CrawlItem { url: start_url.to_owned(), depth: 1 });
        let st = CrawlState {
            seed: start_url.to_owned(),
            base_domain: dom,
            max_depth,
            queue,
            visited: Vec::new(),
            current: None,
            pages: Vec::new(),
            frontier: Ghost(1),
        };
        proof {
            assert(str_views(st.visited@) =~= Seq::<Seq<char>>::empty());
            assert(st.visited_set() =~= Set::<Seq<char>>::empty());
        }
        Ok(st)
    }

    /// Whether `url` was already visited.
    fn is_visited(&self, url: &str) -> (r: bool)
        ensures
            r == self.visited_set().contains(url@),
    {
        let n = self.visited.len();
        let mut i: usize = 0;
        while i < n
            invariant
                n == self.visited@.len(),
                i <= n,
                forall|j: int| 0 <= j < i ==> str_views(self.visited@)[j] != url@,
            decreases n - i,
        {
            if str_eq(self.visited[i].as_str(), url) {
                assert(str_views(self.visited@)[i as int] == url@);
                assert(str_views(self.visited@).contains(url@));
                return true;
            }
            i += 1;
        }
        proof {
            assert(forall|j: int|
                0 <= j < str_views(self.visited@).len() ==> str_views(self.visited@)[j] != url@);
            assert(!str_views(self.visited@).contains(url@));
        }
        false
    }

    /// Hands out the next URL to fetch: the frontmost queued URL not yet
    /// visited, which is marked visited and becomes the outstanding fetch.
    /// Returns nothing when the queue has drained, which ends the crawl.
    /// The URL handed out is always on the seed's domain, was never handed
    /// out before, and its depth is no less than any earlier one
    /// (breadth-first order).
    pub fn next_to_fetch(&mut self) -> (r: Option<String>)
        requires
            old(self).wf(),
            old(self).current is None,
        ensures
            final(self).wf(),
            final(self).seed == old(self).seed,
            final(self).base_domain == old(self).base_domain,
            final(self).max_depth == old(self).max_depth,
            final(self).pages == old(self).pages,
            final(self).frontier@ >= old(self).frontier@,
            r matches Some(u) ==> {
                &&& final(self).current matches Some(c) && c.url@ == u@
                &&& url_domain(u@) == Some(old(self).base_domain@)
                &&& !old(self).visited_set().contains(u@)
                &&& old(self).queue_urls().contains(u@)
                &&& final(self).visited_set() == old(self).visited_set().insert(u@)
                &&& exists|k: int|
                    {
                        &&& 0 <= k < old(self).queue@.len()
                        &&& final(self).queue@ == #[trigger] old(self).queue@.skip(k + 1)
                        &&& old(self).queue@[k].url@ == u@
                        &&& final(self).current == Some(old(self).queue@[k])
                        &&& forall|j: int|
                            0 <= j < k ==> old(self).visited_set().contains(
                                (#[trigger] old(self).queue@[j]).url@,
                            )
                    }
            },
            r is None ==> {
                &&& final(self).current is None
                &&& final(self).queue@.len() == 0
                &&& final(self).visited == old(self).visited
                &&& forall|j: int|
                    0 <= j < old(self).queue@.len() ==> old(self).visited_set().contains(
                        (#[trigger] old(self).queue@[j]).url@,
                    )
            },
    {
        let ghost mut removed: int = 0;
        loop
            invariant
                self.wf(),
                self.current is None,
                self.seed == old(self).seed,
                self.base_domain == old(self).base_domain,
                self.max_depth == old(self).max_depth,
                self.pages == old(self).pages,
                self.visited == old(self).visited,
                self.frontier == old(self).frontier,
                0 <= removed <= old(self).queue@.len(),
                self.queue@ == old(self).queue@.skip(removed),
                forall|j: int|
                    0 <= j < removed ==> old(self).visited_set().contains(
                        (#[trigger] old(self).queue@[j]).url@,
                    ),
            decreases self.queue@.len(),
        {
            if self.queue.len() == 0 {
                return None;
            }
            let ghost pre = *self;
            let item = self.queue.remove(0);
            proof {
                assert(self.queue@ =~= pre.queue@.remove(0));
                assert(item == old(self).queue@[removed]);
                assert(self.queue@ =~= old(self).queue@.skip(removed + 1));
                assert(pre.queue_urls()[0] == item.url@);
                assert(pre.queue_urls().contains(item.url@));
            }
            if !self.is_visited(item.url.as_str()) {
                proof {
                    assert(old(self).queue_urls()[removed] == item.url@);
                    assert(old(self).queue_urls().contains(item.url@));
                }
                let ghost pre2 = *self;
                let u = item.url.clone();
                self.visited.push(item.url.clone());
                proof {
                    self.frontier = Ghost(item.depth as nat);
                }
                self.current = Some(item);
                proof {
                    assert(str_views(self.visited@) =~= str_views(pre2.visited@).push(u@));
                    assert(self.visited_set() =~= pre2.visited_set().insert(u@)) by {
                        assert forall|x: Seq<char>| self.visited_set().contains(x) implies
                            pre2.visited_set().insert(u@).contains(x) by {
                            let vs = str_views(self.visited@);
                            let k = choose|k: int| 0 <= k < vs.len() && vs[k] == x;
                            if k < vs.len() - 1 {
                                assert(str_views(pre2.visited@)[k] == x);
                                assert(str_views(pre2.visited@).contains(x));
                            }
                        }
                        assert forall|x: Seq<char>|
                            pre2.visited_set().insert(u@).contains(x) implies self.visited_set()
                            .contains(x) by {
                            let vs = str_views(self.visited@);
                            if x == u@ {
                                assert(vs[vs.len() - 1] == x);
                            } else {
                                let k = choose|k: int|
                                    0 <= k < str_views(pre2.visited@).len() && str_views(
                                        pre2.visited@,
                                    )[k] == x;
                                assert(vs[k] == x);
                            }
                        }
                    }
                }
                return Some(u);
            }
            proof {
                removed = removed + 1;
            }
        }
    }

    /// Records a fetched page: the outstanding fetch's URL and content join
    /// the results and, while the depth limit allows, every same-domain
    /// link of the page that is not yet visited joins the back of the queue,
    /// one hop deeper. Links off the seed's domain are never enqueued.
    pub fn record_success(&mut self, content: String)
        requires
            old(self).wf(),
            old(self).current is Some,
        ensures
            final(self).wf(),
            final(self).seed == old(self).seed,
            final(self).base_domain == old(self).base_domain,
            final(self).max_depth == old(self).max_depth,
            final(self).visited == old(self).visited,
            final(self).frontier == old(self).frontier,
            final(self).current is None,
            final(self).pages@ == old(self).pages@.push(
                (old(self).current.unwrap().url, content),
            ),
            old(self).current.unwrap().depth < old(self).max_depth ==> final(self).queue_urls()
                == old(self).queue_urls() + page_links_spec(
                content@,
                old(self).current.unwrap().url@,
                old(self).base_domain@,
            ).filter(|l: Seq<char>| !old(self).visited_set().contains(l)),
            old(self).current.unwrap().depth < old(self).max_depth ==> (final(self).queue@.len()
                >= old(self).queue@.len() && forall|i: int|
                old(self).queue@.len() <= i < final(self).queue@.len()
                    ==> (#[trigger] final(self).queue@[i]).depth == old(
                    self,
                ).current.unwrap().depth + 1),
            old(self).current.unwrap().depth >= old(self).max_depth ==> final(self).queue == old(
                self,
            ).queue,
    {
        broadcast use vstd::seq_lib::group_filter_ensures;

        let item = self.current.take().unwrap();
        let links = extract_same_domain_links(
            content.as_str(),
            item.url.as_str(),
            self.base_domain.as_str(),
        );
        let depth = item.depth;
        let ghost item_url = item.url@;
        let ghost all_links = str_views(links@);
        let ghost pred = |l: Seq<char>| !old(self).visited_set().contains(l);
        proof {
            if url_parses(item_url) {
                lemma_same_domain_members(
                    html_href_list(content@),
                    item_url,
                    self.base_domain@,
                );
            }
        }
        self.pages.push((item.url, content));
        if depth < self.max_depth {
            let ghost mid = *self;
            let n = links.len();
            let mut i: usize = 0;
            proof {
                reveal(Seq::filter);
                assert(all_links.take(0).filter(pred) =~= Seq::<Seq<char>>::empty());
                assert(self.queue_urls() =~= mid.queue_urls() + all_links.take(0).filter(pred));
            }
            while i < n
                invariant
                    mid.wf(),
                    mid.visited == old(self).visited,
                    mid.current is None,
                    depth < mid.max_depth,
                    mid.frontier@ == depth,
                    1 <= depth,
                    n == links@.len(),
                    i <= n,
                    all_links == str_views(links@),
                    pred == (|l: Seq<char>| !old(self).visited_set().contains(l)),
                    forall|k: int|
                        0 <= k < all_links.len() ==> url_domain(#[trigger] all_links[k]) == Some(
                            mid.base_domain@,
                        ),
                    self.seed == mid.seed,
                    self.base_domain == mid.base_domain,
                    self.max_depth == mid.max_depth,
                    self.visited == mid.visited,
                    self.frontier == mid.frontier,
                    self.current is None,
                    self.pages == mid.pages,
                    self.queue@.len() >= mid.queue@.len(),
                    self.queue@.take(mid.queue@.len() as int) == mid.queue@,
                    self.queue_urls() == mid.queue_urls() + all_links.take(i as int).filter(pred),
                    forall|k: int|
                        mid.queue@.len() <= k < self.queue@.len()
                            ==> (#[trigger] self.queue@[k]).depth == depth + 1,
                    self.wf(),
                decreases n - i,
            {
                let ghost pre = *self;
                let l = links[i].clone();
                if !self.is_visited(l.as_str()) {
                    self.queue.push(CrawlItem { url: l, depth: depth + 1 });
                    proof {
                        assert(self.queue@.take(mid.queue@.len() as int) =~= pre.queue@.take(
                            mid.queue@.len() as int,
                        ));
                        assert(self.queue_urls() =~= pre.queue_urls().push(all_links[i as int]));
                    }
                } else {
                    proof {
                        assert(!pred(all_links[i as int]));
                    }
                }
                proof {
                    reveal(Seq::filter);
                    assert(all_links.take(i + 1).drop_last() =~= all_links.take(i as int));
                    assert(all_links.take(i + 1).last() == all_links[i as int]);
                    if pred(all_links[i as int]) {
                        assert(all_links.take(i + 1).filter(pred) == all_links.take(
                            i as int,
                        ).filter(pred).push(all_links[i as int]));
                        assert(self.queue_urls() =~= mid.queue_urls() + all_links.take(
                            i + 1,
                        ).filter(pred));
                    } else {
                        assert(all_links.take(i + 1).filter(pred) == all_links.take(
                            i as int,
                        ).filter(pred));
                    }
                }
                i += 1;
            }
            proof {
                assert(all_links.take(n as int) =~= all_links);
            }
        }
    }

    /// Records a failed fetch: the outstanding fetch is given up and the
    /// crawl goes on unchanged — one page's failure never aborts the crawl.
    pub fn record_failure(&mut self)
        requires
            old(self).wf(),
            old(self).current is Some,
        ensures
            final(self).wf(),
            final(self).current is None,
            final(self).seed == old(self).seed,
            final(self).base_domain == old(self).base_domain,
            final(self).max_depth == old(self).max_depth,
            final(self).queue == old(self).queue,
            final(self).visited == old(self).visited,
            final(self).pages == old(self).pages,
            final(self).frontier == old(self).frontier,
    {
        self.current = None;
    }

    /// With a depth limit of one (or zero), a crawl records at most one
    /// page, and that page is the seed.
    pub proof fn lemma_depth_one_crawl(self)
        requires
            self.wf(),
            self.max_depth <= 1,
        ensures
            self.pages@.len() <= 1,
            self.pages@.len() == 1 ==> self.pages@[0].0@ == self.seed@,
    {
    }

    /// Every URL in the queue is on the seed's domain: a link off that
    /// domain is never enqueued.
    pub proof fn lemma_queue_on_domain(self)
        requires
            self.wf(),
        ensures
            forall|i: int|
                0 <= i < self.queue@.len() ==> url_domain(
                    (#[trigger] self.queue@[i]).url@,
                ) == Some(self.base_domain@),
    {
    }
}

} // verus!
