//! The crawler: a depth-bounded, same-origin, deduplicated walk of a site's
//! link graph that records parameterized URLs. The frontier decides; the
//! caller fetches each page it hands out and reports the body back.
use vstd::prelude::*;
use crate::pattern::{Pattern, regex_accepts, regex_matches};
use crate::text::{views, contains_string};
use crate::text::opt_view;
use crate::urls::{parse_url, join_url, origin_of, url_parses, url_scheme, url_host, url_join, url_text};

verus! {

/// The pattern a URL must match to be recorded: a server-side script path
/// followed by a query with a parameter.
pub open spec fn parameter_pattern() -> Seq<char> {
    "(.*?)(.php\\?|.asp\\?|.aspx\\?|.jsp\\?)(.*?)=(.*)"@
}

/// Whether `url` is recorded as a candidate.
pub open spec fn is_candidate_url(url: Seq<char>) -> bool {
    regex_accepts(parameter_pattern()) && regex_matches(parameter_pattern(), url)
}

/// The href attributes of the anchor elements of the HTML document `html`,
/// in document order.
pub uninterp spec fn anchor_hrefs(html: Seq<char>) -> Seq<Seq<char>>;

/// Relies on scraper's Html::parse_document and Selector: the href of
/// every `a[href]` element, in document order.
#[verifier::external_body]
fn extract_hrefs(html: &str) -> (r: Vec<String>)
    ensures
        views(r@) == anchor_hrefs(html@),
{
    let document = scraper::Html::parse_document(html);
    match scraper::Selector::parse("a[href]") {
        Ok(selector) => document.select(&selector).filter_map(|e| e.attr("href")).map(
            |h| h.to_string(),
        ).collect(),
        Err(_) => Vec::new(),
    }
}

/// Why a crawl could not start.
#[derive(Debug, PartialEq, Eq, Structural)]
pub enum CrawlError {
    /// The root URL, or its origin, does not parse.
    UrlParseError,
    /// The regex crate rejects the candidate pattern.
    PatternRejected,
}

/// The crawler's settings: the depth bound and the candidate pattern.
pub struct WebCrawler {
    max_depth: usize,
    parameter_regex: Option<Pattern>,
}

impl WebCrawler {
    pub closed spec fn max_depth(&self) -> nat {
        self.max_depth as nat
    }

    pub closed spec fn wf(&self) -> bool {
        &&& self.parameter_regex is Some <==> regex_accepts(parameter_pattern())
        &&& self.parameter_regex matches Some(p) ==> p@ == parameter_pattern()
    }

    /// A crawler with depth bound 1.
    pub fn new() -> (r: Self)
        ensures
            r.wf(),
            r.max_depth() == 1,
    {
        WebCrawler { max_depth: 1, parameter_regex: Pattern::compile("(.*?)(.php\\?|.asp\\?|.aspx\\?|.jsp\\?)(.*?)=(.*)") }
    }

    /// A crawler with depth bound 1, or `PatternRejected` when the regex
    /// crate rejects the candidate pattern: such a crawler could record
    /// nothing.
    pub fn try_new() -> (r: Result<Self, CrawlError>)
        ensures
            r is Ok <==> regex_accepts(parameter_pattern()),
            r matches Ok(c) ==> c.wf() && c.max_depth() == 1,
            r matches Err(e) ==> e == CrawlError::PatternRejected,
    {
        let c = Self::new();
        if c.parameter_regex.is_some() {
            Ok(c)
        } else {
            Err(CrawlError::PatternRejected)
        }
    }

    pub fn set_max_depth(&mut self, depth: usize)
        requires
            old(self).wf(),
        ensures
            final(self).wf(),
            final(self).max_depth() == depth,
    {
        self.max_depth = depth;
    }

    /// Whether `url` is a parameterized script URL.
    pub fn is_candidate(&self, url: &str) -> (r: bool)
        requires
            self.wf(),
        ensures
            r == is_candidate_url(url@),
    {
        match &self.parameter_regex {
            Some(p) => p.is_match(url),
            None => false,
        }
    }

    /// The origin `scheme://host` of `url`.
    pub fn extract_base_url(url: &str) -> (r: Result<String, CrawlError>)
        ensures
            url_parses(url@) <==> r is Ok,
            r matches Ok(o) ==> o@ == origin_of(url_scheme(url@), url_host(url@)),
    {
        match parse_url(url) {
            Some(p) => {
                let mut o = p.scheme;
                o.append("://");
                match p.host {
                    Some(h) => o.append(h.as_str()),
                    None => {},
                }
                Ok(o)
            },
            None => Err(CrawlError::UrlParseError),
        }
    }

    /// The frontier of a crawl of `url`: its origin `scheme://host`, in the
    /// url crate's normalized form (as links to it are resolved), is the
    /// only page pending, at depth 0; nothing is visited or recorded yet.
    pub fn start(&self, url: &str) -> (r: Result<Frontier, CrawlError>)
        requires
            self.wf(),
        ensures
            url_parses(url@) && url_parses(origin_of(url_scheme(url@), url_host(url@))) <==> r is Ok,
            r matches Ok(f) ==> {
                &&& f.wf()
                &&& f.root() == url_text(origin_of(url_scheme(url@), url_host(url@)))
                &&& f.scheme() == url_scheme(url@)
                &&& f.host() == url_host(url@)
                &&& f.max_depth() == self.max_depth()
                &&& f.pending() == seq![(f.root(), 0nat)]
                &&& f.visited().len() == 0
                &&& f.candidates().len() == 0
                &&& f.fetches() == 0
            },
    {
        let parsed = match parse_url(url) {
            Some(p) => p,
            None => return Err(CrawlError::UrlParseError),
        };
        let origin = match Self::extract_base_url(url) {
            Ok(o) => o,
            Err(e) => return Err(e),
        };
        let root = match parse_url(origin.as_str()) {
            Some(p) => p.text,
            None => return Err(CrawlError::UrlParseError),
        };
        let mut pending: Vec<(String, usize)> = Vec::new();
        pending.push((root.clone(), 0));
        let f = Frontier {
            root,
            scheme: parsed.scheme,
            host: parsed.host,
            max_depth: self.max_depth,
            visited: Vec::new(),
            pending,
            current: None,
            candidates: Vec::new(),
            found_on: Ghost(Seq::empty()),
            fetches: Ghost(0),
        };
        assert(f.pending() =~= seq![(f.root(), 0nat)]);
        Ok(f)
    }
}

/// The state of one crawl: the root origin, the visited pages, the pages
/// pending (a stack, so pages are visited depth first in link order), the
/// page being fetched, and the candidates recorded with the page each was
/// found on.
pub struct Frontier {
    root: String,
    scheme: String,
    host: Option<String>,
    max_depth: usize,
    visited: Vec<String>,
    pending: Vec<(String, usize)>,
    current: Option<(String, usize)>,
    candidates: Vec<String>,
    found_on: Ghost<Seq<(Seq<char>, nat)>>,
    fetches: Ghost<nat>,
}

/// The anchor targets `hrefs` resolved against `page`, in order, leaving
/// out those that do not resolve.
pub open spec fn resolved_links(page: Seq<char>, hrefs: Seq<Seq<char>>) -> Seq<Seq<char>>
    decreases hrefs.len(),
{
    if hrefs.len() == 0 {
        Seq::empty()
    } else {
        let r = resolved_links(page, hrefs.drop_last());
        match url_join(page, hrefs.last()) {
            Some(x) => r.push(x),
            None => r,
        }
    }
}

/// `recorded` followed by the links of `links` that lie on the origin, are
/// candidates and are not recorded yet, each at its first occurrence.
pub open spec fn recorded_after(
    recorded: Seq<Seq<char>>,
    links: Seq<Seq<char>>,
    scheme: Seq<char>,
    host: Option<Seq<char>>,
) -> Seq<Seq<char>>
    decreases links.len(),
{
    if links.len() == 0 {
        recorded
    } else {
        let r = recorded_after(recorded, links.drop_last(), scheme, host);
        let x = links.last();
        if on_origin(x, scheme, host) && is_candidate_url(x) && !r.contains(x) {
            r.push(x)
        } else {
            r
        }
    }
}

/// The pages to visit after a page at `depth` with links `links`: those on
/// the origin and not in `visited`, in link order, at `depth + 1`; none
/// when `depth` is already at the bound `max_depth`.
pub open spec fn next_pages(
    links: Seq<Seq<char>>,
    scheme: Seq<char>,
    host: Option<Seq<char>>,
    visited: Seq<Seq<char>>,
    depth: nat,
    max_depth: nat,
) -> Seq<(Seq<char>, nat)>
    decreases links.len(),
{
    if links.len() == 0 || depth >= max_depth {
        Seq::empty()
    } else {
        let r = next_pages(links.drop_last(), scheme, host, visited, depth, max_depth);
        let x = links.last();
        if on_origin(x, scheme, host) && !visited.contains(x) {
            r.push((x, depth + 1))
        } else {
            r
        }
    }
}

/// Whether `url` parses to the given scheme and host.
pub open spec fn on_origin(url: Seq<char>, scheme: Seq<char>, host: Option<Seq<char>>) -> bool {
    url_parses(url) && url_scheme(url) == scheme && url_host(url) == host
}

impl Frontier {
    /// The root origin `scheme://host`, the first page visited.
    pub closed spec fn root(&self) -> Seq<char> {
        self.root@
    }

    pub closed spec fn scheme(&self) -> Seq<char> {
        self.scheme@
    }

    pub closed spec fn host(&self) -> Option<Seq<char>> {
        opt_view(self.host)
    }

    pub closed spec fn max_depth(&self) -> nat {
        self.max_depth as nat
    }

    /// The pages handed out for fetching, in order.
    pub closed spec fn visited(&self) -> Seq<Seq<char>> {
        views(self.visited@)
    }

    /// The pages waiting, with their depths; the last is taken first.
    pub closed spec fn pending(&self) -> Seq<(Seq<char>, nat)> {
        self.pending@.map_values(|e: (String, usize)| (e.0@, e.1 as nat))
    }

    /// The candidates recorded, in order of discovery.
    pub closed spec fn candidates(&self) -> Seq<Seq<char>> {
        views(self.candidates@)
    }

    /// The page (with its depth) on which each candidate was found.
    pub closed spec fn found_on(&self) -> Seq<(Seq<char>, nat)> {
        self.found_on@
    }

    /// How many fetches the frontier has asked for.
    pub closed spec fn fetches(&self) -> nat {
        self.fetches@
    }

    /// Whether `url` is the root or lies on the root's origin.
    pub open spec fn in_scope(&self, url: Seq<char>) -> bool {
        url == self.root() || on_origin(url, self.scheme(), self.host())
    }

    pub closed spec fn wf(&self) -> bool {
        &&& self.visited().no_duplicates()
        &&& self.fetches() == self.visited().len()
        &&& forall|i: int| 0 <= i < self.visited().len() ==> self.in_scope(#[trigger] self.visited()[i])
        &&& forall|i: int|
            0 <= i < self.pending().len() ==> self.in_scope((#[trigger] self.pending()[i]).0)
                && self.pending()[i].1 <= self.max_depth()
                && (self.pending()[i].1 == 0 ==> self.pending()[i].0 == self.root())
        &&& self.max_depth() == 0 ==> forall|i: int|
            0 <= i < self.visited().len() ==> #[trigger] self.visited()[i] == self.root()
        &&& self.current matches Some(c) ==> self.visited().contains(c.0@) && c.1 <= self.max_depth
            && (c.1 == 0 ==> c.0@ == self.root())
        &&& self.candidates().no_duplicates()
        &&& self.found_on().len() == self.candidates().len()
        &&& forall|k: int|
            0 <= k < self.candidates().len() ==> {
                &&& is_candidate_url(#[trigger] self.candidates()[k])
                &&& on_origin(self.candidates()[k], self.scheme(), self.host())
                &&& self.visited().contains(self.found_on()[k].0)
                &&& self.found_on()[k].1 <= self.max_depth()
                &&& (self.found_on()[k].1 == 0 ==> self.found_on()[k].0 == self.root())
            }
    }

    /// The next page to fetch: the most recently pushed pending page not
    /// yet visited. It becomes visited; `None` once nothing is pending.
    pub fn next_fetch(&mut self) -> (r: Option<String>)
        requires
            old(self).wf(),
        ensures
            final(self).wf(),
            final(self).root() == old(self).root(),
            final(self).scheme() == old(self).scheme(),
            final(self).host() == old(self).host(),
            final(self).max_depth() == old(self).max_depth(),
            final(self).candidates() == old(self).candidates(),
            final(self).found_on() == old(self).found_on(),
            match r {
                Some(u) => {
                    &&& !old(self).visited().contains(u@)
                    &&& final(self).visited() == old(self).visited().push(u@)
                    &&& final(self).fetches() == old(self).fetches() + 1
                    &&& exists|i: int|
                        0 <= i < old(self).pending().len() && (#[trigger] old(self).pending()[i]).0 == u@
                            && final(self).pending() == old(self).pending().subrange(0, i)
                            && final(self).current() == Some(old(self).pending()[i])
                            && forall|j: int|
                            i < j < old(self).pending().len() ==> old(self).visited().contains(
                                #[trigger] old(self).pending()[j].0,
                            )
                },
                None => {
                    &&& final(self).visited() == old(self).visited()
                    &&& final(self).fetches() == old(self).fetches()
                    &&& final(self).pending().len() == 0
                    &&& forall|j: int|
                        0 <= j < old(self).pending().len() ==> old(self).visited().contains(
                            #[trigger] old(self).pending()[j].0,
                        )
                },
            },
    {
        while self.pending.len() > 0
            invariant
                self.wf(),
                self.root() == old(self).root(),
                self.scheme() == old(self).scheme(),
                self.host() == old(self).host(),
                self.max_depth() == old(self).max_depth(),
                self.candidates() == old(self).candidates(),
                self.found_on() == old(self).found_on(),
                self.visited() == old(self).visited(),
                self.fetches() == old(self).fetches(),
                self.pending@.len() <= old(self).pending().len(),
                self.pending() == old(self).pending().subrange(0, self.pending@.len() as int),
                forall|j: int|
                    self.pending@.len() <= j < old(self).pending().len() ==> old(self).visited().contains(
                        #[trigger] old(self).pending()[j].0,
                    ),
            decreases self.pending@.len(),
        {
            let ghost pend = self.pending();
            let (url, depth) = self.pending.pop().unwrap();
            assert(self.pending() =~= pend.drop_last());
            assert(pend.last() == (url@, depth as nat));
            assert(self.in_scope(pend[pend.len() - 1].0));
            assert forall|i: int| 0 <= i < self.pending().len() implies self.in_scope((#[trigger] self.pending()[i]).0)
                && self.pending()[i].1 <= self.max_depth()
                && (self.pending()[i].1 == 0 ==> self.pending()[i].0 == self.root()) by {
                assert(self.pending()[i] == pend[i]);
            }
            if !contains_string(&self.visited, &url) {
                let ghost before = self.visited();
                let ghost fo = self.found_on();
                assert forall|k: int| 0 <= k < fo.len() implies before.contains(
                    #[trigger] fo[k].0,
                ) by {
                    assert(is_candidate_url(self.candidates()[k]));
                }
                self.visited.push(url.clone());
                assert(self.visited() =~= before.push(url@));
                self.fetches = Ghost(self.fetches@ + 1);
                self.current = Some((url.clone(), depth));
                assert(self.visited()[before.len() as int] == url@);
                assert forall|i: int| 0 <= i < self.visited().len() implies self.in_scope(#[trigger] self.visited()[i]) by {
                    if i < before.len() {
                        assert(self.visited()[i] == before[i]);
                    }
                }
                assert forall|k: int| 0 <= k < self.candidates().len() implies self.visited().contains(
                    #[trigger] self.found_on()[k].0,
                ) by {
                    let p = self.found_on()[k].0;
                    assert(p == fo[k].0);
                    assert(before.contains(p));
                    let j = choose|j: int| 0 <= j < before.len() && before[j] == p;
                    assert(self.visited()[j] == p);
                }
                assert(self.visited().contains(url@));
                assert(self.pending() =~= old(self).pending().subrange(0, pend.len() - 1));
                assert(old(self).pending()[pend.len() - 1] == pend[pend.len() - 1]);
                assert(self.current() == Some(old(self).pending()[pend.len() - 1]));
                return Some(url);
            }
            assert(self.pending() =~= old(self).pending().subrange(0, self.pending@.len() as int));
            assert(old(self).pending()[self.pending@.len() as int].0 == url@);
        }
        assert(self.pending() =~= old(self).pending().subrange(0, 0));
        None
    }

    /// The page handed out last and not yet reported back, with its depth.
    pub closed spec fn current(&self) -> Option<(Seq<char>, nat)> {
        match self.current {
            Some(c) => Some((c.0@, c.1 as nat)),
            None => None,
        }
    }

    /// Takes in the outcome of fetching the current page: its body when
    /// the fetch succeeded, `None` when it failed. The anchors of the body
    /// are resolved against the page, in document order. A link on the
    /// root's origin is recorded when it is a candidate not recorded yet;
    /// it is pushed for a visit one level deeper when that stays within the
    /// depth bound and it is not visited yet. The pushed pages go on the
    /// stack in reverse, so the first link is visited first. Links
    /// elsewhere are ignored.
    pub fn on_page(&mut self, crawler: &WebCrawler, html: Option<&str>)
        requires
            old(self).wf(),
            crawler.wf(),
        ensures
            final(self).wf(),
            final(self).current() is None,
            final(self).root() == old(self).root(),
            final(self).scheme() == old(self).scheme(),
            final(self).host() == old(self).host(),
            final(self).max_depth() == old(self).max_depth(),
            final(self).visited() == old(self).visited(),
            final(self).fetches() == old(self).fetches(),
            old(self).current() is None || html is None ==> {
                &&& final(self).candidates() == old(self).candidates()
                &&& final(self).pending() == old(self).pending()
            },
            old(self).current() is Some && html is Some ==> {
                let (page, depth) = old(self).current()->0;
                let links = resolved_links(page, anchor_hrefs(html->0@));
                &&& final(self).candidates() == recorded_after(
                    old(self).candidates(),
                    links,
                    old(self).scheme(),
                    old(self).host(),
                )
                &&& final(self).pending() == old(self).pending() + next_pages(
                    links,
                    old(self).scheme(),
                    old(self).host(),
                    old(self).visited(),
                    depth,
                    old(self).max_depth(),
                ).reverse()
            },
    {
        let (page, depth) = match &self.current {
            Some(c) => (c.0.clone(), c.1),
            None => return,
        };
        let ghost before = *self;
        self.current = None;
        proof {
            lemma_wf_without_current(before, *self);
        }
        let html = match html {
            Some(h) => h,
            None => return,
        };
        let hrefs = extract_hrefs(html);
        let ghost hv = views(hrefs@);
        let ghost old_cands = self.candidates();
        let ghost old_pending = self.pending();
        let ghost sch = self.scheme();
        let ghost hst = self.host();
        let ghost vis = self.visited();
        let ghost maxd = self.max_depth();
        let mut fresh: Vec<(String, usize)> = Vec::new();
        let mut i: usize = 0;
        while i < hrefs.len()
            invariant
                self.wf(),
                self.current is None,
                hv == views(hrefs@),
                hv == anchor_hrefs(html@),
                crawler.wf(),
                self.root() == old(self).root(),
                sch == self.scheme() && sch == old(self).scheme(),
                hst == self.host() && hst == old(self).host(),
                maxd == self.max_depth() && maxd == old(self).max_depth(),
                vis == self.visited() && vis == old(self).visited(),
                self.fetches() == old(self).fetches(),
                self.pending() == old_pending,
                old_pending == old(self).pending(),
                old_cands == old(self).candidates(),
                old(self).current() == Some((page@, depth as nat)),
                self.visited().contains(page@),
                depth <= self.max_depth(),
                depth == 0 ==> page@ == self.root(),
                i <= hrefs@.len(),
                self.candidates() == recorded_after(
                    old_cands,
                    resolved_links(page@, hv.subrange(0, i as int)),
                    sch,
                    hst,
                ),
                fresh@.map_values(|e: (String, usize)| (e.0@, e.1 as nat)) == next_pages(
                    resolved_links(page@, hv.subrange(0, i as int)),
                    sch,
                    hst,
                    vis,
                    depth as nat,
                    maxd,
                ),
                forall|k: int|
                    0 <= k < fresh@.len() ==> {
                        let e = #[trigger] fresh@[k];
                        &&& on_origin(e.0@, sch, hst)
                        &&& e.1 == depth + 1
                        &&& depth < maxd
                    },
            decreases hrefs@.len() - i,
        {
            let ghost prefix = hv.subrange(0, i as int + 1);
            let ghost links0 = resolved_links(page@, hv.subrange(0, i as int));
            assert(prefix.drop_last() =~= hv.subrange(0, i as int));
            assert(prefix.last() == hv[i as int]);
            assert(hrefs@[i as int]@ == hv[i as int]);
            let joined = join_url(page.as_str(), hrefs[i].as_str());
            if let Some(link) = joined {
                let ghost links1 = links0.push(link@);
                assert(resolved_links(page@, prefix) == links1);
                assert(links1.drop_last() =~= links0);
                assert(links1.last() == link@);
                let mut in_origin = false;
                if let Some(parsed) = parse_url(link.as_str()) {
                    let same_host = match (&parsed.host, &self.host) {
                        (Some(a), Some(b)) => *a == *b,
                        (None, None) => true,
                        _ => false,
                    };
                    in_origin = parsed.scheme == self.scheme && same_host;
                }
                assert(in_origin == on_origin(link@, sch, hst));
                if in_origin && crawler.is_candidate(link.as_str()) && !contains_string(&self.candidates, &link) {
                    let ghost cands = self.candidates();
                    let ghost fo = self.found_on();
                    assert forall|k: int| 0 <= k < fo.len() implies {
                        &&& is_candidate_url(#[trigger] cands[k])
                        &&& on_origin(cands[k], self.scheme(), self.host())
                        &&& self.visited().contains(fo[k].0)
                        &&& fo[k].1 <= self.max_depth()
                        &&& (fo[k].1 == 0 ==> fo[k].0 == self.root())
                    } by {
                        assert(is_candidate_url(self.candidates()[k]));
                    }
                    self.candidates.push(link.clone());
                    self.found_on = Ghost(self.found_on@.push((page@, depth as nat)));
                    assert(self.candidates() =~= cands.push(link@));
                    assert forall|k: int| 0 <= k < self.candidates().len() implies {
                        &&& is_candidate_url(#[trigger] self.candidates()[k])
                        &&& on_origin(self.candidates()[k], self.scheme(), self.host())
                        &&& self.visited().contains(self.found_on()[k].0)
                        &&& self.found_on()[k].1 <= self.max_depth()
                        &&& (self.found_on()[k].1 == 0 ==> self.found_on()[k].0 == self.root())
                    } by {
                        if k < cands.len() {
                            assert(self.candidates()[k] == cands[k]);
                            assert(self.found_on()[k] == fo[k]);
                        }
                    }
                }
                if in_origin && depth < self.max_depth && !contains_string(&self.visited, &link) {
                    let ghost fr = fresh@.map_values(|e: (String, usize)| (e.0@, e.1 as nat));
                    fresh.push((link.clone(), depth + 1));
                    assert(fresh@.map_values(|e: (String, usize)| (e.0@, e.1 as nat)) =~= fr.push(
                        (link@, (depth + 1) as nat),
                    ));
                }
            } else {
                assert(resolved_links(page@, prefix) == links0);
            }
            i += 1;
        }
        assert(hv.subrange(0, i as int) =~= hv);
        let ghost fr = fresh@;
        let ghost frv = fresh@.map_values(|e: (String, usize)| (e.0@, e.1 as nat));
        let ghost cands_done = self.candidates();
        let mut k: usize = fresh.len();
        while k > 0
            invariant
                self.wf(),
                self.current is None,
                k <= fr.len(),
                frv.len() == fr.len(),
                forall|t: int| 0 <= t < fr.len() ==> #[trigger] frv[t] == (fr[t].0@, fr[t].1 as nat),
                fresh@ == fr.subrange(0, k as int),
                self.root() == old(self).root(),
                self.scheme() == old(self).scheme(),
                self.host() == old(self).host(),
                self.max_depth() == old(self).max_depth(),
                self.visited() == old(self).visited(),
                self.fetches() == old(self).fetches(),
                self.candidates() == cands_done,
                self.pending().len() == old_pending.len() + (fr.len() - k),
                self.pending().subrange(0, old_pending.len() as int) == old_pending,
                forall|t: int|
                    0 <= t < fr.len() - k ==> #[trigger] self.pending()[old_pending.len() + t]
                        == frv[fr.len() - 1 - t],
                forall|t: int|
                    0 <= t < fr.len() ==> {
                        let e = #[trigger] fr[t];
                        &&& on_origin(e.0@, self.scheme(), self.host())
                        &&& e.1 == depth + 1
                        &&& depth < self.max_depth()
                    },
            decreases k,
        {
            let e = fresh.pop().unwrap();
            assert(e == fr[k - 1]);
            let ghost pend = self.pending();
            self.pending.push(e);
            assert(self.pending() =~= pend.push((e.0@, e.1 as nat)));
            assert(fresh@ =~= fr.subrange(0, k - 1));
            assert forall|t: int| 0 <= t < self.pending().len() implies self.in_scope((#[trigger] self.pending()[t]).0)
                && self.pending()[t].1 <= self.max_depth()
                && (self.pending()[t].1 == 0 ==> self.pending()[t].0 == self.root()) by {
                if t < pend.len() {
                    assert(self.pending()[t] == pend[t]);
                }
            }
            assert(self.pending().subrange(0, old_pending.len() as int) =~= pend.subrange(0, old_pending.len() as int));
            assert forall|t: int| 0 <= t < fr.len() - (k - 1) implies #[trigger] self.pending()[old_pending.len() + t]
                == frv[fr.len() - 1 - t] by {
                if t < fr.len() - k {
                    assert(self.pending()[old_pending.len() + t] == pend[old_pending.len() + t]);
                }
            }
            k -= 1;
        }
        assert(frv.reverse().len() == frv.len());
        assert forall|t: int| 0 <= t < self.pending().len() implies self.pending()[t] == (old_pending
            + frv.reverse())[t] by {
            if t >= old_pending.len() {
                let u = t - old_pending.len();
                assert(self.pending()[old_pending.len() + u] == frv[fr.len() - 1 - u]);
            } else {
                assert(self.pending()[t] == self.pending().subrange(0, old_pending.len() as int)[t]);
            }
        }
        assert(self.pending() =~= old_pending + frv.reverse());
    }

    /// The candidates recorded, in order of discovery.
    pub fn into_candidates(self) -> (r: Vec<String>)
        ensures
            views(r@) == self.candidates(),
    {
        self.candidates
    }
}

/// Clearing the current page keeps a frontier well formed.
proof fn lemma_wf_without_current(a: Frontier, b: Frontier)
    requires
        a.wf(),
        b.current is None,
        b.root == a.root,
        b.scheme == a.scheme,
        b.host == a.host,
        b.max_depth == a.max_depth,
        b.visited == a.visited,
        b.pending == a.pending,
        b.candidates == a.candidates,
        b.found_on == a.found_on,
        b.fetches == a.fetches,
    ensures
        b.wf(),
{
    assert forall|k: int| 0 <= k < b.candidates().len() implies {
        &&& is_candidate_url(#[trigger] b.candidates()[k])
        &&& on_origin(b.candidates()[k], b.scheme(), b.host())
        &&& b.visited().contains(b.found_on()[k].0)
        &&& b.found_on()[k].1 <= b.max_depth()
        &&& (b.found_on()[k].1 == 0 ==> b.found_on()[k].0 == b.root())
    } by {
        assert(is_candidate_url(a.candidates()[k]));
    }
    assert forall|i: int| 0 <= i < b.pending().len() implies b.in_scope((#[trigger] b.pending()[i]).0)
        && b.pending()[i].1 <= b.max_depth()
        && (b.pending()[i].1 == 0 ==> b.pending()[i].0 == b.root()) by {
        assert(a.in_scope(a.pending()[i].0));
    }
    assert forall|i: int| 0 <= i < b.visited().len() implies b.in_scope(#[trigger] b.visited()[i]) by {
        assert(a.in_scope(a.visited()[i]));
    }
}

/// What holds of every crawl state: the candidates are distinct, each
/// matches the script pattern and lies on the root's origin; every page
/// pending or being fetched is within the depth bound, and only the root
/// has depth 0.
pub proof fn lemma_frontier_facts(f: Frontier)
    requires
        f.wf(),
    ensures
        f.candidates().no_duplicates(),
        forall|k: int| 0 <= k < f.candidates().len() ==> is_candidate_url(#[trigger] f.candidates()[k]),
        forall|i: int|
            0 <= i < f.pending().len() ==> (#[trigger] f.pending()[i]).1 <= f.max_depth()
                && (f.pending()[i].1 == 0 ==> f.pending()[i].0 == f.root()),
        f.current() matches Some(c) ==> c.1 <= f.max_depth() && f.visited().contains(c.0)
            && (c.1 == 0 ==> c.0 == f.root()),
{
    assert forall|k: int| 0 <= k < f.candidates().len() implies is_candidate_url(#[trigger] f.candidates()[k]) by {
    }
}

/// A crawl never visits a page twice: each fetch asked for is of a page
/// not visited before.
pub proof fn lemma_no_revisit(f: Frontier)
    requires
        f.wf(),
    ensures
        f.visited().no_duplicates(),
        f.fetches() == f.visited().len(),
{
}

/// With depth bound 0 only the root page is fetched, and every candidate was
/// found on it.
pub proof fn lemma_depth_zero(f: Frontier)
    requires
        f.wf(),
        f.max_depth() == 0,
    ensures
        forall|i: int| 0 <= i < f.visited().len() ==> #[trigger] f.visited()[i] == f.root(),
        forall|k: int| 0 <= k < f.candidates().len() ==> (#[trigger] f.found_on()[k]).0 == f.root(),
{
    assert forall|k: int| 0 <= k < f.candidates().len() implies (#[trigger] f.found_on()[k]).0 == f.root() by {
        assert(is_candidate_url(f.candidates()[k]));
        assert(f.visited().contains(f.found_on()[k].0));
    }
}

/// A crawl stays on the root's origin: every page it visits is the root or
/// has the root's scheme and host, and so does every candidate it records.
pub proof fn lemma_same_origin(f: Frontier)
    requires
        f.wf(),
    ensures
        forall|i: int| 0 <= i < f.visited().len() ==> f.in_scope(#[trigger] f.visited()[i]),
        forall|i: int| 0 <= i < f.pending().len() ==> f.in_scope((#[trigger] f.pending()[i]).0),
        forall|k: int|
            0 <= k < f.candidates().len() ==> on_origin(#[trigger] f.candidates()[k], f.scheme(), f.host()),
{
    assert forall|k: int| 0 <= k < f.candidates().len() implies on_origin(
        #[trigger] f.candidates()[k],
        f.scheme(),
        f.host(),
    ) by {
        assert(is_candidate_url(f.candidates()[k]));
    }
}

} // verus!
