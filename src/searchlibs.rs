//! Search-engine result pages: request URLs, link lists and errors.
use vstd::prelude::*;
use crate::pattern::{Pattern, regex_accepts, regex_first_groups};
use crate::text::{views, contains_string, opt_view, usize_text, decimal, find_text, find_char, contains_text, occurs_at, first_index_of, starts_with};
use crate::urls::{parse_url, url_parses, url_host};

verus! {

/// `s` with every element after its first occurrence removed.
pub open spec fn first_occurrences(s: Seq<Seq<char>>) -> Seq<Seq<char>>
    decreases s.len(),
{
    if s.len() == 0 {
        s
    } else {
        let d = first_occurrences(s.drop_last());
        if d.contains(s.last()) {
            d
        } else {
            d.push(s.last())
        }
    }
}

/// `first_occurrences` keeps exactly the elements of `s`, once each.
pub proof fn lemma_first_occurrences(s: Seq<Seq<char>>)
    ensures
        first_occurrences(s).no_duplicates(),
        forall|x: Seq<char>| #[trigger] first_occurrences(s).contains(x) <==> s.contains(x),
    decreases s.len(),
{
    if s.len() > 0 {
        let t = s.drop_last();
        lemma_first_occurrences(t);
        assert forall|x: Seq<char>| #[trigger] s.contains(x) <==> t.contains(x) || x == s.last() by {
            if s.contains(x) {
                let i = choose|i: int| 0 <= i < s.len() && s[i] == x;
                if i < s.len() - 1 {
                    assert(t[i] == x);
                }
            }
            if t.contains(x) {
                let i = choose|i: int| 0 <= i < t.len() && t[i] == x;
                assert(s[i] == x);
            }
            if x == s.last() {
                assert(s[s.len() - 1] == x);
            }
        }
        let d = first_occurrences(t);
        if !d.contains(s.last()) {
            assert forall|x: Seq<char>| #[trigger] d.push(s.last()).contains(x) <==> d.contains(x) || x == s.last() by {
                if d.push(s.last()).contains(x) {
                    let i = choose|i: int| 0 <= i < d.len() + 1 && d.push(s.last())[i] == x;
                    if i < d.len() {
                        assert(d[i] == x);
                    }
                }
                if d.contains(x) {
                    let i = choose|i: int| 0 <= i < d.len() && d[i] == x;
                    assert(d.push(s.last())[i] == x);
                }
                if x == s.last() {
                    assert(d.push(s.last())[d.len() as int] == x);
                }
            }
        }
    }
}

/// The URLs of `urls` in order, each kept at its first occurrence only.
pub fn deduplicate_urls(urls: Vec<String>) -> (r: Vec<String>)
    ensures
        views(r@) == first_occurrences(views(urls@)),
{
    let mut out: Vec<String> = Vec::new();
    let mut i: usize = 0;
    while i < urls.len()
        invariant
            i <= urls@.len(),
            views(out@) == first_occurrences(views(urls@).subrange(0, i as int)),
        decreases urls@.len() - i,
    {
        let ghost prefix = views(urls@).subrange(0, i as int + 1);
        assert(prefix.drop_last() =~= views(urls@).subrange(0, i as int));
        assert(prefix.last() == urls@[i as int]@);
        if !contains_string(&out, &urls[i]) {
            out.push(urls[i].clone());
            assert(views(out@) =~= first_occurrences(views(urls@).subrange(0, i as int)).push(urls@[i as int]@));
        }
        i += 1;
    }
    assert(views(urls@).subrange(0, urls@.len() as int) =~= views(urls@));
    out
}

/// `s` percent-encoded: every byte but ASCII letters, digits and `-_.~`
/// written as `%XX`.
pub uninterp spec fn percent_encoded(s: Seq<char>) -> Seq<char>;

/// `s` percent-decoded; `None` when the decoded bytes are not UTF-8.
pub uninterp spec fn percent_decoded(s: Seq<char>) -> Option<Seq<char>>;

/// Relies on urlencoding::encode.
#[verifier::external_body]
pub fn encode_component(s: &str) -> (r: String)
    ensures
        r@ == percent_encoded(s@),
{
    urlencoding::encode(s).into_owned()
}

/// Relies on urlencoding::decode, which fails on bytes that are not UTF-8.
#[verifier::external_body]
pub fn decode_component(s: &str) -> (r: Option<String>)
    ensures
        opt_view(r) == percent_decoded(s@),
{
    urlencoding::decode(s).ok().map(|c| c.into_owned())
}

/// One search result.
pub struct SearchResult {
    pub url: String,
    pub title: Option<String>,
    pub snippet: Option<String>,
}

/// Why a search-engine request failed.
#[derive(Debug)]
pub enum SearchError {
    HttpError(String),
    ParseError(String),
    UrlError(String),
    InvalidParameter(String),
}

/// Whether `url` is kept as a result: it parses as a URL whose host does
/// not contain `google`.
pub open spec fn kept_result(url: Seq<char>) -> bool {
    url_parses(url) && url_host(url) is Some && !(exists|i: int| #[trigger] occurs_at(url_host(url)->0, "google"@, i))
}

/// `url` itself when it parses as a URL whose host does not contain
/// `google`; `None` otherwise.
pub fn filter_google_urls(url: &str) -> (r: Option<String>)
    ensures
        kept_result(url@) ==> (r matches Some(u) && u@ == url@),
        !kept_result(url@) ==> r is None,
{
    if let Some(parsed) = parse_url(url) {
        if let Some(host) = parsed.host {
            assert(host@ == url_host(url@)->0);
            if !contains_text(host.as_str(), "google") {
                return Some(String::from_str(url));
            }
            assert(!kept_result(url@)) by {
                let i = choose|i: int| #[trigger] occurs_at(host@, "google"@, i);
                assert(occurs_at(url_host(url@)->0, "google"@, i));
            }
        }
    }
    None
}

/// The settings of a Google search.
pub struct GoogleSearch {
    pub tld: String,
    pub lang: String,
    pub safe: String,
    pub user_agent: String,
}

/// The request URL of a Google result page.
pub open spec fn google_search_url(
    tld: Seq<char>,
    lang: Seq<char>,
    safe: Seq<char>,
    query: Seq<char>,
    num: nat,
    start: nat,
    tbs: Seq<char>,
    search_type: Seq<char>,
) -> Seq<char> {
    let head = "https://www.google."@ + tld + "/search?hl="@ + lang + "&q="@ + percent_encoded(query);
    let count = if num == 10 { Seq::empty() } else { "&num="@ + decimal(num) };
    let from = if start > 0 { "&start="@ + decimal(start) } else { "&btnG=Google+Search"@ };
    head + count + from + "&tbs="@ + tbs + "&safe="@ + safe + "&tbm="@ + search_type
}

/// The text after the first `q=` of `s`, up to the next `&`.
pub open spec fn redirect_target(s: Seq<char>) -> Option<Seq<char>> {
    if exists|i: int| #[trigger] occurs_at(s, "q="@, i) {
        let i = choose|i: int| #[trigger] occurs_at(s, "q="@, i) && forall|j: int| 0 <= j < i ==> !#[trigger] occurs_at(s, "q="@, j);
        let after = s.subrange(i + 2, s.len() as int);
        match first_index_of(after, '&') {
            Some(e) => Some(after.subrange(0, e)),
            None => Some(after),
        }
    } else {
        None
    }
}

impl GoogleSearch {
    /// Top-level domain `com`, language `en`, safe search `off`.
    pub fn new() -> (r: Self)
        ensures
            r.tld@ == "com"@,
            r.lang@ == "en"@,
            r.safe@ == "off"@,
            r.user_agent@ == "Mozilla/4.0 (compatible; MSIE 8.0; Windows NT 6.0)"@,
    {
        GoogleSearch {
            tld: String::from_str("com"),
            lang: String::from_str("en"),
            safe: String::from_str("off"),
            user_agent: String::from_str("Mozilla/4.0 (compatible; MSIE 8.0; Windows NT 6.0)"),
        }
    }

    pub fn with_tld(self, tld: &str) -> (r: Self)
        ensures
            r.tld@ == tld@,
            r.lang == self.lang,
            r.safe == self.safe,
            r.user_agent == self.user_agent,
    {
        GoogleSearch { tld: String::from_str(tld), ..self }
    }

    pub fn with_lang(self, lang: &str) -> (r: Self)
        ensures
            r.lang@ == lang@,
            r.tld == self.tld,
            r.safe == self.safe,
            r.user_agent == self.user_agent,
    {
        GoogleSearch { lang: String::from_str(lang), ..self }
    }

    pub fn with_safe_search(self, safe: &str) -> (r: Self)
        ensures
            r.safe@ == safe@,
            r.tld == self.tld,
            r.lang == self.lang,
            r.user_agent == self.user_agent,
    {
        GoogleSearch { safe: String::from_str(safe), ..self }
    }

    /// The home page, visited first for its cookie.
    pub fn home_url(&self) -> (r: String)
        ensures
            r@ == "https://www.google."@ + self.tld@ + "/"@,
    {
        let mut u = String::from_str("https://www.google.");
        u.append(self.tld.as_str());
        u.append("/");
        u
    }

    /// The request URL of the result page for `query` that starts at
    /// result `start`, with `num` results a page.
    pub fn build_search_url(&self, query: &str, num: usize, start: usize, tbs: &str, search_type: &str) -> (r: String)
        ensures
            r@ == google_search_url(
                self.tld@,
                self.lang@,
                self.safe@,
                query@,
                num as nat,
                start as nat,
                tbs@,
                search_type@,
            ),
    {
        let mut u = String::from_str("https://www.google.");
        u.append(self.tld.as_str());
        u.append("/search?hl=");
        u.append(self.lang.as_str());
        u.append("&q=");
        let q = encode_component(query);
        u.append(q.as_str());
        if num != 10 {
            u.append("&num=");
            let n = usize_text(num);
            u.append(n.as_str());
        }
        if start > 0 {
            u.append("&start=");
            let s = usize_text(start);
            u.append(s.as_str());
        } else {
            u.append("&btnG=Google+Search");
        }
        u.append("&tbs=");
        u.append(tbs);
        u.append("&safe=");
        u.append(self.safe.as_str());
        u.append("&tbm=");
        u.append(search_type);
        proof {
            let head = "https://www.google."@ + self.tld@ + "/search?hl="@ + self.lang@ + "&q="@ + percent_encoded(query@);
            let count = if num == 10 { Seq::empty() } else { "&num="@ + decimal(num as nat) };
            let from = if start > 0 { "&start="@ + decimal(start as nat) } else { "&btnG=Google+Search"@ };
            assert(u@ =~= head + count + from + "&tbs="@ + tbs@ + "&safe="@ + self.safe@ + "&tbm="@ + search_type@);
        }
        u
    }

    /// The target of a Google redirect link `/url?q=...&...`: the text
    /// after the first `q=`, up to the next `&`, percent-decoded.
    pub fn extract_url_from_google_redirect(&self, redirect_url: &str) -> (r: Option<String>)
        ensures
            opt_view(r) == match redirect_target(redirect_url@) {
                Some(t) => percent_decoded(t),
                None => None,
            },
    {
        proof {
            reveal_strlit("q=");
        }
        match find_text(redirect_url, "q=") {
            Some(i) => {
                let n = redirect_url.unicode_len();
                let after = redirect_url.substring_char(i + 2, n);
                proof {
                    let s = redirect_url@;
                    assert(exists|k: int| #[trigger] occurs_at(s, "q="@, k)) by {
                        assert(occurs_at(s, "q="@, i as int));
                    }
                    let k = choose|k: int| #[trigger] occurs_at(s, "q="@, k) && forall|j: int| 0 <= j < k ==> !#[trigger] occurs_at(s, "q="@, j);
                    assert(k == i) by {
                        if k < i { assert(!occurs_at(s, "q="@, k)); }
                        if k > i { assert(!occurs_at(s, "q="@, i as int)); }
                    }
                }
                match find_char(after, '&') {
                    Some(e) => {
                        proof {
                            let f = first_index_of(after@, '&');
                            assert(f is Some);
                            let k = f->0;
                            assert(k == e) by {
                                if k < e { assert(after@[k] == '&'); }
                                if k > e { assert(after@[e as int] == '&'); }
                            }
                        }
                        decode_component(after.substring_char(0, e))
                    },
                    None => decode_component(after),
                }
            },
            None => None,
        }
    }
}

/// Whether `s` begins with `prefix`.
pub open spec fn has_prefix(s: Seq<char>, prefix: Seq<char>) -> bool {
    prefix.len() <= s.len() && s.subrange(0, prefix.len() as int) == prefix
}

/// Whether `needle` occurs somewhere in `s`.
pub open spec fn mentions(s: Seq<char>, needle: Seq<char>) -> bool {
    exists|i: int| #[trigger] occurs_at(s, needle, i)
}

/// Whether an anchor target on a Google page is passed over: a link to
/// Google itself, to the page itself, to script, or to the cache.
pub open spec fn skipped_href(h: Seq<char>) -> bool {
    mentions(h, "google.com"@) || has_prefix(h, "#"@) || has_prefix(h, "javascript:"@) || mentions(h, "webcache"@)
}

/// The result a Google anchor target points at, if any: the target of a
/// `/url?` redirect, or an absolute `http` link; kept only when its host is
/// not Google's.
pub open spec fn google_result(h: Seq<char>) -> Option<Seq<char>> {
    let target = if has_prefix(h, "/url?"@) {
        match redirect_target(h) {
            Some(t) => percent_decoded(t),
            None => None,
        }
    } else if has_prefix(h, "http"@) {
        Some(h)
    } else {
        None
    };
    if skipped_href(h) {
        None
    } else {
        match target {
            Some(u) => if kept_result(u) { Some(u) } else { None },
            None => None,
        }
    }
}

/// The distinct results of the anchor targets `hrefs`, in order.
pub open spec fn results_of(hrefs: Seq<Seq<char>>) -> Seq<Seq<char>>
    decreases hrefs.len(),
{
    if hrefs.len() == 0 {
        Seq::empty()
    } else {
        let d = results_of(hrefs.drop_last());
        match google_result(hrefs.last()) {
            Some(u) => if d.contains(u) { d } else { d.push(u) },
            None => d,
        }
    }
}

/// The results of the first group of anchor targets that yields any.
pub open spec fn first_results(groups: Seq<Seq<Seq<char>>>) -> Seq<Seq<char>>
    decreases groups.len(),
{
    if groups.len() == 0 {
        Seq::empty()
    } else if results_of(groups[0]).len() > 0 {
        results_of(groups[0])
    } else {
        first_results(groups.drop_first())
    }
}

/// Whether an anchor target on a Yahoo page is a result: an `http` link
/// away from Yahoo.
pub open spec fn yahoo_result(h: Seq<char>) -> bool {
    has_prefix(h, "http"@) && !mentions(h, "yahoo.com"@)
}

/// The settings of a Bing search.
pub struct BingSearch {
    pub base_url: String,
    pub user_agent: String,
    pub regex: Option<Pattern>,
}

/// The pattern whose first group is a result link on a Bing page.
pub open spec fn bing_link_pattern() -> Seq<char> {
    "<h2><a href=\"(.*?)\""@
}

impl BingSearch {
    pub closed spec fn wf(&self) -> bool {
        &&& self.regex is Some <==> regex_accepts(bing_link_pattern())
        &&& self.regex matches Some(p) ==> p@ == bing_link_pattern()
    }

    pub fn new() -> (r: Self)
        ensures
            r.wf(),
            r.base_url@ == "http://www.bing.com/search"@,
            r.user_agent@ == "python-bing/0.0.1"@,
    {
        BingSearch {
            base_url: String::from_str("http://www.bing.com/search"),
            user_agent: String::from_str("python-bing/0.0.1"),
            regex: Pattern::compile("<h2><a href=\"(.*?)\""),
        }
    }

    /// Sends `name/version` as the user agent.
    pub fn with_user_agent(self, name: &str, version: &str) -> (r: Self)
        requires
            self.wf(),
        ensures
            r.wf(),
            r.user_agent@ == name@ + "/"@ + version@,
            r.base_url == self.base_url,
    {
        let ua = String::from_str(name).concat("/").concat(version);
        BingSearch { user_agent: ua, ..self }
    }

    /// How many pages to fetch for `stop` results: a page holds ten, and
    /// at least one page is fetched.
    pub fn page_count(stop: usize) -> (r: usize)
        ensures
            r == if stop == 0 { 1 } else { (stop - 1) / 10 + 1 },
    {
        if stop == 0 {
            1
        } else {
            (stop - 1) / 10 + 1
        }
    }

    /// The request URL of the page whose first result is number `first`.
    pub fn page_url(&self, query: &str, first: usize) -> (r: String)
        ensures
            r@ == self.base_url@ + "?q="@ + percent_encoded(query@) + "&first="@ + decimal(first as nat),
    {
        let q = encode_component(query);
        let f = usize_text(first);
        self.base_url.clone().concat("?q=").concat(q.as_str()).concat("&first=").concat(f.as_str())
    }

    /// The result links of a Bing result page, in page order.
    pub fn parse_links(&self, html: &str) -> (r: Vec<String>)
        requires
            self.wf(),
        ensures
            regex_accepts(bing_link_pattern()) ==> views(r@) == regex_first_groups(bing_link_pattern(), html@),
            !regex_accepts(bing_link_pattern()) ==> r@.len() == 0,
    {
        match &self.regex {
            Some(p) => p.first_groups(html),
            None => Vec::new(),
        }
    }
}

impl GoogleSearch {
    /// The result an anchor target of a Google page points at, if any.
    pub fn result_link(&self, href: &str) -> (r: Option<String>)
        ensures
            opt_view(r) == google_result(href@),
    {
        proof {
            reveal_strlit("google.com");
            reveal_strlit("#");
            reveal_strlit("javascript:");
            reveal_strlit("webcache");
            reveal_strlit("/url?");
            reveal_strlit("http");
        }
        if contains_text(href, "google.com") || starts_with(href, "#") || starts_with(href, "javascript:")
            || contains_text(href, "webcache") {
            return None;
        }
        let target = if starts_with(href, "/url?") {
            self.extract_url_from_google_redirect(href)
        } else if starts_with(href, "http") {
            Some(String::from_str(href))
        } else {
            None
        };
        match target {
            Some(u) => filter_google_urls(u.as_str()),
            None => None,
        }
    }

    /// The distinct results of the anchor targets of one selector, in
    /// order.
    pub fn results(&self, hrefs: &Vec<String>) -> (r: Vec<String>)
        ensures
            views(r@) == results_of(views(hrefs@)),
    {
        let mut out: Vec<String> = Vec::new();
        let mut i: usize = 0;
        while i < hrefs.len()
            invariant
                i <= hrefs@.len(),
                views(out@) == results_of(views(hrefs@).subrange(0, i as int)),
            decreases hrefs@.len() - i,
        {
            let ghost prefix = views(hrefs@).subrange(0, i as int + 1);
            assert(prefix.drop_last() =~= views(hrefs@).subrange(0, i as int));
            assert(prefix.last() == hrefs@[i as int]@);
            match self.result_link(hrefs[i].as_str()) {
                Some(u) => {
                    if !contains_string(&out, &u) {
                        let ghost before = views(out@);
                        out.push(u);
                        assert(views(out@) =~= before.push(u@));
                    }
                },
                None => {},
            }
            i += 1;
        }
        assert(views(hrefs@).subrange(0, i as int) =~= views(hrefs@));
        out
    }

    /// The result links of a Google page, given the anchor targets matched
    /// by each selector in order of preference: the results of the first
    /// selector that yields any.
    pub fn parse_links(&self, groups: &Vec<Vec<String>>) -> (r: Vec<String>)
        ensures
            views(r@) == first_results(groups@.map_values(|g: Vec<String>| views(g@))),
    {
        let ghost gs = groups@.map_values(|g: Vec<String>| views(g@));
        assert(gs.subrange(0, gs.len() as int) =~= gs);
        let mut i: usize = 0;
        while i < groups.len()
            invariant
                i <= groups@.len(),
                gs == groups@.map_values(|g: Vec<String>| views(g@)),
                first_results(gs) == first_results(gs.subrange(i as int, gs.len() as int)),
            decreases groups@.len() - i,
        {
            let ghost rest = gs.subrange(i as int, gs.len() as int);
            assert(rest[0] == views(groups@[i as int]@));
            assert(rest.drop_first() =~= gs.subrange(i as int + 1, gs.len() as int));
            let links = self.results(&groups[i]);
            if links.len() > 0 {
                return links;
            }
            i += 1;
        }
        assert(gs.subrange(i as int, gs.len() as int) =~= Seq::<Seq<Seq<char>>>::empty());
        Vec::new()
    }
}

/// The settings of a Yahoo search.
pub struct YahooSearch {
    pub base_url: String,
    pub content_type: String,
    pub user_agent: String,
}

impl YahooSearch {
    pub fn new() -> (r: Self)
        ensures
            r.base_url@ == "https://search.yahoo.com/search"@,
            r.content_type@ == "application/x-www-form-urlencoded; charset=UTF-8"@,
            r.user_agent@ == "yahoo search"@,
    {
        YahooSearch {
            base_url: String::from_str("https://search.yahoo.com/search"),
            content_type: String::from_str("application/x-www-form-urlencoded; charset=UTF-8"),
            user_agent: String::from_str("yahoo search"),
        }
    }

    pub fn with_user_agent(self, user_agent: &str) -> (r: Self)
        ensures
            r.user_agent@ == user_agent@,
            r.base_url == self.base_url,
            r.content_type == self.content_type,
    {
        YahooSearch { user_agent: String::from_str(user_agent), ..self }
    }

    pub fn with_content_type(self, content_type: &str) -> (r: Self)
        ensures
            r.content_type@ == content_type@,
            r.base_url == self.base_url,
            r.user_agent == self.user_agent,
    {
        YahooSearch { content_type: String::from_str(content_type), ..self }
    }

    /// Whether an anchor target of a Yahoo page is a result.
    pub fn is_result_link(href: &str) -> (r: bool)
        ensures
            r == yahoo_result(href@),
    {
        proof {
            reveal_strlit("http");
            reveal_strlit("yahoo.com");
        }
        starts_with(href, "http") && !contains_text(href, "yahoo.com")
    }

    /// The request URL of result page `page` (counted from 0), with
    /// `per_page` results a page; `None` when the offset overflows.
    pub fn page_url(&self, query: &str, per_page: usize, page: usize) -> (r: Option<String>)
        ensures
            (page + 1) * 10 <= usize::MAX ==> (r matches Some(u) && u@ == self.base_url@ + "?p="@
                + percent_encoded(query@) + "&n="@ + decimal(per_page as nat) + "&b="@ + decimal(
                ((page + 1) * 10) as nat,
            )),
            (page + 1) * 10 > usize::MAX ==> r is None,
    {
        if page >= usize::MAX / 10 {
            return None;
        }
        let offset = (page + 1) * 10;
        let q = encode_component(query);
        let n = usize_text(per_page);
        let b = usize_text(offset);
        Some(self.base_url.clone().concat("?p=").concat(q.as_str()).concat("&n=").concat(n.as_str()).concat("&b=").concat(b.as_str()))
    }
}

} // verus!
