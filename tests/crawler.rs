use sqlscan::crawler::{CrawlError, WebCrawler};

fn run_crawl(crawler: &WebCrawler, root: &str, pages: &[(&str, &str)]) -> (Vec<String>, Vec<String>) {
    let mut frontier = crawler.start(root).unwrap();
    let mut fetched = Vec::new();
    while let Some(url) = frontier.next_fetch() {
        fetched.push(url.clone());
        let body = pages.iter().find(|(u, _)| *u == url).map(|(_, b)| *b);
        frontier.on_page(crawler, body);
    }
    (frontier.into_candidates(), fetched)
}

#[test]
fn crawl_seed_page_end_to_end() {
    let mut crawler = WebCrawler::new();
    crawler.set_max_depth(1);
    let pages = [(
        "http://example.com/",
        r#"<html><body><a href="/a.php?id=1">a</a> <a href="/b.html">b</a></body></html>"#,
    )];
    let (found, fetched) = run_crawl(&crawler, "http://example.com", &pages);
    assert_eq!(found, vec!["http://example.com/a.php?id=1".to_string()]);
    assert_eq!(
        fetched,
        vec![
            "http://example.com/".to_string(),
            "http://example.com/a.php?id=1".to_string(),
            "http://example.com/b.html".to_string(),
        ]
    );
}

#[test]
fn crawl_depth_zero_fetches_only_the_seed() {
    let mut crawler = WebCrawler::new();
    crawler.set_max_depth(0);
    let pages = [
        ("http://example.com/", r#"<a href="/list.php?cat=2">x</a><a href="/deep.html">y</a>"#),
        ("http://example.com/deep.html", r#"<a href="/item.asp?id=9">z</a>"#),
    ];
    let (found, fetched) = run_crawl(&crawler, "http://example.com/index.html", &pages);
    assert_eq!(fetched, vec!["http://example.com/".to_string()]);
    assert_eq!(found, vec!["http://example.com/list.php?cat=2".to_string()]);
}

#[test]
fn crawl_depth_one_reaches_links_of_linked_pages() {
    let mut crawler = WebCrawler::new();
    crawler.set_max_depth(1);
    let pages = [
        ("http://example.com/", r#"<a href="/deep.html">y</a>"#),
        ("http://example.com/deep.html", r#"<a href="item.asp?id=9">z</a>"#),
    ];
    let (found, _) = run_crawl(&crawler, "http://example.com", &pages);
    assert_eq!(found, vec!["http://example.com/item.asp?id=9".to_string()]);
}

#[test]
fn crawl_ignores_other_hosts() {
    let crawler = WebCrawler::new();
    let pages = [(
        "http://example.com/",
        r#"<a href="http://other.com/x.php?id=1">o</a><a href="http://example.com.evil.org/y.php?id=2">e</a><a href="https://example.com/z.php?id=3">s</a>"#,
    )];
    let (found, fetched) = run_crawl(&crawler, "http://example.com", &pages);
    assert!(found.is_empty());
    assert_eq!(fetched, vec!["http://example.com/".to_string()]);
}

#[test]
fn crawl_never_fetches_a_page_twice() {
    let mut crawler = WebCrawler::new();
    crawler.set_max_depth(3);
    let pages = [
        ("http://example.com/", r#"<a href="/a.html">a</a><a href="/b.html">b</a><a href="/a.html">a</a>"#),
        ("http://example.com/a.html", r#"<a href="/b.html">b</a><a href="/">r</a><a href="/p.php?id=1">p</a>"#),
        ("http://example.com/b.html", r#"<a href="/a.html">a</a><a href="/p.php?id=1">p</a>"#),
    ];
    let (found, fetched) = run_crawl(&crawler, "http://example.com", &pages);
    let mut distinct = fetched.clone();
    distinct.sort();
    distinct.dedup();
    assert_eq!(distinct.len(), fetched.len());
    assert_eq!(found, vec!["http://example.com/p.php?id=1".to_string()]);
}

#[test]
fn crawl_failed_fetch_is_not_fatal() {
    let crawler = WebCrawler::new();
    let pages = [("http://example.com/", r#"<a href="/gone.html">g</a><a href="/ok.html">o</a>"#)];
    let (_, fetched) = run_crawl(&crawler, "http://example.com", &pages);
    assert_eq!(fetched.len(), 3);
}

#[test]
fn crawl_rejects_malformed_root() {
    let crawler = WebCrawler::new();
    assert!(matches!(crawler.start("not a url"), Err(CrawlError::UrlParseError)));
    assert_eq!(WebCrawler::extract_base_url("example.com"), Err(CrawlError::UrlParseError));
    assert_eq!(
        WebCrawler::extract_base_url("https://shop.example.org:8080/a/b?x=1").unwrap(),
        "https://shop.example.org"
    );
}

#[test]
fn candidate_heuristic() {
    let crawler = WebCrawler::new();
    assert!(crawler.is_candidate("http://example.com/page.php?id=1"));
    assert!(crawler.is_candidate("https://test.com/script.asp?user=admin&pass=secret"));
    assert!(crawler.is_candidate("http://vulnerable.com/index.jsp?category=books"));
    assert!(!crawler.is_candidate("http://normal.com/static-page.html"));
    assert!(!crawler.is_candidate("http://site.com/page.php"));
}

#[test]
fn crawl_does_not_refetch_the_root_through_a_link() {
    let mut crawler = WebCrawler::new();
    crawler.set_max_depth(2);
    let pages = [
        ("http://example.com/", r#"<a href="/">home</a><a href="/a.html">a</a><a href="http://example.com">h</a>"#),
        ("http://example.com/a.html", r#"<a href="/">home</a><a href="/p.php?id=1">p</a>"#),
    ];
    let (found, fetched) = run_crawl(&crawler, "http://example.com", &pages);
    assert_eq!(
        fetched,
        vec![
            "http://example.com/".to_string(),
            "http://example.com/a.html".to_string(),
            "http://example.com/p.php?id=1".to_string(),
        ]
    );
    assert_eq!(found, vec!["http://example.com/p.php?id=1".to_string()]);
}

#[test]
fn crawl_repeats_identically() {
    let mut crawler = WebCrawler::new();
    crawler.set_max_depth(2);
    let pages = [
        ("http://example.com/", r#"<a href="/x.php?a=1">x</a><a href="/b.html">b</a><a href="/w.asp?z=2">w</a>"#),
        ("http://example.com/b.html", r#"<a href="/w.asp?z=2">w</a><a href="/v.jsp?q=3">v</a>"#),
    ];
    let first = run_crawl(&crawler, "http://example.com", &pages);
    let second = run_crawl(&crawler, "http://example.com", &pages);
    assert_eq!(first, second);
    assert_eq!(
        first.0,
        vec![
            "http://example.com/x.php?a=1".to_string(),
            "http://example.com/w.asp?z=2".to_string(),
            "http://example.com/v.jsp?q=3".to_string(),
        ]
    );
}

#[test]
fn crawler_try_new_accepts_its_pattern() {
    assert!(WebCrawler::try_new().is_ok());
}
