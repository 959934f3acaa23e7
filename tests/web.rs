use sqlscan::search::{result_limit, BingSearchEngine, GoogleSearchEngine, Search, SearchError, YahooSearchEngine};
use sqlscan::searchlibs::{deduplicate_urls, filter_google_urls, BingSearch, GoogleSearch, YahooSearch};
use sqlscan::server::{ReverseIpLookup, ServerInfoChecker};
use sqlscan::report::{ServerData, StdUtils};
use sqlscan::urls::{join_url, parse_url};
use sqlscan::useragents::UserAgents;
use sqlscan::web::{is_success, request_url, response_outcome, WebError};

#[test]
fn test_user_agents_random() {
    let agents = UserAgents::new();
    let agent1 = agents.get_random();
    let agent2 = agents.get_random();

    assert!(!agent1.is_empty());
    assert!(!agent2.is_empty());
    assert!(agent1.contains("Mozilla"));
}

#[test]
fn test_user_agents_get_all() {
    let agents = UserAgents::new();
    let all_agents = agents.get_all();

    assert!(!all_agents.is_empty());
    assert!(all_agents.len() > 5);

    for agent in all_agents {
        assert!(!agent.is_empty());
    }
}

#[test]
fn user_agent_pick_wraps_around() {
    let agents = UserAgents::new();
    let all = agents.get_all();
    assert_eq!(agents.pick(0), all[0]);
    assert_eq!(agents.pick(all.len() + 1), all[1]);
    assert!(all.contains(&agents.get_random()));
}

#[test]
fn request_url_adds_scheme() {
    assert_eq!(request_url("example.com/x").unwrap(), "http://example.com/x");
    assert_eq!(request_url("https://example.com").unwrap(), "https://example.com");
    assert!(matches!(request_url("http://"), Err(WebError::UrlError(u)) if u == "http://"));
}

#[test]
fn server_error_with_empty_body_fails() {
    assert!(matches!(
        response_outcome(500, String::new(), None),
        Err(WebError::Http500Error(m)) if m == "HTTP 5xx with empty response"
    ));
    assert!(matches!(response_outcome(503, String::new(), None), Err(WebError::Http500Error(_))));
    assert!(matches!(response_outcome(599, String::new(), None), Err(WebError::Http500Error(_))));
    assert_eq!(response_outcome(600, String::new(), None).unwrap().0, "");
    let ok = response_outcome(500, "Internal Server Error".to_string(), None).unwrap();
    assert_eq!(ok.0, "Internal Server Error");
    let ok = response_outcome(404, String::new(), Some("http://a.com/".to_string())).unwrap();
    assert_eq!(ok, (String::new(), Some("http://a.com/".to_string())));
    assert!(is_success(200) && is_success(299) && !is_success(301) && !is_success(500));
}

#[test]
fn url_parts_and_joins() {
    let u = parse_url("HTTP://Example.COM/a/b.php?x=1#f").unwrap();
    assert_eq!(u.text, "http://example.com/a/b.php?x=1#f");
    assert_eq!(u.scheme, "http");
    assert_eq!(u.host, Some("example.com".to_string()));
    assert_eq!(u.path, "/a/b.php");
    assert_eq!(u.query, Some("x=1".to_string()));
    assert!(parse_url("relative/path").is_none());
    assert_eq!(join_url("http://a.com/x/y.html", "../z.php?id=1").unwrap(), "http://a.com/z.php?id=1");
    assert_eq!(join_url("http://a.com/x/y.html", "?page=2").unwrap(), "http://a.com/x/y.html?page=2");
    assert_eq!(join_url("http://a.com/x", "//b.com/k").unwrap(), "http://b.com/k");
    assert_eq!(join_url("nonsense", "/a"), None);
}

#[test]
fn domains_of_targets() {
    assert_eq!(ReverseIpLookup::extract_domain("http://www.example.com/path"), "www.example.com");
    assert_eq!(ServerInfoChecker::extract_domain("example.com/path/x"), "example.com");
    assert_eq!(ServerInfoChecker::extract_domain("example.com"), "example.com");
    assert_eq!(ServerInfoChecker::lookup_url("https://a.org/x"), "https://aruljohn.com/webserver/a.org");
    let form = ReverseIpLookup::request_form("http://a.org/");
    assert_eq!(form[0], ("remoteAddress".to_string(), "a.org".to_string()));
    assert_eq!(form[1], ("key".to_string(), String::new()));
}

#[test]
fn reverse_ip_outcomes() {
    let ok = ReverseIpLookup::outcome(
        Some("Success".to_string()),
        None,
        vec![Some("a.com".to_string()), None, Some("b.com".to_string())],
    );
    assert_eq!(ok, Ok(vec!["a.com".to_string(), "b.com".to_string()]));
    let err = ReverseIpLookup::outcome(Some("Fail".to_string()), Some("limit reached".to_string()), vec![]);
    assert_eq!(err, Err("Reverse IP lookup failed: limit reached".to_string()));
    let err = ReverseIpLookup::outcome(None, None, vec![]);
    assert_eq!(err, Err("Reverse IP lookup failed: Unknown error".to_string()));
}

#[test]
fn server_info_from_rows() {
    let rows = vec![
        vec!["Server".to_string()],
        vec!["Server".to_string(), "nginx".to_string()],
        vec!["Language".to_string(), "PHP/8.1".to_string(), "x".to_string()],
        vec!["Other".to_string(), "ignored".to_string()],
    ];
    assert_eq!(ServerInfoChecker::parse_server_info(false, &rows), ("nginx".to_string(), "PHP/8.1".to_string()));
    assert_eq!(ServerInfoChecker::parse_server_info(true, &rows), (String::new(), String::new()));
    assert_eq!(ServerInfoChecker::parse_server_info(false, &rows[0..2].to_vec()), ("nginx".to_string(), String::new()));
    let d = ServerInfoChecker::server_data("http://a.com".to_string(), None);
    assert!(d.server.is_empty() && d.language.is_empty() && d.website == "http://a.com");
}

#[test]
fn report_rows() {
    let rows = StdUtils::vuln_rows(&vec![("http://a.com/?id=1".to_string(), "MySQL".to_string())]);
    assert_eq!(rows[0].index, 1);
    assert_eq!(rows[0].database, "MySQL");
    let long = "A".repeat(31);
    let full = StdUtils::full_rows(&vec![(
        "u".to_string(),
        "d".to_string(),
        long.clone(),
        "PHP".to_string(),
    )]);
    assert_eq!(full[0].server, format!("{}...", "A".repeat(27)));
    assert_eq!(full[0].language, "PHP");
    assert_eq!(StdUtils::cell(&"B".repeat(30)), "B".repeat(30));
    let records = StdUtils::json_records(&vec![
        ("a".to_string(), "b".to_string(), "c".to_string(), "d".to_string());
        11
    ]);
    assert_eq!(records[10].0, "10");
    assert_eq!(records[3].1.lang, "d");
    let joined = StdUtils::join_server_data(
        &vec![("u".to_string(), "MySQL".to_string())],
        &vec![ServerData { website: "u".to_string(), server: "Apache".to_string(), language: "PHP".to_string() }],
    );
    assert_eq!(joined, vec![("u".to_string(), "MySQL".to_string(), "Apache".to_string(), "PHP".to_string())]);
}

#[test]
fn search_error_from_message() {
    assert!(matches!(SearchError::from_message("HTTP 503 Service".to_string()), SearchError::ServiceUnavailable));
    assert!(matches!(SearchError::from_message("got 504".to_string()), SearchError::GatewayTimeout));
    assert!(matches!(SearchError::from_message("boom".to_string()), SearchError::EngineError(m) if m == "boom"));
    assert_eq!(result_limit(5), Some(50));
    assert_eq!(result_limit(usize::MAX), None);
}

#[test]
fn search_engine_settings() {
    let _ = Search::new();
    let g = GoogleSearchEngine::new();
    assert_eq!(g.engine.tld, "com");
    assert_eq!(g.engine.lang, "en");
    let b = BingSearchEngine::new();
    assert_eq!(b.engine.base_url, "http://www.bing.com/search");
    let y = YahooSearchEngine::new();
    assert_eq!(y.engine.base_url, "https://search.yahoo.com/search");
}

#[test]
fn google_urls() {
    let g = GoogleSearch::new().with_tld("de").with_lang("fr").with_safe_search("on");
    assert_eq!(g.home_url(), "https://www.google.de/");
    assert_eq!(
        g.build_search_url("inurl:php?id=", 10, 0, "0", ""),
        "https://www.google.de/search?hl=fr&q=inurl%3Aphp%3Fid%3D&btnG=Google+Search&tbs=0&safe=on&tbm="
    );
    assert_eq!(
        g.build_search_url("a b", 20, 40, "0", "nws"),
        "https://www.google.de/search?hl=fr&q=a%20b&num=20&start=40&tbs=0&safe=on&tbm=nws"
    );
    assert_eq!(
        g.extract_url_from_google_redirect("/url?q=https%3A%2F%2Fsite.com%2Fx&sa=U"),
        Some("https://site.com/x".to_string())
    );
    assert_eq!(g.extract_url_from_google_redirect("/url?sa=U"), None);
    assert_eq!(filter_google_urls("https://site.com/x"), Some("https://site.com/x".to_string()));
    assert_eq!(filter_google_urls("https://www.google.com/x"), None);
    assert_eq!(filter_google_urls("/relative"), None);
}

#[test]
fn bing_and_yahoo_urls() {
    let b = BingSearch::new().with_user_agent("scanner", "2.0");
    assert_eq!(b.user_agent, "scanner/2.0");
    assert_eq!(b.page_url("x y", 11), "http://www.bing.com/search?q=x%20y&first=11");
    assert_eq!(BingSearch::page_count(0), 1);
    assert_eq!(BingSearch::page_count(10), 1);
    assert_eq!(BingSearch::page_count(11), 2);
    assert_eq!(b.parse_links(r#"<h2><a href="http://r.com/1">R</a></h2>"#), vec!["http://r.com/1".to_string()]);
    let y = YahooSearch::new().with_user_agent("ua").with_content_type("text/plain");
    assert_eq!(y.user_agent, "ua");
    assert_eq!(y.content_type, "text/plain");
    assert_eq!(y.page_url("q", 10, 0).unwrap(), "https://search.yahoo.com/search?p=q&n=10&b=10");
    assert_eq!(y.page_url("q", 10, usize::MAX), None);
}

#[test]
fn deduplicate_keeps_first_occurrences() {
    let urls = vec!["b".to_string(), "a".to_string(), "b".to_string(), "c".to_string(), "a".to_string()];
    assert_eq!(deduplicate_urls(urls), vec!["b".to_string(), "a".to_string(), "c".to_string()]);
    assert!(deduplicate_urls(Vec::new()).is_empty());
}

#[test]
fn google_result_links() {
    let g = GoogleSearch::new();
    assert_eq!(g.result_link("https://site.com/a.php?id=1"), Some("https://site.com/a.php?id=1".to_string()));
    assert_eq!(g.result_link("/url?q=http%3A%2F%2Fsite.org%2F&sa=U"), Some("http://site.org/".to_string()));
    assert_eq!(g.result_link("https://maps.google.com/x"), None);
    assert_eq!(g.result_link("#top"), None);
    assert_eq!(g.result_link("javascript:void(0)"), None);
    assert_eq!(g.result_link("http://webcache.example.net/x"), None);
    assert_eq!(g.result_link("/search?q=x"), None);
    let groups = vec![
        vec!["#a".to_string(), "/preferences".to_string()],
        vec!["http://a.com/".to_string(), "http://b.com/".to_string(), "http://a.com/".to_string()],
        vec!["http://c.com/".to_string()],
    ];
    assert_eq!(g.parse_links(&groups), vec!["http://a.com/".to_string(), "http://b.com/".to_string()]);
    assert!(g.parse_links(&Vec::new()).is_empty());
}

#[test]
fn yahoo_result_links() {
    assert!(YahooSearch::is_result_link("https://site.com/p.php?id=3"));
    assert!(!YahooSearch::is_result_link("https://search.yahoo.com/x"));
    assert!(!YahooSearch::is_result_link("/relative"));
}

#[test]
fn decimal_text() {
    assert_eq!(sqlscan::text::usize_text(0), "0");
    assert_eq!(sqlscan::text::usize_text(7), "7");
    assert_eq!(sqlscan::text::usize_text(1200), "1200");
    assert_eq!(sqlscan::text::usize_text(usize::MAX), usize::MAX.to_string());
}
