use sqlscan::fingerprint::Database;
use sqlscan::scanner::{mutate_query, scan_target, ScanSession, SqlInjectionScanner};

fn mock_backend(url: &str) -> Option<String> {
    if url.ends_with("id=1'") {
        Some("You have an error in your SQL syntax; check the manual for your MySQL server".to_string())
    } else {
        Some("<html>fine</html>".to_string())
    }
}

fn run_scan(scanner: &SqlInjectionScanner, urls: Vec<String>, fetch: &dyn Fn(&str) -> Option<String>) -> (Vec<(String, String)>, usize) {
    let mut session = ScanSession::new(urls);
    let mut fetches = 0;
    for batch in session.batches(2) {
        for url in batch {
            let mut task = scanner.start(&url);
            while let Some(probe) = task.next_probe() {
                fetches += 1;
                if let Some(body) = fetch(&probe) {
                    task.observe(scanner.checker(), &body);
                }
            }
            session.record(&task);
        }
    }
    (session.into_results(), fetches)
}

#[test]
fn scan_end_to_end_mysql() {
    let scanner = SqlInjectionScanner::new();
    let (results, fetches) = run_scan(&scanner, vec!["http://x.com/p.php?id=1".to_string()], &mock_backend);
    assert_eq!(results, vec![("http://x.com/p.php?id=1".to_string(), "MySQL".to_string())]);
    assert_eq!(fetches, 1);
}

#[test]
fn scan_probe_urls_follow_payload_order() {
    let scanner = SqlInjectionScanner::new();
    let probes = scanner.probe_urls("http://x.com/dir/p.php?a=1&b=2");
    assert_eq!(probes.len(), 15);
    assert_eq!(probes[0], "http://x.com/dir/p.php?a=1'&b=2'");
    assert_eq!(probes[1], "http://x.com/dir/p.php?a=1')&b=2')");
    assert_eq!(probes[10], "http://x.com/dir/p.php?a=1%27&b=2%27");
    assert_eq!(probes[14], "http://x.com/dir/p.php?a=1%5C&b=2%5C");
}

#[test]
fn probe_urls_keep_port_and_user() {
    let scanner = SqlInjectionScanner::new();
    let probes = scanner.probe_urls("http://user@x.com:8080/p.php?id=1&b=2#frag");
    assert_eq!(probes[0], "http://user@x.com:8080/p.php?id=1'&b=2'");
}

#[test]
fn session_targets_are_distinct_inputs() {
    let session = ScanSession::new(Vec::new());
    assert!(session.batches(3).is_empty());
    let urls = vec!["http://a.com/?x=1".to_string(), "http://a.com/?x=1".to_string()];
    assert_eq!(ScanSession::new(urls).batches(3), vec![vec!["http://a.com/?x=1".to_string()]]);
    assert!(SqlInjectionScanner::max_concurrent() >= 2);
}

#[test]
fn scan_skips_urls_without_query() {
    let scanner = SqlInjectionScanner::new();
    assert!(scanner.probe_urls("http://x.com/p.php").is_empty());
    assert!(scanner.probe_urls("http://x.com/p.php?").is_empty());
    assert!(scanner.probe_urls("not a url?id=1").is_empty());
    let (results, fetches) = run_scan(&scanner, vec!["http://x.com/p.php".to_string()], &mock_backend);
    assert!(results.is_empty());
    assert_eq!(fetches, 0);
}

#[test]
fn scan_fetches_at_most_one_per_payload() {
    let scanner = SqlInjectionScanner::new();
    let never = |_: &str| -> Option<String> { Some("all good".to_string()) };
    let (results, fetches) = run_scan(&scanner, vec!["http://x.com/p.php?id=1".to_string()], &never);
    assert!(results.is_empty());
    assert_eq!(fetches, 15);
    let failing = |_: &str| -> Option<String> { None };
    let (results, fetches) = run_scan(&scanner, vec!["http://x.com/p.php?id=1".to_string()], &failing);
    assert!(results.is_empty());
    assert_eq!(fetches, 15);
}

#[test]
fn scan_output_is_distinct_subset_of_input() {
    let scanner = SqlInjectionScanner::new();
    let always = |_: &str| -> Option<String> { Some("ORA-00933: SQL command not properly ended".to_string()) };
    let urls = vec![
        "http://x.com/a.php?id=1".to_string(),
        "http://x.com/b.php?id=2".to_string(),
        "http://x.com/a.php?id=1".to_string(),
        "http://x.com/c.html".to_string(),
        "http://x.com/d.asp?q=3".to_string(),
    ];
    let (results, fetches) = run_scan(&scanner, urls.clone(), &always);
    assert_eq!(fetches, 3);
    assert_eq!(results.len(), 3);
    for (u, db) in &results {
        assert!(urls.contains(u));
        assert_eq!(db, "Oracle");
    }
    let mut seen: Vec<&String> = results.iter().map(|(u, _)| u).collect();
    seen.dedup();
    assert_eq!(seen.len(), 3);
}

#[test]
fn session_batches_split_in_order() {
    let urls: Vec<String> = (0..5).map(|i| format!("http://x.com/{}.php?id=1", i)).collect();
    let session = ScanSession::new(urls.clone());
    let batches = session.batches(2);
    assert_eq!(batches.len(), 3);
    assert_eq!(batches[0], urls[0..2].to_vec());
    assert_eq!(batches[2], urls[4..5].to_vec());
    assert!(session.batches(1).iter().all(|b| b.len() == 1));
    assert!(ScanSession::new(Vec::new()).batches(4).is_empty());
}

#[test]
fn task_short_circuits_on_first_finding() {
    let scanner = SqlInjectionScanner::new();
    let mut task = scanner.start("http://x.com/p.php?id=1");
    assert!(!task.is_done());
    let first = task.next_probe().unwrap();
    assert_eq!(first, "http://x.com/p.php?id=1'");
    task.observe(scanner.checker(), "Warning: mysql_fetch_array() expects");
    assert!(task.is_done());
    assert_eq!(task.next_probe(), None);
    assert_eq!(task.result(), Some(("http://x.com/p.php?id=1".to_string(), Database::MySql.name().to_string())));
}

#[test]
fn mutate_every_parameter() {
    assert_eq!(mutate_query("a=1&b=2&c", "'"), "a=1'&b=2'&c'");
    assert_eq!(mutate_query("id=1", "%27"), "id=1%27");
    assert_eq!(mutate_query("", "x"), "x");
}

#[test]
fn batch_size_is_twice_parallelism() {
    assert_eq!(SqlInjectionScanner::batch_size(4), 8);
    assert_eq!(SqlInjectionScanner::batch_size(0), 1);
    assert_eq!(SqlInjectionScanner::batch_size(usize::MAX), usize::MAX);
}

#[test]
fn scan_target_retries_with_http() {
    assert_eq!(scan_target("http://x.com/p.php?id=1"), Some(("http://x.com/p.php?id=1".to_string(), true)));
    assert_eq!(scan_target("example.com"), Some(("http://example.com/".to_string(), false)));
    assert_eq!(scan_target("["), None);
}
