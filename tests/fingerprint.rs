use sqlscan::fingerprint::{Database, SqlErrorChecker};
use sqlscan::pattern::Pattern;

#[test]
fn test_sql_error_checker_mysql() {
    let checker = SqlErrorChecker::new();
    let html_with_mysql_error = r#"
            <html><body>
            You have an error in your SQL syntax; check the manual that corresponds to your MySQL server version
            </body></html>
        "#;

    let (is_vulnerable, db_type) = checker.check(html_with_mysql_error);
    assert!(is_vulnerable);
    assert_eq!(db_type, Some("MySQL".to_string()));
}

#[test]
fn test_sql_error_checker_no_error() {
    let checker = SqlErrorChecker::new();
    let html_normal = r#"
            <html><body>
            <p>Welcome to our website!</p>
            </body></html>
        "#;

    let (is_vulnerable, db_type) = checker.check(html_normal);
    assert!(!is_vulnerable);
    assert_eq!(db_type, None);
}

#[test]
fn classify_each_engine_by_its_own_signature() {
    let checker = SqlErrorChecker::new();
    let cases = vec![
        ("Warning: pg_query(): Query failed", Database::PostgreSql),
        ("Unclosed quotation mark after the character string 'x'.", Database::SqlServer),
        ("Microsoft JET Database Engine error '80040e14'", Database::Access),
        ("ORA-01756: quoted string not properly terminated", Database::Oracle),
        ("DB2 SQL error: SQLCODE=-104", Database::Db2),
        ("System.Data.SQLite.SQLiteException: near", Database::Sqlite),
        ("com.informix.jdbc.IfxSqliException", Database::Informix),
        ("Sybase message: Incorrect syntax", Database::Sybase),
        ("MySQL Query fail: bad input", Database::MySql),
    ];
    for (text, db) in cases {
        assert_eq!(checker.classify(text), Some(db), "{}", text);
    }
}

#[test]
fn classify_is_case_sensitive_and_deterministic() {
    let checker = SqlErrorChecker::new();
    assert_eq!(checker.classify("sql syntax near mysql"), None);
    let text = "You have an error in your SQL syntax near MySQL";
    assert_eq!(checker.classify(text), checker.classify(text));
    assert_eq!(checker.classify(""), None);
}

#[test]
fn classify_tie_yields_a_matching_engine() {
    let checker = SqlErrorChecker::new();
    let text = "SQL syntax error in MySQL; Sybase message follows";
    let found = checker.classify(text);
    assert!(found == Some(Database::MySql) || found == Some(Database::Sybase));
}

#[test]
fn engine_names() {
    assert_eq!(Database::SqlServer.name(), "Microsoft SQL Server");
    assert_eq!(Database::Db2.name(), "IBM DB2");
    assert_eq!(Database::Access.name(), "Microsoft Access");
    assert_eq!(Database::MySql.patterns().len(), 4);
    assert_eq!(Database::SqlServer.patterns().len(), 7);
}

#[test]
fn pattern_compiles_and_matches() {
    let p = Pattern::compile("a[0-9]+b").unwrap();
    assert_eq!(p.as_str(), "a[0-9]+b");
    assert!(p.is_match("xxa123bxx"));
    assert!(!p.is_match("ab"));
    assert!(Pattern::compile("(unclosed").is_none());
    let links = Pattern::compile("<h2><a href=\"(.*?)\"").unwrap();
    assert_eq!(
        links.first_groups("<h2><a href=\"http://a.com\">A</a></h2><h2><a href=\"http://b.com\">"),
        vec!["http://a.com".to_string(), "http://b.com".to_string()]
    );
}

#[test]
fn checker_try_new_keeps_every_pattern() {
    let checker = SqlErrorChecker::try_new().unwrap();
    assert_eq!(checker.classify("Msg 102, Level 15, State 1"), Some(Database::SqlServer));
    assert_eq!(checker.classify("nothing here"), None);
}
