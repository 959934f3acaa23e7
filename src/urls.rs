//! URL parsing and resolution through the url crate, seen as plain strings.
use vstd::prelude::*;
use crate::text::{opt_view, prefix_before, before_first};

verus! {

/// Whether the url crate parses `s` as an absolute URL.
pub uninterp spec fn url_parses(s: Seq<char>) -> bool;

/// The serialization of the URL parsed from `s`.
pub uninterp spec fn url_text(s: Seq<char>) -> Seq<char>;

/// The scheme of the URL parsed from `s`.
pub uninterp spec fn url_scheme(s: Seq<char>) -> Seq<char>;

/// The host of the URL parsed from `s`, when it has one.
pub uninterp spec fn url_host(s: Seq<char>) -> Option<Seq<char>>;

/// The path of the URL parsed from `s`.
pub uninterp spec fn url_path(s: Seq<char>) -> Seq<char>;

/// The query string of the URL parsed from `s`, without its `?`.
pub uninterp spec fn url_query(s: Seq<char>) -> Option<Seq<char>>;

/// The serialization of `href` resolved against the URL parsed from
/// `base`; `None` when either fails to parse.
pub uninterp spec fn url_join(base: Seq<char>, href: Seq<char>) -> Option<Seq<char>>;

/// The parts of a parsed URL that the crawler and the scanner read.
pub struct ParsedUrl {
    /// The normalized serialization.
    pub text: String,
    pub scheme: String,
    pub host: Option<String>,
    pub path: String,
    pub query: Option<String>,
}

/// Relies on url::Url::parse and the accessors as_str, scheme, host_str,
/// path and query of the parsed value.
#[verifier::external_body]
pub fn parse_url(s: &str) -> (r: Option<ParsedUrl>)
    ensures
        r is Some <==> url_parses(s@),
        r matches Some(u) ==> u.text@ == url_text(s@) && u.scheme@ == url_scheme(s@)
            && opt_view(u.host) == url_host(s@) && u.path@ == url_path(s@)
            && opt_view(u.query) == url_query(s@),
{
    match url::Url::parse(s) {
        Ok(u) => Some(ParsedUrl {
            text: u.as_str().to_string(),
            scheme: u.scheme().to_string(),
            host: u.host_str().map(|h| h.to_string()),
            path: u.path().to_string(),
            query: u.query().map(|q| q.to_string()),
        }),
        Err(_) => None,
    }
}

/// Relies on url::Url::parse and url::Url::join: resolves `href` against
/// `base` by the standard URI-resolution rules.
#[verifier::external_body]
pub fn join_url(base: &str, href: &str) -> (r: Option<String>)
    ensures
        opt_view(r) == url_join(base@, href@),
{
    match url::Url::parse(base) {
        Ok(b) => match b.join(href) {
            Ok(u) => Some(u.to_string()),
            Err(_) => None,
        },
        Err(_) => None,
    }
}

/// `scheme://host` of a parsed URL (an empty host when it has none).
pub open spec fn origin_of(scheme: Seq<char>, host: Option<Seq<char>>) -> Seq<char> {
    scheme + "://"@ + match host {
        Some(h) => h,
        None => Seq::empty(),
    }
}

/// The domain named by `s`: the host of the URL it parses to; otherwise the
/// text before its first `/`; otherwise `s` itself.
pub open spec fn domain_of(s: Seq<char>) -> Seq<char> {
    if url_parses(s) && url_host(s) is Some {
        url_host(s)->0
    } else {
        before_first(s, '/')
    }
}

/// The domain named by `url`: its host when it parses as a URL with one;
/// otherwise the text before its first `/`; otherwise all of it.
pub fn extract_domain(url: &str) -> (r: String)
    ensures
        r@ == domain_of(url@),
{
    if let Some(parsed) = parse_url(url) {
        if let Some(host) = parsed.host {
            return host;
        }
    }
    prefix_before(url, '/')
}

} // verus!
