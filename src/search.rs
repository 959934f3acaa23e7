//! The search engines that turn a dork into candidate websites, and the
//! errors they report.
use vstd::prelude::*;
use crate::searchlibs::{BingSearch, GoogleSearch, YahooSearch, mentions};
use crate::text::contains_text;

verus! {

/// Why a search-engine query failed.
#[derive(Debug)]
pub enum SearchError {
    /// The engine answered 503.
    ServiceUnavailable,
    /// The engine answered 504.
    GatewayTimeout,
    /// Any other failure, with its message.
    EngineError(String),
    Unknown,
}

impl SearchError {
    /// The error for a failure described by `message`: a mention of 503
    /// means the service is unavailable, else one of 504 a gateway timeout;
    /// anything else is an engine error carrying the message.
    pub fn from_message(message: String) -> (r: SearchError)
        ensures
            mentions(message@, "503"@) ==> r is ServiceUnavailable,
            !mentions(message@, "503"@) && mentions(message@, "504"@) ==> r is GatewayTimeout,
            !mentions(message@, "503"@) && !mentions(message@, "504"@) ==> (r matches SearchError::EngineError(m)
                && m@ == message@),
    {
        if contains_text(message.as_str(), "503") {
            SearchError::ServiceUnavailable
        } else if contains_text(message.as_str(), "504") {
            SearchError::GatewayTimeout
        } else {
            SearchError::EngineError(message)
        }
    }
}

/// How many results to ask for when `pages` pages are wanted: ten a page;
/// `None` when that overflows.
pub fn result_limit(pages: usize) -> (r: Option<usize>)
    ensures
        pages * 10 <= usize::MAX ==> r == Some((pages * 10) as usize),
        pages * 10 > usize::MAX ==> r is None,
{
    if pages > usize::MAX / 10 {
        None
    } else {
        Some(pages * 10)
    }
}

/// The entry point of dork searches.
pub struct Search;

impl Search {
    pub fn new() -> Self {
        Search
    }
}

/// Google, in English on google.com.
pub struct GoogleSearchEngine {
    pub engine: GoogleSearch,
}

impl GoogleSearchEngine {
    pub fn new() -> (r: Self)
        ensures
            r.engine.tld@ == "com"@,
            r.engine.lang@ == "en"@,
            r.engine.safe@ == "off"@,
            r.engine.user_agent@ == "Mozilla/4.0 (compatible; MSIE 8.0; Windows NT 6.0)"@,
    {
        GoogleSearchEngine { engine: GoogleSearch::new().with_lang("en").with_tld("com") }
    }
}

/// Bing with its default settings.
pub struct BingSearchEngine {
    pub engine: BingSearch,
}

impl BingSearchEngine {
    pub fn new() -> (r: Self)
        ensures
            r.engine.wf(),
            r.engine.base_url@ == "http://www.bing.com/search"@,
            r.engine.user_agent@ == "python-bing/0.0.1"@,
    {
        BingSearchEngine { engine: BingSearch::new() }
    }
}

/// Yahoo with its default settings.
pub struct YahooSearchEngine {
    pub engine: YahooSearch,
}

impl YahooSearchEngine {
    pub fn new() -> (r: Self)
        ensures
            r.engine.base_url@ == "https://search.yahoo.com/search"@,
            r.engine.content_type@ == "application/x-www-form-urlencoded; charset=UTF-8"@,
            r.engine.user_agent@ == "yahoo search"@,
    {
        YahooSearchEngine { engine: YahooSearch::new() }
    }
}

} // verus!
