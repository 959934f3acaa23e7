//! Decisions around a page fetch: which URL to request, and what a response
//! amounts to.
use vstd::prelude::*;
use crate::text::starts_with;
use crate::urls::{parse_url, url_parses};

verus! {

/// Why a fetch yielded no usable body.
#[derive(Debug)]
pub enum WebError {
    /// The request failed; the message describes the failure.
    HttpError(String),
    /// The URL to request does not parse; it is carried along.
    UrlError(String),
    /// The request timed out.
    TimeoutError,
    /// The server answered with a server error (5xx) and an empty body.
    Http500Error(String),
}

/// `url` with `http://` put in front unless it already starts with
/// `http://` or `https://`.
pub open spec fn with_scheme(url: Seq<char>) -> Seq<char> {
    if url.len() >= 7 && url.subrange(0, 7) == "http://"@ {
        url
    } else if url.len() >= 8 && url.subrange(0, 8) == "https://"@ {
        url
    } else {
        "http://"@ + url
    }
}

/// The URL to request for `url`: it gets the `http://` scheme when it has
/// neither `http://` nor `https://`, and must then parse.
pub fn request_url(url: &str) -> (r: Result<String, WebError>)
    ensures
        match r {
            Ok(u) => u@ == with_scheme(url@) && url_parses(u@),
            Err(WebError::UrlError(u)) => u@ == with_scheme(url@) && !url_parses(u@),
            Err(_) => false,
        },
{
    proof {
        reveal_strlit("http://");
        reveal_strlit("https://");
    }
    let full = if starts_with(url, "http://") || starts_with(url, "https://") {
        String::from_str(url)
    } else {
        String::from_str("http://").concat(url)
    };
    match parse_url(full.as_str()) {
        Some(_) => Ok(full),
        None => Err(WebError::UrlError(full)),
    }
}

/// Whether `status` is a server error (5xx).
pub open spec fn is_server_error(status: u16) -> bool {
    500 <= status <= 599
}

/// What a response with `status` and `body` amounts to: the body, unless
/// the status is a server error (5xx) and the body is empty.
pub fn response_outcome(status: u16, body: String, final_url: Option<String>) -> (r: Result<
    (String, Option<String>),
    WebError,
>)
    ensures
        is_server_error(status) && body@.len() == 0 ==> (r matches Err(WebError::Http500Error(m))
            && m@ == "HTTP 5xx with empty response"@),
        !(is_server_error(status) && body@.len() == 0) ==> (r matches Ok(p) && p.0@ == body@
            && p.1 == final_url),
{
    if 500 <= status && status <= 599 && body.as_str().unicode_len() == 0 {
        Err(WebError::Http500Error(String::from_str("HTTP 5xx with empty response")))
    } else {
        Ok((body, final_url))
    }
}

/// Whether a page fetched with `status` is read for links: a 2xx status.
pub fn is_success(status: u16) -> (r: bool)
    ensures
        r == (200 <= status <= 299),
{
    200 <= status && status <= 299
}

} // verus!
