//! Compiled regular expressions, paired with the source text they were
//! compiled from.
use vstd::prelude::*;
use crate::text::views;

verus! {

/// Whether the regex crate accepts `source` as a pattern.
pub uninterp spec fn regex_accepts(source: Seq<char>) -> bool;

/// Whether the pattern `source` matches somewhere in `text`.
pub uninterp spec fn regex_matches(source: Seq<char>, text: Seq<char>) -> bool;

/// The text of capture group 1 of each successive non-overlapping match of
/// the pattern `source` in `text`, for the matches in which that group took
/// part.
pub uninterp spec fn regex_first_groups(source: Seq<char>, text: Seq<char>) -> Seq<Seq<char>>;

#[verifier::external_type_specification]
#[verifier::external_body]
pub struct ExRegex(regex::Regex);

#[verifier::external_type_specification]
#[verifier::external_body]
pub struct ExRegexError(regex::Error);

/// A regular expression together with the text it was compiled from.
/// Values are only ever built by `Pattern::compile`, so `regex` is always
/// the compilation of `source`.
pub struct Pattern {
    source: String,
    regex: regex::Regex,
}

impl View for Pattern {
    type V = Seq<char>;

    closed spec fn view(&self) -> Seq<char> {
        self.source@
    }
}

/// Relies on regex::Regex::new: compiles the pattern, failing exactly when
/// the crate rejects it.
#[verifier::external_body]
fn compile_regex(source: &str) -> (r: Result<regex::Regex, regex::Error>)
    ensures
        r is Ok <==> regex_accepts(source@),
{
    regex::Regex::new(source)
}

/// Relies on regex::Regex::is_match: whether the compiled pattern matches
/// anywhere in the haystack.
#[verifier::external_body]
fn regex_is_match(p: &Pattern, text: &str) -> (r: bool)
    ensures
        r == regex_matches(p@, text@),
{
    p.regex.is_match(text)
}

/// Relies on regex::Regex::captures_iter: group 1 of every match, in order.
#[verifier::external_body]
fn regex_groups(p: &Pattern, text: &str) -> (r: Vec<String>)
    ensures
        views(r@) == regex_first_groups(p@, text@),
{
    p.regex.captures_iter(text).filter_map(|c| c.get(1)).map(|m| m.as_str().to_string()).collect()
}

impl Pattern {
    /// Compiles `source`; `None` when the regex crate rejects it.
    pub fn compile(source: &str) -> (r: Option<Pattern>)
        ensures
            r is Some <==> regex_accepts(source@),
            r matches Some(p) ==> p@ == source@,
    {
        match compile_regex(source) {
            Ok(regex) => Some(Pattern { source: String::from_str(source), regex }),
            Err(_) => None,
        }
    }

    /// Whether the pattern matches anywhere in `text`.
    pub fn is_match(&self, text: &str) -> (r: bool)
        ensures
            r == regex_matches(self@, text@),
    {
        regex_is_match(self, text)
    }

    /// Capture group 1 of every match in `text`, in order.
    pub fn first_groups(&self, text: &str) -> (r: Vec<String>)
        ensures
            views(r@) == regex_first_groups(self@, text@),
    {
        regex_groups(self, text)
    }

    /// The text the pattern was compiled from.
    pub fn as_str(&self) -> (r: &str)
        ensures
            r@ == self@,
    {
        self.source.as_str()
    }
}

} // verus!
