//! Validation of the subscription URL.
//!
//! The whole string is lower-cased first (a documented quirk: this also
//! lower-cases the path and query), then parsed, then held to a conservative
//! shape pattern.

use vstd::prelude::*;
use crate::errors::Error;
use crate::strutil::str_eq;

verus! {

/// What `str::to_lowercase` returns: determined by the characters alone.
pub uninterp spec fn lower_of(s: Seq<char>) -> Seq<char>;

/// Relies on `str::to_lowercase`: the lower-cased form of the string,
/// a function of the characters alone.
#[verifier::external_body]
fn lowercase(s: &str) -> (r: String)
    ensures
        r@ == lower_of(s@),
{
    s.to_lowercase()
}

/// What `url::Url::parse` makes of a string: `Some((scheme, has_host))` when
/// the string parses as an absolute URL, `None` otherwise. Parsing is a
/// function of the string alone.
pub uninterp spec fn url_parts_of(s: Seq<char>) -> Option<(Seq<char>, bool)>;

/// The parts of a parsed URL that validation reads.
pub struct UrlParts {
    /// The scheme, as the parser reports it (already lower-case).
    pub scheme: String,
    /// Whether the URL has a host component.
    pub has_host: bool,
}

/// Relies on `url::Url::parse`, `Url::scheme` and `Url::host_str`: on success
/// the scheme and the presence of a host are handed back as plain values.
#[verifier::external_body]
fn parse_url(s: &str) -> (r: Option<UrlParts>)
    ensures
        r is None <==> url_parts_of(s@) is None,
        r matches Some(p) ==> url_parts_of(s@) == Some((p.scheme@, p.has_host)),
{
    match url::Url::parse(s) {
        Ok(u) => Some(UrlParts { scheme: u.scheme().to_owned(), has_host: u.host_str().is_some() }),
        Err(_) => None,
    }
}

/// What regex matching returns: whether `text` matches `pattern`, a function
/// of the two strings alone; a pattern the regex crate rejects matches
/// nothing.
pub uninterp spec fn regex_accepts(pattern: Seq<char>, text: Seq<char>) -> bool;

/// Relies on `regex::Regex::new` and `regex::Regex::is_match`: whether the
/// text matches the pattern.
#[verifier::external_body]
fn regex_is_match(pattern: &str, text: &str) -> (r: bool)
    ensures
        r == regex_accepts(pattern@, text@),
{
    match regex::Regex::new(pattern) {
        Ok(re) => re.is_match(text),
        Err(_) => false,
    }
}

/// The conservative shape every accepted subscription URL must have: a host
/// part, a 2-6 letter top-level label, and an optional tail from a safe
/// character set.
pub open spec fn url_pattern() -> Seq<char> {
    "^https?://[-a-zA-Z0-9@:%._\\+~#=]{2,256}\\.[a-z]{2,6}\\b([-a-zA-Z0-9@:%_\\+.~#?&//=]*)$"@
}

/// Validates the subscription URL: lower-cases it, parses it, accepts only
/// http(s) schemes with a host, and holds it to the shape pattern. On success
/// the lower-cased URL is returned.
pub fn check_url(sub_url: &str) -> (r: Result<String, Error>)
    ensures
        (url_parts_of(lower_of(sub_url@)) is None) <==> r == Err::<String, Error>(Error::InvalidUrl),
        (url_parts_of(lower_of(sub_url@)) matches Some(p) && p.0 != "http"@ && p.0 != "https"@)
            <==> r == Err::<String, Error>(Error::UnsupportedScheme),
        (url_parts_of(lower_of(sub_url@)) matches Some(p) && (p.0 == "http"@ || p.0 == "https"@)
            && !p.1) <==> r == Err::<String, Error>(Error::MissingHost),
        (url_parts_of(lower_of(sub_url@)) matches Some(p) && (p.0 == "http"@ || p.0 == "https"@)
            && p.1 && !regex_accepts(url_pattern(), lower_of(sub_url@)))
            <==> r == Err::<String, Error>(Error::MalformedUrl),
        r matches Ok(s) ==> s@ == lower_of(sub_url@),
        (url_parts_of(lower_of(sub_url@)) matches Some(p) && (p.0 == "http"@ || p.0 == "https"@)
            && p.1 && regex_accepts(url_pattern(), lower_of(sub_url@))) <==> r is Ok,
{
    let low = lowercase(sub_url);
    match parse_url(low.as_str()) {
        None => Err(Error::InvalidUrl),
        Some(p) => {
            if !(str_eq(p.scheme.as_str(), "http") || str_eq(p.scheme.as_str(), "https")) {
                Err(Error::UnsupportedScheme)
            } else if !p.has_host {
                Err(Error::MissingHost)
            } else if !regex_is_match(
                "^https?://[-a-zA-Z0-9@:%._\\+~#=]{2,256}\\.[a-z]{2,6}\\b([-a-zA-Z0-9@:%_\\+.~#?&//=]*)$",
                low.as_str(),
            ) {
                Err(Error::MalformedUrl)
            } else {
                Ok(low)
            }
        }
    }
}

} // verus!
