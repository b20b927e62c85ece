//! Acceptance rules for fetched sitemaps and pages.
use vstd::prelude::*;

verus! {

/// The largest page body, in bytes, that is archived (10 MB).
pub const PAGE_SIZE_LIMIT: u64 = 10 * 1024 * 1024;

/// Why a fetched response is not kept.
#[derive(Debug, PartialEq, Eq)]
pub enum Rejection {
    /// The status code is not in the success range.
    Status(u16),
    /// The announced body length is over `PAGE_SIZE_LIMIT`.
    TooLarge(u64),
    /// The content type does not announce HTML.
    NotHtml,
    /// Neither the content type nor the URL indicates XML.
    NotXml,
}

impl Rejection {
    /// A human-readable description of the rejection.
    pub fn message(&self) -> (r: String) {
        match self {
            Rejection::Status(_) => "server returned an error status".to_owned(),
            Rejection::TooLarge(_) => "page is larger than the size limit of 10 MB".to_owned(),
            Rejection::NotHtml => "document type is not text/html".to_owned(),
            Rejection::NotXml => "document type is not XML".to_owned(),
        }
    }
}

/// `pattern` occurs in `s`.
pub open spec fn has_substring(s: Seq<char>, pattern: Seq<char>) -> bool {
    exists|i: int| 0 <= i && i + pattern.len() <= s.len() && #[trigger] s.subrange(i, i + pattern.len()) == pattern
}

/// `s` ends with `suffix`.
pub open spec fn has_suffix(s: Seq<char>, suffix: Seq<char>) -> bool {
    suffix.len() <= s.len() && s.subrange(s.len() - suffix.len(), s.len() as int) == suffix
}

/// Relies on str::contains with a string pattern: true exactly when the
/// pattern occurs in the string.
#[verifier::external_body]
fn str_contains(s: &str, pattern: &str) -> (r: bool)
    ensures
        r == has_substring(s@, pattern@),
{
    s.contains(pattern)
}

/// Relies on str::ends_with with a string pattern: true exactly when the
/// string ends with the pattern.
#[verifier::external_body]
fn str_ends_with(s: &str, suffix: &str) -> (r: bool)
    ensures
        r == has_suffix(s@, suffix@),
{
    s.ends_with(suffix)
}

/// Decides whether a page response is archived: the status must be a
/// success (200 to 299), a body length the server announces must be at most
/// `PAGE_SIZE_LIMIT`, and the content type must contain `text/html`. The
/// checks apply in that order.
pub fn check_page_response(status: u16, content_type: &str, content_length: Option<u64>) -> (r:
    Result<(), Rejection>)
    ensures
        !(200 <= status <= 299) ==> r == Err::<(), Rejection>(Rejection::Status(status)),
        200 <= status <= 299 && content_length is Some && content_length.unwrap() > PAGE_SIZE_LIMIT
            ==> r == Err::<(), Rejection>(Rejection::TooLarge(content_length.unwrap())),
        200 <= status <= 299 && (content_length is None || content_length.unwrap()
            <= PAGE_SIZE_LIMIT) ==> r == if has_substring(content_type@, "text/html"@) {
            Ok::<(), Rejection>(())
        } else {
            Err(Rejection::NotHtml)
        },
{
    if status < 200 || status > 299 {
        return Err(Rejection::Status(status));
    }
    if let Some(len) = content_length {
        if len > PAGE_SIZE_LIMIT {
            return Err(Rejection::TooLarge(len));
        }
    }
    if !str_contains(content_type, "text/html") {
        return Err(Rejection::NotHtml);
    }
    Ok(())
}

/// Decides whether a sitemap response is read: its content type must
/// contain `xml`, or its URL must end in `.xml`.
pub fn check_sitemap_response(content_type: &str, url: &str) -> (r: Result<(), Rejection>)
    ensures
        r == if has_substring(content_type@, "xml"@) || has_suffix(url@, ".xml"@) {
            Ok::<(), Rejection>(())
        } else {
            Err(Rejection::NotXml)
        },
{
    if str_contains(content_type, "xml") || str_ends_with(url, ".xml") {
        Ok(())
    } else {
        Err(Rejection::NotXml)
    }
}

} // verus!
