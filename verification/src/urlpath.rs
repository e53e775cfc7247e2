use vstd::prelude::*;
use vstd::string::StringExecFns;

use crate::errors::CrawlError;

verus! {

/// The final path segment of a URL, or nothing when the text does not parse
/// as an absolute URL or the URL has no path segments.
pub uninterp spec fn last_segment_of(url: Seq<char>) -> Option<Seq<char>>;

/// Relies on `url::Url::parse` and `Url::path_segments` (through reqwest's
/// re-export): the final path segment is a function of the URL text alone.
#[verifier::external_body]
pub(crate) fn last_path_segment(url: &str) -> (r: Option<String>)
    ensures
        r.deep_view() == last_segment_of(url@),
{
    match reqwest::Url::parse(url) {
        Ok(parsed) => parsed
            .path_segments()
            .and_then(|segments| segments.last())
            .map(|segment| segment.to_owned()),
        Err(_) => None,
    }
}

/// The absolute URL a reference resolves to against a base URL, or nothing
/// when the base does not parse or the reference cannot be resolved.
pub uninterp spec fn join_of(base: Seq<char>, reference: Seq<char>) -> Option<Seq<char>>;

/// Relies on `url::Url::parse`, `Url::join` and `Url::as_str` (through
/// reqwest's re-export): resolution is a function of the two texts alone.
#[verifier::external_body]
pub(crate) fn join_url(base: &str, reference: &str) -> (r: Option<String>)
    ensures
        r.deep_view() == join_of(base@, reference@),
{
    match reqwest::Url::parse(base) {
        Ok(parsed) => match parsed.join(reference) {
            Ok(joined) => Some(joined.as_str().to_owned()),
            Err(_) => None,
        },
        Err(_) => None,
    }
}

/// The file name a chapter takes inside the archive: the URL's final path
/// segment with the fixed suffix.
pub open spec fn chapter_name_of(url: Seq<char>) -> Option<Seq<char>> {
    match last_segment_of(url) {
        Some(segment) => Some(segment + ".txt"@),
        None => None,
    }
}

/// Derives the chapter's archive file name from its page URL; a URL without a
/// final path segment aborts the walk.
pub fn chapter_file_name(url: &str) -> (r: Result<String, CrawlError>)
    ensures
        match r {
            Ok(name) => chapter_name_of(url@) == Some(name@),
            Err(e) => e == CrawlError::MissingChapterName && chapter_name_of(url@) is None,
        },
{
    match last_path_segment(url) {
        Some(segment) => Ok(segment.concat(".txt")),
        None => Err(CrawlError::MissingChapterName),
    }
}

} // verus!
