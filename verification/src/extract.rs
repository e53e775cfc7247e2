use vstd::prelude::*;
use vstd::string::StringExecFns;

use crate::errors::CrawlError;
use crate::textnorm::label_matches;
use crate::textnorm::is_next_chapter_label;
use crate::urlpath::join_of;
use crate::urlpath::join_url;

verus! {

/// What the content selector extracts from a page's markup: the text of each
/// matching element, in document order.
pub uninterp spec fn blocks_of(html: Seq<char>) -> Seq<Seq<char>>;

/// Relies on scraper's `Html::parse_document` and `Html::select` with the
/// fixed content selector `div.chapter-inner.chapter-content > p`: the result
/// holds the concatenated text of each matching element, in document order,
/// and depends on the markup alone.
#[verifier::external_body]
pub(crate) fn extract_blocks(html: &str) -> (r: Vec<String>)
    ensures
        r.deep_view() == blocks_of(html@),
{
    let selector = scraper::Selector::parse("div.chapter-inner.chapter-content > p").unwrap();
    let document = scraper::Html::parse_document(html);
    document
        .select(&selector)
        .map(|element| element.text().map(|t| t.to_string()).collect::<Vec<_>>().join(""))
        .collect()
}

/// A candidate navigation button: its concatenated text and its optional
/// target reference.
pub struct NavCandidate {
    pub text: String,
    pub href: Option<String>,
}

/// The model of a sequence of candidate buttons.
pub open spec fn cands_view(cands: Seq<NavCandidate>) -> Seq<(Seq<char>, Option<Seq<char>>)> {
    cands.map_values(|c: NavCandidate| (c.text@, c.href.deep_view()))
}

/// What the navigation selector extracts from a page's markup: each matching
/// element's text and `href` attribute, in document order.
pub uninterp spec fn candidates_of(html: Seq<char>) -> Seq<(Seq<char>, Option<Seq<char>>)>;

/// Relies on scraper's `Html::parse_document`, `Html::select` with the fixed
/// navigation selector `a.btn.btn-primary.col-xs-12`, `ElementRef::text` and
/// `ElementRef::attr`: the candidates depend on the markup alone and come in
/// document order.
#[verifier::external_body]
pub(crate) fn extract_candidates(html: &str) -> (r: Vec<NavCandidate>)
    ensures
        cands_view(r@) == candidates_of(html@),
{
    let selector = scraper::Selector::parse("a.btn.btn-primary.col-xs-12").unwrap();
    let document = scraper::Html::parse_document(html);
    document
        .select(&selector)
        .map(|element| NavCandidate {
            text: element.text().collect::<String>(),
            href: element.attr("href").map(|h| h.to_owned()),
        })
        .collect()
}

/// The UTF-8 encoding of a character sequence.
pub uninterp spec fn utf8_of(s: Seq<char>) -> Seq<u8>;

/// Relies on `String::into_bytes`: the UTF-8 encoding is a function of the
/// characters alone.
#[verifier::external_body]
pub(crate) fn utf8_bytes(s: String) -> (r: Vec<u8>)
    ensures
        r@ == utf8_of(s@),
{
    s.into_bytes()
}

/// The extracted text blocks joined by a blank line.
pub open spec fn join_blocks(blocks: Seq<Seq<char>>) -> Seq<char>
    decreases blocks.len(),
{
    if blocks.len() == 0 {
        Seq::empty()
    } else if blocks.len() == 1 {
        blocks[0]
    } else {
        blocks[0] + "\n\n"@ + join_blocks(blocks.drop_first())
    }
}

proof fn lemma_join_blocks_snoc(blocks: Seq<Seq<char>>, b: Seq<char>)
    ensures
        join_blocks(blocks.push(b)) == if blocks.len() == 0 {
            b
        } else {
            join_blocks(blocks) + "\n\n"@ + b
        },
    decreases blocks.len(),
{
    if blocks.len() == 0 {
        assert(blocks.push(b)[0] == b);
    } else if blocks.len() == 1 {
        assert(blocks.push(b).drop_first() =~= seq![b]);
        assert(join_blocks(seq![b]) == b);
        assert(blocks.push(b)[0] == blocks[0]);
        assert(join_blocks(blocks) == blocks[0]);
    } else {
        assert(blocks.push(b).drop_first() =~= blocks.drop_first().push(b));
        lemma_join_blocks_snoc(blocks.drop_first(), b);
        assert(join_blocks(blocks.push(b)) == blocks[0] + "\n\n"@ + (join_blocks(
            blocks.drop_first()) + "\n\n"@ + b));
        assert(blocks[0] + "\n\n"@ + (join_blocks(blocks.drop_first()) + "\n\n"@ + b) =~= (blocks[0]
            + "\n\n"@ + join_blocks(blocks.drop_first())) + "\n\n"@ + b);
    }
}

/// Joins the text blocks of one page with a blank line between consecutive
/// blocks.
pub fn join_text_blocks(blocks: &Vec<String>) -> (r: String)
    ensures
        r@ == join_blocks(blocks.deep_view()),
{
    let mut out = String::new();
    let mut i: usize = 0;
    while i < blocks.len()
        invariant
            0 <= i <= blocks.len(),
            out@ == join_blocks(blocks.deep_view().take(i as int)),
        decreases blocks.len() - i,
    {
        proof {
            lemma_join_blocks_snoc(blocks.deep_view().take(i as int), blocks.deep_view()[i as int]);
            assert(blocks.deep_view().take(i as int).push(blocks.deep_view()[i as int])
                =~= blocks.deep_view().take(i + 1));
        }
        if i > 0 {
            out.append("\n\n");
        }
        out.append(blocks[i].as_str());
        i += 1;
    }
    proof {
        assert(blocks.deep_view().take(blocks.len() as int) =~= blocks.deep_view());
    }
    out
}

/// The content of a page: its extracted text blocks joined by blank lines,
/// UTF-8 encoded.
pub open spec fn content_of(html: Seq<char>) -> Seq<u8> {
    utf8_of(join_blocks(blocks_of(html)))
}

/// Builds the content bytes of one page.
pub fn page_content(html: &str) -> (r: Vec<u8>)
    ensures
        r@ == content_of(html@),
{
    let blocks = extract_blocks(html);
    utf8_bytes(join_text_blocks(&blocks))
}

/// The target reference of the first candidate button whose text matches the
/// next-page label; nothing when no candidate matches. A matching button
/// without a reference also yields nothing, which ends the chain.
pub open spec fn next_ref_of(cands: Seq<(Seq<char>, Option<Seq<char>>)>) -> Option<Seq<char>>
    decreases cands.len(),
{
    if cands.len() == 0 {
        None
    } else if label_matches(cands[0].0) {
        cands[0].1
    } else {
        next_ref_of(cands.drop_first())
    }
}

/// Law: the chain continues through the first candidate whose text matches
/// the label, and through no earlier one — the next reference is exactly
/// that candidate's, whether or not later candidates match too.
pub proof fn lemma_next_ref_first_match(cands: Seq<(Seq<char>, Option<Seq<char>>)>, i: int)
    requires
        0 <= i < cands.len(),
        label_matches(cands[i].0),
        forall|j: int| 0 <= j < i ==> !label_matches(#[trigger] cands[j].0),
    ensures
        next_ref_of(cands) == cands[i].1,
    decreases i,
{
    if i > 0 {
        lemma_next_ref_first_match(cands.drop_first(), i - 1);
    }
}

/// Law: with no candidate matching the label there is no next reference,
/// and the chain ends.
pub proof fn lemma_next_ref_none(cands: Seq<(Seq<char>, Option<Seq<char>>)>)
    requires
        forall|j: int| 0 <= j < cands.len() ==> !label_matches(#[trigger] cands[j].0),
    ensures
        next_ref_of(cands) is None,
    decreases cands.len(),
{
    if cands.len() > 0 {
        lemma_next_ref_none(cands.drop_first());
    }
}

/// Selects the first candidate button matching the next-page label and
/// returns its target reference, if any.
pub fn find_next_link(cands: &Vec<NavCandidate>) -> (r: Option<String>)
    ensures
        r.deep_view() == next_ref_of(cands_view(cands@)),
{
    let mut i: usize = 0;
    proof {
        assert(cands_view(cands@).skip(0) =~= cands_view(cands@));
    }
    while i < cands.len()
        invariant
            0 <= i <= cands.len(),
            next_ref_of(cands_view(cands@)) == next_ref_of(cands_view(cands@).skip(i as int)),
        decreases cands.len() - i,
    {
        proof {
            assert(cands_view(cands@).skip(i as int).drop_first() =~= cands_view(cands@).skip(
                i + 1));
        }
        if is_next_chapter_label(cands[i].text.as_str()) {
            proof {
                assert(cands_view(cands@).skip(i as int)[0] == cands_view(cands@)[i as int]);
            }
            return match &cands[i].href {
                Some(h) => Some(h.clone()),
                None => None,
            };
        }
        i += 1;
    }
    proof {
        assert(cands_view(cands@).skip(cands.len() as int) =~= Seq::<(Seq<char>, Option<
            Seq<char>>)>::empty());
    }
    None
}

/// The next page of the chain, given the current URL and the page's markup:
/// `Some(None)` when the chain ends here, `Some(Some(url))` when a matching
/// button's reference resolves against the current URL, and `None` when it
/// does not resolve.
pub open spec fn next_url_of(url: Seq<char>, html: Seq<char>) -> Option<Option<Seq<char>>> {
    match next_ref_of(candidates_of(html)) {
        None => Some(None),
        Some(reference) => match join_of(url, reference) {
            Some(next) => Some(Some(next)),
            None => None,
        },
    }
}

/// Finds the next page's absolute URL, if the page links to one. The chain
/// ends when no candidate button matches the label or the matching button has
/// no reference; an unresolvable reference is an extraction failure.
pub fn next_page_url(url: &str, html: &str) -> (r: Result<Option<String>, CrawlError>)
    ensures
        match r {
            Ok(next) => next_url_of(url@, html@) == Some(next.deep_view()),
            Err(e) => e == CrawlError::Extraction && next_url_of(url@, html@) is None,
        },
{
    let cands = extract_candidates(html);
    match find_next_link(&cands) {
        None => Ok(None),
        Some(reference) => match join_url(url, reference.as_str()) {
            Some(next) => Ok(Some(next)),
            None => Err(CrawlError::Extraction),
        },
    }
}

} // verus!
