use vstd::prelude::*;

use crate::chapter::Chapter;
use crate::chapter::ChapterView;
use crate::errors::CrawlError;
use crate::extract::content_of;
use crate::extract::next_url_of;
use crate::extract::page_content;
use crate::extract::next_page_url;
use crate::relay::Relay;
use crate::relay::spec_send_all;
use crate::relay::lemma_send_all_snoc;
use crate::urlpath::chapter_name_of;
use crate::urlpath::chapter_file_name;
use crate::urlpath::last_segment_of;

verus! {

/// The model of a simulated page source: pairs of a page URL and its markup.
pub open spec fn pages_view(pages: Seq<(String, String)>) -> Seq<(Seq<char>, Seq<char>)> {
    pages.map_values(|p: (String, String)| (p.0@, p.1@))
}

/// The markup of the first page with the given URL, or nothing when the
/// source has no such page (a failing fetch).
pub open spec fn lookup_page(pages: Seq<(Seq<char>, Seq<char>)>, url: Seq<char>) -> Option<
    Seq<char>,
>
    decreases pages.len(),
{
    if pages.len() == 0 {
        None
    } else if pages[0].0 == url {
        Some(pages[0].1)
    } else {
        lookup_page(pages.drop_first(), url)
    }
}

/// Whether the source holds a complete chain of exactly `n` pages starting at
/// `url`: every page can be named and fetched, each of the first `n - 1`
/// links to the following one, and page `n` links to none.
pub open spec fn is_chain(
    pages: Seq<(Seq<char>, Seq<char>)>,
    url: Seq<char>,
    n: nat,
) -> bool
    decreases n,
{
    &&& n > 0
    &&& last_segment_of(url) is Some
    &&& lookup_page(pages, url) is Some
    &&& {
        let html = lookup_page(pages, url)->Some_0;
        match next_url_of(url, html) {
            Some(None) => n == 1,
            Some(Some(next)) => n > 1 && is_chain(pages, next, (n - 1) as nat),
            None => false,
        }
    }
}

/// The URL the chain continues with after the given page.
pub open spec fn chain_step(pages: Seq<(Seq<char>, Seq<char>)>, url: Seq<char>) -> Seq<char> {
    (next_url_of(url, lookup_page(pages, url)->Some_0)->Some_0)->Some_0
}

/// The URL of the page `k` steps into the chain.
pub open spec fn chain_url_at(
    pages: Seq<(Seq<char>, Seq<char>)>,
    url: Seq<char>,
    k: nat,
) -> Seq<char>
    decreases k,
{
    if k == 0 {
        url
    } else {
        chain_url_at(pages, chain_step(pages, url), (k - 1) as nat)
    }
}

/// The chapter the walker builds from the page at `url`.
pub open spec fn chapter_view_at(
    pages: Seq<(Seq<char>, Seq<char>)>,
    url: Seq<char>,
) -> ChapterView {
    ChapterView {
        name: chapter_name_of(url)->Some_0,
        content: content_of(lookup_page(pages, url)->Some_0),
    }
}

/// The chapters of the first `m` pages along the chain, in chain order.
pub open spec fn chain_sent(
    pages: Seq<(Seq<char>, Seq<char>)>,
    url: Seq<char>,
    m: nat,
) -> Seq<ChapterView>
    decreases m,
{
    if m == 0 {
        Seq::empty()
    } else {
        seq![chapter_view_at(pages, url)] + chain_sent(
            pages,
            chain_step(pages, url),
            (m - 1) as nat,
        )
    }
}

/// The failure one walk step meets at the given page, checked in walk order:
/// first a URL without a final path segment, then a page the source cannot
/// serve, then a next-page reference that does not resolve. Nothing means
/// the page is walked through and its chapter handed off.
pub open spec fn step_error(pages: Seq<(Seq<char>, Seq<char>)>, url: Seq<char>) -> Option<
    CrawlError,
> {
    if last_segment_of(url) is None {
        Some(CrawlError::MissingChapterName)
    } else if lookup_page(pages, url) is None {
        Some(CrawlError::Fetch)
    } else if next_url_of(url, lookup_page(pages, url)->Some_0) is None {
        Some(CrawlError::Extraction)
    } else {
        None
    }
}

/// Whether the walk, at the given page, hands the page's chapter off and
/// moves on to a following page.
pub open spec fn step_continues(pages: Seq<(Seq<char>, Seq<char>)>, url: Seq<char>) -> bool {
    step_error(pages, url) is None && next_url_of(url, lookup_page(pages, url)->Some_0) matches
        Some(Some(_))
}

proof fn lemma_chain_url_at_snoc(pages: Seq<(Seq<char>, Seq<char>)>, url: Seq<char>, m: nat)
    ensures
        chain_url_at(pages, url, m + 1) == chain_step(pages, chain_url_at(pages, url, m)),
    decreases m,
{
    if m == 0 {
        assert(chain_url_at(pages, url, 0) == url);
        assert(chain_url_at(pages, chain_step(pages, url), 0) == chain_step(pages, url));
    } else {
        lemma_chain_url_at_snoc(pages, chain_step(pages, url), (m - 1) as nat);
    }
}

proof fn lemma_chain_sent_snoc(pages: Seq<(Seq<char>, Seq<char>)>, url: Seq<char>, m: nat)
    ensures
        chain_sent(pages, url, m + 1) == chain_sent(pages, url, m).push(
            chapter_view_at(pages, chain_url_at(pages, url, m)),
        ),
    decreases m,
{
    if m == 0 {
        assert(chain_sent(pages, chain_step(pages, url), 0) == Seq::<ChapterView>::empty());
        assert(chain_sent(pages, url, 0) == Seq::<ChapterView>::empty());
        assert(chain_url_at(pages, url, 0) == url);
        assert(chain_sent(pages, url, 1) =~= Seq::<ChapterView>::empty().push(
            chapter_view_at(pages, url)));
    } else {
        let stepped = chain_step(pages, url);
        lemma_chain_sent_snoc(pages, stepped, (m - 1) as nat);
        lemma_chain_url_at_snoc(pages, url, (m - 1) as nat);
        assert(seq![chapter_view_at(pages, url)] + chain_sent(pages, stepped, (m - 1) as nat).push(
            chapter_view_at(pages, chain_url_at(pages, url, m))) =~= (seq![
            chapter_view_at(pages, url),
        ] + chain_sent(pages, stepped, (m - 1) as nat)).push(
            chapter_view_at(pages, chain_url_at(pages, url, m))));
    }
}

/// Looks the URL up in the simulated page source; nothing means the fetch
/// fails.
fn fetch_page(pages: &Vec<(String, String)>, url: &String) -> (r: Option<String>)
    ensures
        match r {
            Some(html) => lookup_page(pages_view(pages@), url@) == Some(html@),
            None => lookup_page(pages_view(pages@), url@) is None,
        },
{
    let mut i: usize = 0;
    proof {
        assert(pages_view(pages@).skip(0) =~= pages_view(pages@));
    }
    while i < pages.len()
        invariant
            0 <= i <= pages.len(),
            lookup_page(pages_view(pages@), url@) == lookup_page(
                pages_view(pages@).skip(i as int),
                url@,
            ),
        decreases pages.len() - i,
    {
        proof {
            assert(pages_view(pages@).skip(i as int).drop_first() =~= pages_view(pages@).skip(
                i + 1));
            assert(pages_view(pages@).skip(i as int)[0] == pages_view(pages@)[i as int]);
        }
        if pages[i].0.eq(url) {
            return Some(pages[i].1.clone());
        }
        i += 1;
    }
    None
}

/// Walks the chain from `start_url` over a simulated page source, handing
/// every walked page's chapter to the relay — the final page's chapter too,
/// as soon as it is ready. Returns the number of pages fetched. The walk
/// succeeds exactly when the source holds a complete chain from `start_url`
/// (a chain never has more pages than the source holds, since every page of
/// it is fetched from the source), and then exactly one chapter per page was
/// handed off, in chain order. Any failure aborts the walk at once: the
/// pages before the failing one have handed their chapters off, the failing
/// page contributes none, and the error names the cause. A relay without a
/// consumer makes the first attempted handoff fatal.
pub fn walk_chain(pages: &Vec<(String, String)>, start_url: &String, relay: &mut Relay) -> (r:
    Result<usize, CrawlError>)
    requires
        old(relay).wf(),
    ensures
        final(relay).wf(),
        old(relay)@.receiver_open ==> ((exists|n: nat|
            n <= pages@.len() && is_chain(pages_view(pages@), start_url@, n)) <==> r is Ok),
        old(relay)@.receiver_open ==> forall|n: nat|
            n <= pages@.len() && #[trigger] is_chain(pages_view(pages@), start_url@, n) ==> r
                == Ok::<usize, CrawlError>(n as usize) && final(relay)@ == spec_send_all(
                old(relay)@,
                chain_sent(pages_view(pages@), start_url@, n),
            ),
        old(relay)@.receiver_open ==> (r matches Err(e) ==> exists|k: nat|
            {
                &&& k <= pages@.len()
                &&& (forall|j: nat|
                    j < k ==> #[trigger] step_continues(
                        pages_view(pages@),
                        chain_url_at(pages_view(pages@), start_url@, j),
                    ))
                &&& final(relay)@ == spec_send_all(
                    old(relay)@,
                    #[trigger] chain_sent(pages_view(pages@), start_url@, k),
                )
                &&& if k < pages@.len() {
                    step_error(pages_view(pages@), chain_url_at(pages_view(pages@), start_url@, k))
                        == Some(e)
                } else {
                    e == CrawlError::Fetch
                }
            }),
        !old(relay)@.receiver_open ==> final(relay)@ == old(relay)@ && r == Err::<
            usize,
            CrawlError,
        >(
            if pages@.len() == 0 {
                CrawlError::Fetch
            } else {
                match step_error(pages_view(pages@), start_url@) {
                    Some(cause) => cause,
                    None => CrawlError::RelayHandoff,
                }
            },
        ),
        exists|m: nat|
            final(relay)@ == spec_send_all(
                old(relay)@,
                #[trigger] chain_sent(pages_view(pages@), start_url@, m),
            ),
{
    let ghost p = pages_view(pages@);
    let ghost v0 = relay@;
    let mut cur: String = start_url.clone();
    let mut count: usize = 0;
    proof {
        assert(spec_send_all(v0, chain_sent(p, start_url@, 0)) == v0);
    }
    while count < pages.len()
        invariant
            relay.wf(),
            p == pages_view(pages@),
            0 <= count <= pages.len(),
            cur@ == chain_url_at(p, start_url@, count as nat),
            v0 == old(relay)@,
            relay@.receiver_open == v0.receiver_open,
            v0.receiver_open ==> relay@ == spec_send_all(
                v0,
                chain_sent(p, start_url@, count as nat),
            ),
            !v0.receiver_open ==> relay@ == v0 && count == 0,
            forall|j: nat| j < count ==> #[trigger] step_continues(p, chain_url_at(p, start_url@, j)),
            forall|n: nat|
                #[trigger] is_chain(p, start_url@, n) ==> count < n && is_chain(
                    p,
                    cur@,
                    (n - count) as nat,
                ),
            forall|k: nat|
                #[trigger] is_chain(p, cur@, k) && k + count <= pages@.len() ==> is_chain(
                    p,
                    start_url@,
                    (k + count) as nat,
                ),
        decreases pages.len() - count,
    {
        let name = match chapter_file_name(cur.as_str()) {
            Ok(name) => name,
            Err(e) => {
                proof {
                    assert forall|n: nat| !is_chain(p, start_url@, n) by {
                        if is_chain(p, start_url@, n) {
                            assert(is_chain(p, cur@, (n - count) as nat));
                        }
                    }
                    assert(step_error(p, cur@) == Some(CrawlError::MissingChapterName));
                    assert(chain_url_at(p, start_url@, 0) == start_url@);
                    assert(spec_send_all(v0, chain_sent(p, start_url@, 0)) == v0);
                }
                return Err(e);
            },
        };
        let html = match fetch_page(pages, &cur) {
            Some(html) => html,
            None => {
                proof {
                    assert forall|n: nat| !is_chain(p, start_url@, n) by {
                        if is_chain(p, start_url@, n) {
                            assert(is_chain(p, cur@, (n - count) as nat));
                        }
                    }
                    assert(step_error(p, cur@) == Some(CrawlError::Fetch));
                    assert(chain_url_at(p, start_url@, 0) == start_url@);
                    assert(spec_send_all(v0, chain_sent(p, start_url@, 0)) == v0);
                }
                return Err(CrawlError::Fetch);
            },
        };
        let content = page_content(html.as_str());
        let next_opt = match next_page_url(cur.as_str(), html.as_str()) {
            Ok(next_opt) => next_opt,
            Err(e) => {
                proof {
                    assert forall|n: nat| !is_chain(p, start_url@, n) by {
                        if is_chain(p, start_url@, n) {
                            assert(is_chain(p, cur@, (n - count) as nat));
                        }
                    }
                    assert(step_error(p, cur@) == Some(CrawlError::Extraction));
                    assert(chain_url_at(p, start_url@, 0) == start_url@);
                    assert(spec_send_all(v0, chain_sent(p, start_url@, 0)) == v0);
                }
                return Err(e);
            },
        };
        // The page is complete: hand its chapter off before looking at where
        // the chain goes, so that the final page's chapter is delivered too.
        let chapter = Chapter { name, content };
        proof {
            assert(chapter@ == chapter_view_at(p, cur@));
        }
        let sent = relay.send(chapter);
        if sent.is_err() {
            // The consumer is gone: the handoff failure is fatal to the walk.
            proof {
                assert(!v0.receiver_open);
                assert(step_error(p, cur@) is None);
                assert(chain_url_at(p, start_url@, 0) == start_url@);
                assert(spec_send_all(v0, chain_sent(p, start_url@, 0)) == v0);
            }
            return Err(CrawlError::RelayHandoff);
        }
        proof {
            lemma_send_all_snoc(
                v0,
                chain_sent(p, start_url@, count as nat),
                chapter_view_at(p, cur@),
            );
            lemma_chain_sent_snoc(p, start_url@, count as nat);
        }
        match next_opt {
            None => {
                // The chain ends at this page; its chapter was just sent.
                proof {
                    assert(is_chain(p, cur@, 1));
                    assert forall|n: nat|
                        n <= pages@.len() && #[trigger] is_chain(p, start_url@, n) implies n
                        == count + 1 by {
                        assert(is_chain(p, cur@, (n - count) as nat));
                    }
                }
                return Ok(count + 1);
            },
            Some(next_url) => {
                proof {
                    lemma_chain_url_at_snoc(p, start_url@, count as nat);
                    assert(chain_step(p, cur@) == next_url@);
                    assert(step_continues(p, cur@));
                    assert forall|n: nat|
                        #[trigger] is_chain(p, start_url@, n) implies count + 1 < n && is_chain(
                        p,
                        next_url@,
                        (n - (count + 1)) as nat,
                    ) by {
                        assert(is_chain(p, cur@, (n - count) as nat));
                    }
                    assert forall|k: nat|
                        #[trigger] is_chain(p, next_url@, k) && k + count + 1
                            <= pages@.len() implies is_chain(
                        p,
                        start_url@,
                        (k + count + 1) as nat,
                    ) by {
                        assert(is_chain(p, cur@, (k + 1) as nat));
                    }
                }
                count += 1;
                cur = next_url;
            },
        }
    }
    // Every page seen so far linked onward, yet as many pages were walked as
    // the source holds: no complete chain can start at `start_url`.
    proof {
        assert forall|n: nat| !(n <= pages@.len() && is_chain(p, start_url@, n)) by {
            if is_chain(p, start_url@, n) {
                assert(count < n);
            }
        }
        assert(spec_send_all(v0, chain_sent(p, start_url@, 0)) == v0);
    }
    Err(CrawlError::Fetch)
}

} // verus!
