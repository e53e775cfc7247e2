use fiction_archiver::archive::drain_relay;
use fiction_archiver::errors::CrawlError;
use fiction_archiver::extract::page_content;
use fiction_archiver::relay::Relay;
use fiction_archiver::urlpath::chapter_file_name;
use fiction_archiver::walker::walk_chain;

fn page(paragraphs: &[&str], buttons: &[(&str, Option<&str>)]) -> String {
    let mut html = String::from("<html><body><div class=\"chapter-inner chapter-content\">");
    for p in paragraphs {
        html.push_str(&format!("<p>{p}</p>"));
    }
    html.push_str("</div>");
    for (text, href) in buttons {
        match href {
            Some(h) => html.push_str(&format!(
                "<a class=\"btn btn-primary col-xs-12\" href=\"{h}\">{text}</a>"
            )),
            None => html.push_str(&format!("<a class=\"btn btn-primary col-xs-12\">{text}</a>")),
        }
    }
    html.push_str("</body></html>");
    html
}

fn chain_url(k: usize) -> String {
    format!("https://example.com/fiction/7/tale/chapter/{k}/part-{k}")
}

fn chain_pages(n: usize) -> (Vec<(String, String)>, String) {
    let mut pages = Vec::new();
    for k in 1..=n {
        let html = if k < n {
            let href = format!("/fiction/7/tale/chapter/{}/part-{}", k + 1, k + 1);
            page(&[&format!("Text {k}"), "more"], &[("Next Chapter", Some(&href))])
        } else {
            page(&[&format!("Text {k}"), "more"], &[])
        };
        pages.push((chain_url(k), html));
    }
    (pages, chain_url(1))
}

#[test]
fn walks_full_chain_and_hands_off_every_chapter() {
    let (pages, start) = chain_pages(3);
    let mut relay = Relay::new(100);
    let fetched = walk_chain(&pages, &start, &mut relay).unwrap();
    assert_eq!(fetched, 3, "one fetch per page of the chain");
    relay.close_sender();
    let entries = drain_relay(&mut relay);
    assert_eq!(entries.len(), 3, "one handoff per page, the final page's too");
    assert_eq!(entries[0].name, "part-1.txt");
    assert_eq!(entries[1].name, "part-2.txt");
    assert_eq!(entries[2].name, "part-3.txt");
    assert_eq!(entries[0].content, b"Text 1\n\nmore".to_vec());
    assert_eq!(entries[2].content, b"Text 3\n\nmore".to_vec());
    assert_eq!(entries[0].size, entries[0].content.len() as u64);
}

#[test]
fn single_page_chain_fetches_once_and_hands_off_one_chapter() {
    let (pages, start) = chain_pages(1);
    let mut relay = Relay::new(10);
    assert_eq!(walk_chain(&pages, &start, &mut relay).unwrap(), 1);
    relay.close_sender();
    let entries = drain_relay(&mut relay);
    assert_eq!(entries.len(), 1);
    assert_eq!(entries[0].name, "part-1.txt");
}

#[test]
fn failing_fetch_mid_chain_aborts_after_two_handoffs() {
    let (mut pages, start) = chain_pages(5);
    pages.remove(2);  // page 3 can no longer be fetched
    let mut relay = Relay::new(100);
    let r = walk_chain(&pages, &start, &mut relay);
    assert_eq!(r.unwrap_err(), CrawlError::Fetch);
    relay.close_sender();
    let entries = drain_relay(&mut relay);
    assert_eq!(entries.len(), 2, "exactly the chapters before the failing page");
    assert_eq!(entries[0].name, "part-1.txt");
    assert_eq!(entries[1].name, "part-2.txt");
}

#[test]
fn follows_only_the_exactly_matching_button() {
    let detour = page(
        &["Start"],
        &[
            ("go to next chapter", Some("/fiction/7/tale/chapter/9/wrong")),
            ("  NEXT CHAPTER ", Some("/fiction/7/tale/chapter/2/part-2")),
        ],
    );
    let last = page(&["End"], &[("next chapter!", Some("/fiction/7/tale/chapter/9/wrong"))]);
    let pages = vec![(chain_url(1), detour), (chain_url(2), last)];
    let mut relay = Relay::new(10);
    assert_eq!(walk_chain(&pages, &chain_url(1), &mut relay).unwrap(), 2);
    relay.close_sender();
    let entries = drain_relay(&mut relay);
    assert_eq!(entries.len(), 2);
    assert_eq!(entries[0].name, "part-1.txt");
    assert_eq!(entries[1].name, "part-2.txt");
}

#[test]
fn matching_button_without_reference_ends_the_chain() {
    let only = page(&["Lonely"], &[("Next Chapter", None)]);
    let pages = vec![(chain_url(1), only)];
    let mut relay = Relay::new(10);
    assert_eq!(walk_chain(&pages, &chain_url(1), &mut relay).unwrap(), 1);
    relay.close_sender();
    let entries = drain_relay(&mut relay);
    assert_eq!(entries.len(), 1);
    assert_eq!(entries[0].name, "part-1.txt");
}

#[test]
fn unresolvable_next_reference_is_an_extraction_failure() {
    let broken = page(&["Start"], &[("Next Chapter", Some("http://"))]);
    let pages = vec![(chain_url(1), broken)];
    let mut relay = Relay::new(10);
    let r = walk_chain(&pages, &chain_url(1), &mut relay);
    assert_eq!(r.unwrap_err(), CrawlError::Extraction);
    relay.close_sender();
    assert_eq!(drain_relay(&mut relay).len(), 0, "the failing page contributes no handoff");
}

#[test]
fn vanished_consumer_makes_the_first_handoff_fatal() {
    let (pages, start) = chain_pages(3);
    let mut relay = Relay::new(10);
    relay.close_receiver();
    let r = walk_chain(&pages, &start, &mut relay);
    assert_eq!(r.unwrap_err(), CrawlError::RelayHandoff);
}

#[test]
fn chapter_names_come_from_the_final_path_segment() {
    assert_eq!(chapter_file_name(&chain_url(1)).unwrap(), "part-1.txt");
    let e = chapter_file_name("mailto:user@example.com").unwrap_err();
    assert_eq!(e, CrawlError::MissingChapterName);
    assert_eq!(e.message(), "chapter does not have name");
}

#[test]
fn page_content_joins_blocks_with_a_blank_line() {
    let html = page(&["One", "Two", "Three"], &[]);
    assert_eq!(page_content(&html), b"One\n\nTwo\n\nThree".to_vec());
    let empty = page(&[], &[]);
    assert_eq!(page_content(&empty), Vec::<u8>::new());
}
