use fiction_archiver::errors::CrawlError;
use fiction_archiver::errors::RunError;
use fiction_archiver::run::run_simulated;

fn page(paragraph: &str, next_href: Option<&str>) -> String {
    let mut html = format!(
        "<html><body><div class=\"chapter-inner chapter-content\"><p>{paragraph}</p></div>"
    );
    if let Some(href) = next_href {
        html.push_str(&format!(
            "<a class=\"btn btn-primary col-xs-12\" href=\"{href}\">Next Chapter</a>"
        ));
    }
    html.push_str("</body></html>");
    html
}

fn chain_url(k: usize) -> String {
    format!("https://example.com/fiction/7/tale/chapter/{k}/part-{k}")
}

fn chain_pages(n: usize) -> (Vec<(String, String)>, String) {
    let mut pages = Vec::new();
    for k in 1..=n {
        let html = if k < n {
            let href = format!("/fiction/7/tale/chapter/{}/part-{}", k + 1, k + 1);
            page(&format!("Chapter text {k}"), Some(&href))
        } else {
            page(&format!("Chapter text {k}"), None)
        };
        pages.push((chain_url(k), html));
    }
    (pages, chain_url(1))
}

#[test]
fn whole_run_archives_every_chapter_of_the_chain() {
    let (pages, start) = chain_pages(3);
    let (outcome, entries) = run_simulated(&pages, &start);
    assert_eq!(outcome.unwrap(), 3);
    assert_eq!(entries.len(), 3);
    assert_eq!(entries[0].name, "part-1.txt");
    assert_eq!(entries[0].content, b"Chapter text 1".to_vec());
    assert_eq!(entries[1].name, "part-2.txt");
    assert_eq!(entries[2].name, "part-3.txt");
    assert_eq!(entries[2].content, b"Chapter text 3".to_vec());
}

#[test]
fn run_with_unmatching_initial_url_fails_before_any_fetch() {
    let pages = vec![(
        String::from("https://example.com/story/1/x"),
        page("never fetched", None),
    )];
    let start = String::from("https://example.com/story/1/x");
    let (outcome, entries) = run_simulated(&pages, &start);
    assert_eq!(outcome.unwrap_err(), RunError::InvalidRunTarget);
    assert!(entries.is_empty());
}

#[test]
fn failing_run_still_leaves_the_chapters_archived_so_far() {
    let (mut pages, start) = chain_pages(4);
    pages.remove(2);
    let (outcome, entries) = run_simulated(&pages, &start);
    assert_eq!(outcome.unwrap_err(), RunError::Crawl(CrawlError::Fetch));
    assert_eq!(entries.len(), 2);
}
