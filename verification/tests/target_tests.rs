use fiction_archiver::errors::RunError;
use fiction_archiver::run::plan_run;
use fiction_archiver::target::derive_run_target;

#[test]
fn derives_slug_from_typical_chapter_url() {
    let url = "https://www.royalroad.com/fiction/12345/some-slug/chapter/100/first-steps";
    assert_eq!(derive_run_target(url).unwrap(), "some-slug");
}

#[test]
fn derives_slug_from_shortest_match() {
    assert_eq!(derive_run_target("/fiction/1/a").unwrap(), "a");
}

#[test]
fn slug_stops_at_first_non_slug_character() {
    let url = "https://example.com/fiction/9/tale-of_two.cities/chapter/1";
    assert_eq!(derive_run_target(url).unwrap(), "tale-of_two");
}

#[test]
fn takes_leftmost_occurrence() {
    let url = "https://example.com/fiction/1/first/fiction/2/second";
    assert_eq!(derive_run_target(url).unwrap(), "first");
}

#[test]
fn rejects_url_without_pattern() {
    let r = derive_run_target("https://example.com/story/12345/some-slug");
    assert_eq!(r.unwrap_err(), RunError::InvalidRunTarget);
}

#[test]
fn rejects_pattern_without_digits() {
    let r = derive_run_target("https://example.com/fiction/abc/some-slug");
    assert_eq!(r.unwrap_err(), RunError::InvalidRunTarget);
}

#[test]
fn rejects_pattern_without_slug() {
    let r = derive_run_target("https://example.com/fiction/123/");
    assert_eq!(r.unwrap_err(), RunError::InvalidRunTarget);
}

#[test]
fn agrees_with_reference_pattern_engine() {
    let pattern = regex::Regex::new(r"/fiction/\d+/([\w-]+)").unwrap();
    let samples = [
        "https://www.royalroad.com/fiction/12345/some-slug/chapter/100/first-steps",
        "https://www.royalroad.com/fiction/1/a",
        "/fiction/777/under_score-mix9/chapter/2",
        "https://example.com/fiction/1/first/fiction/2/second",
        "https://example.com/fiction//missing-digits",
        "no pattern here",
        "/fiction/42/",
        "prefix/fiction/03/slug.tail",
        "/FICTION/5/upper-case-marker",
        "text /fiction/8/x yes",
    ];
    for url in samples {
        let expected = pattern
            .captures(url)
            .and_then(|c| c.get(1))
            .map(|g| g.as_str().to_owned());
        let got = derive_run_target(url).ok();
        assert_eq!(got, expected, "disagreement on {url}");
    }
}

#[test]
fn plan_names_output_file_after_target() {
    let plan = plan_run("https://www.royalroad.com/fiction/12345/some-slug/chapter/1/x").unwrap();
    assert_eq!(plan.target, "some-slug");
    assert_eq!(plan.output_file, "some-slug.tar.br");
}

#[test]
fn plan_fails_before_any_fetch_on_bad_url() {
    let e = plan_run("https://www.royalroad.com/profile/12345").unwrap_err();
    assert_eq!(e, RunError::InvalidRunTarget);
    assert_eq!(e.message(), "could not guess fiction name from first chapter url");
}
