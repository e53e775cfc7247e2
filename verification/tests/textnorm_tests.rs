use fiction_archiver::textnorm::is_next_chapter_label;

#[test]
fn matches_exact_label() {
    assert!(is_next_chapter_label("next chapter"));
}

#[test]
fn matches_with_different_case_and_surrounding_whitespace() {
    assert!(is_next_chapter_label("Next Chapter "));
    assert!(is_next_chapter_label("NEXT CHAPTER"));
    assert!(is_next_chapter_label("\n\t next chapter \u{a0}"));
}

#[test]
fn rejects_surrounding_text() {
    assert!(!is_next_chapter_label("go to next chapter"));
    assert!(!is_next_chapter_label("next chapter!"));
}

#[test]
fn rejects_partial_and_reshaped_labels() {
    assert!(!is_next_chapter_label("next"));
    assert!(!is_next_chapter_label("next  chapter"));
    assert!(!is_next_chapter_label("next\tchapter"));
    assert!(!is_next_chapter_label(""));
    assert!(!is_next_chapter_label("   "));
}
