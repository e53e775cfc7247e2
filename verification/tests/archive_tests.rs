use fiction_archiver::archive::make_entry;
use fiction_archiver::archive::writer_decision;
use fiction_archiver::archive::WriterAction;
use fiction_archiver::chapter::Chapter;
use fiction_archiver::errors::ArchiveError;
use fiction_archiver::errors::CrawlError;
use fiction_archiver::errors::RunError;
use fiction_archiver::relay::RelayRecv;
use fiction_archiver::run::run_outcome;

#[test]
fn entry_declares_exactly_the_content_byte_length() {
    let chapter = Chapter {
        name: String::from("part-1.txt"),
        content: String::from("Text 1\n\nmore").into_bytes(),
    };
    let entry = make_entry(chapter);
    assert_eq!(entry.name, "part-1.txt");
    assert_eq!(entry.size, 12);
    assert_eq!(entry.size, entry.content.len() as u64);
    assert_eq!(entry.mode, 0o777);
    assert_eq!(entry.content, b"Text 1\n\nmore".to_vec());
}

#[test]
fn writer_appends_chapters_and_absorbs_lag() {
    let chapter = Chapter { name: String::from("a.txt"), content: vec![7u8, 8u8] };
    match writer_decision(RelayRecv::Item(chapter)) {
        WriterAction::Append(e) => {
            assert_eq!(e.name, "a.txt");
            assert_eq!(e.size, 2);
        },
        _ => panic!("a chapter must be appended"),
    }
    assert!(matches!(writer_decision(RelayRecv::Lagged(17)), WriterAction::Continue));
    assert!(matches!(writer_decision(RelayRecv::Closed), WriterAction::Finish));
    assert!(matches!(writer_decision(RelayRecv::Empty), WriterAction::Wait));
}

#[test]
fn walker_failure_is_propagated_first() {
    let r = run_outcome(Err(CrawlError::Fetch), Err(ArchiveError::Append));
    assert_eq!(r.unwrap_err(), RunError::Crawl(CrawlError::Fetch));
}

#[test]
fn writer_failure_is_propagated_when_the_walk_succeeded() {
    let r = run_outcome(Ok(4), Err(ArchiveError::Finalize));
    assert_eq!(r.unwrap_err(), RunError::Archive(ArchiveError::Finalize));
    assert_eq!(
        RunError::Archive(ArchiveError::Finalize).message(),
        "could not finalize archive"
    );
}

#[test]
fn run_succeeds_when_both_sides_do() {
    assert_eq!(run_outcome(Ok(4), Ok(())).unwrap(), 4);
}

#[test]
fn error_messages_name_each_failure() {
    assert_eq!(CrawlError::Fetch.message(), "could not fetch chapter page");
    assert_eq!(CrawlError::Extraction.message(), "could not resolve next chapter link");
    assert_eq!(CrawlError::RelayHandoff.message(), "relay has no consumer");
    assert_eq!(ArchiveError::Create.message(), "could not create output file");
    assert_eq!(ArchiveError::Append.message(), "could not append entry to archive");
}
