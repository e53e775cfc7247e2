use vstd::prelude::*;

verus! {

/// A failure that aborts the chapter walk for one run.
#[derive(Clone, Copy, Debug, PartialEq, Eq, Structural)]
pub enum CrawlError {
    /// The current page's URL has no final path segment to name the chapter by.
    MissingChapterName,
    /// The page's markup could not be fetched.
    Fetch,
    /// The page's markup yielded a next-page reference that cannot be resolved.
    Extraction,
    /// The relay rejected a handoff because it no longer has a consumer.
    RelayHandoff,
}

impl CrawlError {
    pub open spec fn message_spec(self) -> Seq<char> {
        match self {
            CrawlError::MissingChapterName => "chapter does not have name"@,
            CrawlError::Fetch => "could not fetch chapter page"@,
            CrawlError::Extraction => "could not resolve next chapter link"@,
            CrawlError::RelayHandoff => "relay has no consumer"@,
        }
    }

    pub fn message(&self) -> (r: &'static str)
        ensures
            r@ == self.message_spec(),
    {
        match self {
            CrawlError::MissingChapterName => "chapter does not have name",
            CrawlError::Fetch => "could not fetch chapter page",
            CrawlError::Extraction => "could not resolve next chapter link",
            CrawlError::RelayHandoff => "relay has no consumer",
        }
    }
}

/// A failure while writing or finalizing the output archive.
#[derive(Clone, Copy, Debug, PartialEq, Eq, Structural)]
pub enum ArchiveError {
    /// The output file could not be created.
    Create,
    /// An entry could not be appended to the archive.
    Append,
    /// The archive trailer, the compressor, or the file could not be finalized.
    Finalize,
}

impl ArchiveError {
    pub open spec fn message_spec(self) -> Seq<char> {
        match self {
            ArchiveError::Create => "could not create output file"@,
            ArchiveError::Append => "could not append entry to archive"@,
            ArchiveError::Finalize => "could not finalize archive"@,
        }
    }

    pub fn message(&self) -> (r: &'static str)
        ensures
            r@ == self.message_spec(),
    {
        match self {
            ArchiveError::Create => "could not create output file",
            ArchiveError::Append => "could not append entry to archive",
            ArchiveError::Finalize => "could not finalize archive",
        }
    }
}

/// The overall failure of one run, in the order the coordinator reports it.
#[derive(Clone, Copy, Debug, PartialEq, Eq, Structural)]
pub enum RunError {
    /// The run target could not be derived from the initial URL.
    InvalidRunTarget,
    /// The chapter walk failed.
    Crawl(CrawlError),
    /// The archive writer failed.
    Archive(ArchiveError),
}

impl RunError {
    pub open spec fn message_spec(self) -> Seq<char> {
        match self {
            RunError::InvalidRunTarget => "could not guess fiction name from first chapter url"@,
            RunError::Crawl(e) => e.message_spec(),
            RunError::Archive(e) => e.message_spec(),
        }
    }

    pub fn message(&self) -> (r: &'static str)
        ensures
            r@ == self.message_spec(),
    {
        match self {
            RunError::InvalidRunTarget => "could not guess fiction name from first chapter url",
            RunError::Crawl(e) => e.message(),
            RunError::Archive(e) => e.message(),
        }
    }
}

} // verus!
