use vstd::prelude::*;

verus! {

/// One chapter of the work: a file name and the extracted text, UTF-8 encoded.
/// Ownership moves from the walker through the relay to the archive writer.
pub struct Chapter {
    pub name: String,
    pub content: Vec<u8>,
}

/// The mathematical model of a chapter.
#[verifier::ext_equal]
pub struct ChapterView {
    pub name: Seq<char>,
    pub content: Seq<u8>,
}

impl View for Chapter {
    type V = ChapterView;

    open spec fn view(&self) -> ChapterView {
        ChapterView { name: self.name@, content: self.content@ }
    }
}

} // verus!
