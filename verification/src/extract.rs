//! The text extractor's verified half: turning the text produced by the
//! external conversion program into an ordered, zero-numbered document, and
//! deriving the sibling text file's path from the input path.

use crate::text::replace_all;
use crate::text::spec_lines;
use crate::text::spec_replace;
use crate::text::split_numbered_lines;
use vstd::prelude::*;

verus! {

/// An extracted document: one record per line of the converted text, each
/// carrying its zero-based position.
pub struct PdfReader {
    content: Vec<(usize, String)>,
}

impl PdfReader {
    /// The records this reader holds.
    pub closed spec fn spec_content(&self) -> Seq<(usize, String)> {
        self.content@
    }

    /// Builds the document from the extracted text: one record per line,
    /// numbered from zero in text order.
    pub fn new(extracted_text: &str) -> (r: PdfReader)
        ensures
            r.spec_content().len() == spec_lines(extracted_text@).len(),
            forall|i: int| 0 <= i < r.spec_content().len() ==> (#[trigger] r.spec_content()[i]).0 == i,
            forall|i: int|
                0 <= i < r.spec_content().len() ==> (#[trigger] r.spec_content()[i]).1@
                    == spec_lines(extracted_text@)[i],
    {
        PdfReader { content: split_numbered_lines(extracted_text) }
    }

    /// A copy of the records, in order.
    pub fn get_content(&self) -> (r: Vec<(usize, String)>)
        ensures
            r@ == self.spec_content(),
    {
        let mut out: Vec<(usize, String)> = Vec::new();
        let mut i: usize = 0;
        while i < self.content.len()
            invariant
                i <= self.content@.len(),
                out@ =~= self.content@.subrange(0, i as int),
            decreases self.content@.len() - i,
        {
            let line: String = self.content[i].1.clone();
            out.push((self.content[i].0, line));
            proof {
                assert(out@ =~= self.content@.subrange(0, i + 1));
            }
            i = i + 1;
        }
        proof {
            assert(self.content@.subrange(0, self.content@.len() as int) =~= self.content@);
        }
        out
    }
}

/// The path of the text file the external conversion program writes next to
/// the input: the input path with every `.pdf` turned into `.txt`.
pub fn sibling_txt_path(path: &str) -> (r: String)
    ensures
        r@ == spec_replace(path@, ".pdf"@, ".txt"@),
{
    proof {
        reveal_strlit(".pdf");
    }
    replace_all(path, ".pdf", ".txt")
}

} // verus!
