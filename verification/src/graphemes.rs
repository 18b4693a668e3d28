//! Grapheme-cluster segmentation. Text length is measured in grapheme
//! clusters (user-perceived characters) throughout the pipeline, never in
//! bytes or code points; the segmentation itself comes from an outside
//! library and is named, not restated, here.

use unicode_segmentation::UnicodeSegmentation;
use vstd::prelude::*;

verus! {

/// The grapheme-cluster segmentation of a text: the sequence of extended
/// grapheme clusters whose concatenation is the text, as the Unicode
/// segmentation rules define it.
pub uninterp spec fn graphemes_of(s: Seq<char>) -> Seq<Seq<char>>;

/// Relies on unicode-segmentation's `UnicodeSegmentation::graphemes` in its
/// extended form: it yields the grapheme clusters of the string — nonempty
/// substrings, in order, whose concatenation is the string.
#[verifier::external_body]
pub fn split_graphemes(s: &str) -> (r: Vec<String>)
    ensures
        r.deep_view() == graphemes_of(s@),
        r.deep_view().flatten() == s@,
        forall|i: int| 0 <= i < r.deep_view().len() ==> r.deep_view()[i].len() > 0,
{
    s.graphemes(true).map(|g| g.to_string()).collect()
}

} // verus!
