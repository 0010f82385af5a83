//! The two Unicode services the editor takes from outside crates: grapheme
//! cluster segmentation (`unicode-segmentation`) and display width
//! (`unicode-width`).
use unicode_segmentation::UnicodeSegmentation;
use unicode_width::UnicodeWidthStr;
use vstd::prelude::*;

use crate::text::{all_printable_ascii, concat_all};

verus! {

/// The extended grapheme clusters of a text, in order (UAX #29).
pub uninterp spec fn grapheme_clusters(s: Seq<char>) -> Seq<Seq<char>>;

/// The display width of a text in terminal columns (UAX #11, ambiguous
/// characters counted as one column).
pub uninterp spec fn display_width(s: Seq<char>) -> usize;

/// The views of a sequence of string slices.
pub open spec fn str_views(v: Seq<&str>) -> Seq<Seq<char>> {
    v.map_values(|g: &str| g@)
}

/// Calls `UnicodeSegmentation::graphemes(s, true)` and collects the clusters.
/// Claims: the clusters are `grapheme_clusters(s@)`; they are non-empty and
/// their concatenation is `s` (the iterator's `next` hands out
/// `&s[start..next]` for strictly increasing, adjacent boundaries from 0 to
/// `s.len()`). Also claims that a text of printable ASCII characters (space
/// through `~`) falls into one cluster per character: the crate classes each
/// of them as `GC_Any`, and `check_pair(GC_Any, GC_Any)` is a break (GB999).
/// Which boundaries UAX #29 picks elsewhere is left unsaid.
#[verifier::external_body]
pub(crate) fn graphemes<'a>(s: &'a str) -> (r: Vec<&'a str>)
    ensures
        str_views(r@) == grapheme_clusters(s@),
        concat_all(str_views(r@)) == s@,
        forall|i: int| 0 <= i < r@.len() ==> (#[trigger] r@[i])@.len() > 0,
        all_printable_ascii(s@) ==> r@.len() == s@.len() && forall|i: int|
            0 <= i < r@.len() ==> (#[trigger] r@[i])@ == seq![s@[i]],
{
    s.graphemes(true).collect()
}

/// Calls `UnicodeWidthStr::width(s)`. Claims only that the result is
/// `display_width(s@)`; the width tables are left unsaid.
#[verifier::external_body]
pub(crate) fn str_width(s: &str) -> (r: usize)
    ensures
        r == display_width(s@),
{
    s.width()
}

} // verus!
