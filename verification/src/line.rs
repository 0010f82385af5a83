//! One line of text, held as a sequence of grapheme clusters ("fragments"),
//! each with its display width and the character shown in its place when the
//! cluster itself would be invisible.
use std::ops::Range;
use vstd::prelude::*;

use crate::text::{
    all_printable_ascii, all_white_space, is_printable_ascii, char_to_string, concat_all, is_all_white_space, is_control,
    is_control_spec, is_just, lemma_concat_push, lemma_concat_split, lemma_concat_subrange_step,
    push_char,
};
use crate::unicode::{display_width, grapheme_clusters, graphemes, str_views, str_width};

verus! {

/// How many terminal columns a fragment takes.
#[derive(Copy, Clone, Debug, PartialEq, Eq, Structural)]
pub enum GraphemeWidth {
    Half,
    Full,
}

/// The width class of a display width: 0 or 1 columns is `Half`, more is `Full`.
pub open spec fn width_class(w: usize) -> GraphemeWidth {
    if w <= 1 {
        GraphemeWidth::Half
    } else {
        GraphemeWidth::Full
    }
}

/// The number of columns of a width class.
pub open spec fn columns(w: GraphemeWidth) -> nat {
    match w {
        GraphemeWidth::Half => 1,
        GraphemeWidth::Full => 2,
    }
}

/// `a + b`, capped at `usize::MAX`.
pub open spec fn saturating_add_spec(a: usize, b: int) -> usize {
    if a + b > usize::MAX {
        usize::MAX
    } else {
        (a + b) as usize
    }
}

impl GraphemeWidth {
    /// `other` plus the columns of this width, capped at `usize::MAX`.
    pub fn saturating_add(&self, other: usize) -> (r: usize)
        ensures
            r == saturating_add_spec(other, columns(*self) as int),
    {
        match self {
            GraphemeWidth::Half => other.saturating_add(1),
            GraphemeWidth::Full => other.saturating_add(2),
        }
    }

    /// The width class of a display width; never fails.
    pub fn try_from(value: usize) -> (r: Result<GraphemeWidth, &'static str>)
        ensures
            r matches Ok(w) && w == width_class(value),
    {
        if value <= 1 {
            Ok(GraphemeWidth::Half)
        } else {
            Ok(GraphemeWidth::Full)
        }
    }
}

/// What a fragment holds, as mathematical values.
pub struct FragmentView {
    pub grapheme: Seq<char>,
    pub width: GraphemeWidth,
    pub replacement: Option<char>,
}

/// The character shown in place of a grapheme cluster, if any: a tab shows as
/// a space, other visible white space as `␣`, a lone control character as `▯`
/// and any other zero-width cluster as `·`.
pub open spec fn replacement_spec(g: Seq<char>) -> Option<char> {
    replacement_given(g, display_width(g))
}

/// The character shown in place of a grapheme cluster `g` whose display
/// width is `w` (see `replacement_spec`).
pub open spec fn replacement_given(g: Seq<char>, w: usize) -> Option<char> {
    if g == seq![' '] {
        None
    } else if g == seq!['\t'] {
        Some(' ')
    } else if w > 0 && all_white_space(g) {
        Some('\u{2423}')
    } else if w == 0 {
        if g.len() == 1 && is_control_spec(g[0]) {
            Some('\u{25AF}')
        } else {
            Some('\u{B7}')
        }
    } else {
        None
    }
}

/// The fragment for the cluster `g` of display width `w`, where `rw` is the
/// display width of the character shown in its place, if there is one.
pub open spec fn fragment_given(g: Seq<char>, w: usize, rw: usize) -> FragmentView {
    FragmentView {
        grapheme: g,
        width: match replacement_given(g, w) {
            Some(_) => width_class(rw),
            None => width_class(w),
        },
        replacement: replacement_given(g, w),
    }
}

/// The width class of a cluster as shown: that of its replacement where it
/// has one, else its own.
pub open spec fn rendered_width_spec(g: Seq<char>) -> GraphemeWidth {
    match replacement_spec(g) {
        Some(c) => width_class(display_width(seq![c])),
        None => width_class(display_width(g)),
    }
}

/// The fragment made from one grapheme cluster.
pub open spec fn fragment_view(g: Seq<char>) -> FragmentView {
    FragmentView { grapheme: g, width: rendered_width_spec(g), replacement: replacement_spec(g) }
}

/// The fragments of a text: one per grapheme cluster.
pub open spec fn fragments_of(text: Seq<char>) -> Seq<FragmentView> {
    grapheme_clusters(text).map_values(|g: Seq<char>| fragment_view(g))
}

/// The clusters of a sequence of fragments.
pub open spec fn fragment_graphemes(frags: Seq<FragmentView>) -> Seq<Seq<char>> {
    frags.map_values(|f: FragmentView| f.grapheme)
}

/// The text of a sequence of fragments.
pub open spec fn line_text(frags: Seq<FragmentView>) -> Seq<char> {
    concat_all(fragment_graphemes(frags))
}

/// Every fragment holds at least one character.
pub open spec fn clusters_nonempty(frags: Seq<FragmentView>) -> bool {
    forall|k: int| 0 <= k < frags.len() ==> (#[trigger] frags[k]).grapheme.len() > 0
}

/// The fragments are the single characters of `t`, one each, in order.
pub open spec fn char_clusters(frags: Seq<FragmentView>, t: Seq<char>) -> bool {
    &&& frags.len() == t.len()
    &&& forall|k: int| 0 <= k < frags.len() ==> (#[trigger] frags[k]).grapheme == seq![t[k]]
}

/// The fragments are the clusters of their own text, as the library builds
/// every line: they are the segmentation of that text, each holds at least
/// one character, and where the text is printable ASCII each holds one
/// character.
pub open spec fn is_segmented(frags: Seq<FragmentView>) -> bool {
    &&& fragments_of(line_text(frags)) == frags
    &&& clusters_nonempty(frags)
    &&& all_printable_ascii(line_text(frags)) ==> char_clusters(frags, line_text(frags))
}

/// The text with `c` put before fragment `i`, or at the end where `i` is past
/// the last fragment.
pub open spec fn inserted_text(frags: Seq<FragmentView>, c: char, i: int) -> Seq<char> {
    let gs = fragment_graphemes(frags);
    if 0 <= i < frags.len() {
        concat_all(gs.take(i)) + seq![c] + concat_all(gs.skip(i))
    } else {
        line_text(frags).push(c)
    }
}

/// The text without fragment `i`; the whole text where `i` is the length.
pub open spec fn deleted_text(frags: Seq<FragmentView>, i: int) -> Seq<char> {
    let gs = fragment_graphemes(frags);
    if 0 <= i < frags.len() {
        concat_all(gs.take(i)) + concat_all(gs.skip(i + 1))
    } else {
        line_text(frags)
    }
}

/// The text of fragments `start` through `end` inclusive (clipped to the
/// line); empty where `start >= end` or `start` is past the last fragment.
pub open spec fn fragment_range_text(frags: Seq<FragmentView>, start: int, end: int) -> Seq<char> {
    if start >= end || start >= frags.len() {
        Seq::<char>::empty()
    } else {
        let stop = if end + 1 < frags.len() {
            end + 1
        } else {
            frags.len() as int
        };
        concat_all(fragment_graphemes(frags).subrange(start, stop))
    }
}

/// What a fragment shows when it lies wholly inside the window.
pub open spec fn shown(f: FragmentView) -> Seq<char> {
    match f.replacement {
        Some(c) => seq![c],
        None => f.grapheme,
    }
}

/// What one fragment beginning at column `pos` shows for the window of
/// columns `[start, end)`: itself if it lies wholly inside, `-` if the window
/// cuts it, nothing if it ends before the window.
pub open spec fn display_piece(f: FragmentView, pos: usize, start: usize, end: usize) -> Seq<char> {
    let fe = saturating_add_spec(pos, columns(f.width) as int);
    if fe > start {
        if fe > end || pos < start {
            seq!['-']
        } else {
            shown(f)
        }
    } else {
        Seq::<char>::empty()
    }
}

/// The characters shown for the window of columns `[start, end)` by the
/// fragments `frags`, the first of which begins at column `pos`; nothing is
/// shown from column `end` on.
pub open spec fn display_from(frags: Seq<FragmentView>, pos: usize, start: usize, end: usize) -> Seq<
    char,
>
    decreases frags.len(),
{
    if frags.len() == 0 || pos >= end {
        Seq::<char>::empty()
    } else {
        let fe = saturating_add_spec(pos, columns(frags[0].width) as int);
        display_piece(frags[0], pos, start, end) + display_from(frags.skip(1), fe, start, end)
    }
}

/// One step of `display_from` over the fragments from `i` on.
proof fn lemma_display_step(frags: Seq<FragmentView>, i: int, pos: usize, start: usize, end: usize)
    requires
        0 <= i < frags.len(),
        pos < end,
    ensures
        display_from(frags.skip(i), pos, start, end) == display_piece(frags[i], pos, start, end)
            + display_from(
            frags.skip(i + 1),
            saturating_add_spec(pos, columns(frags[i].width) as int),
            start,
            end,
        ),
{
    assert(frags.skip(i)[0] == frags[i]);
    assert(frags.skip(i).skip(1) =~= frags.skip(i + 1));
}

/// The characters shown for the columns `[start, end)` of a line.
pub open spec fn display_text(frags: Seq<FragmentView>, start: usize, end: usize) -> Seq<char> {
    if start >= end {
        Seq::<char>::empty()
    } else {
        display_from(frags, 0, start, end)
    }
}

/// The columns taken by what one fragment beginning at column `pos` shows
/// for the window `[start, end)` (see `display_piece`): one for a `-`, the
/// fragment's own columns where it is shown whole, none where it shows
/// nothing.
pub open spec fn piece_columns(f: FragmentView, pos: usize, start: usize, end: usize) -> nat {
    let fe = saturating_add_spec(pos, columns(f.width) as int);
    if fe > start {
        if fe > end || pos < start {
            1
        } else {
            columns(f.width)
        }
    } else {
        0
    }
}

/// The columns taken by what the fragments `frags`, the first beginning at
/// column `pos`, show for the window `[start, end)` (see `display_from`).
pub open spec fn display_columns(frags: Seq<FragmentView>, pos: usize, start: usize, end: usize) -> nat
    decreases frags.len(),
{
    if frags.len() == 0 || pos >= end {
        0
    } else {
        let fe = saturating_add_spec(pos, columns(frags[0].width) as int);
        piece_columns(frags[0], pos, start, end) + display_columns(frags.skip(1), fe, start, end)
    }
}

/// From column `pos` on, what is shown takes no more columns than are left
/// in the window.
proof fn lemma_display_columns_from(
    frags: Seq<FragmentView>,
    pos: usize,
    start: usize,
    end: usize,
)
    requires
        start < end,
        end < usize::MAX,
        pos < end,
    ensures
        display_columns(frags, pos, start, end) <= end - (if pos < start {
            start
        } else {
            pos
        }),
    decreases frags.len(),
{
    if frags.len() > 0 {
        let fe = saturating_add_spec(pos, columns(frags[0].width) as int);
        if fe < end {
            lemma_display_columns_from(frags.skip(1), fe, start, end);
        }
    }
}

/// A line shown in a window never runs past it: what the columns
/// `[start, end)` of a line show takes at most `end - start` columns, a cut
/// fragment counting one column for its `-` and a whole one its own width.
pub proof fn lemma_display_fits_window(frags: Seq<FragmentView>, start: usize, end: usize)
    requires
        start < end,
        end < usize::MAX,
    ensures
        display_columns(frags, 0, start, end) <= end - start,
{
    lemma_display_columns_from(frags, 0, start, end);
}

/// The number of columns that a sequence of fragments takes.
pub open spec fn width_sum(frags: Seq<FragmentView>) -> nat
    decreases frags.len(),
{
    if frags.len() == 0 {
        0
    } else {
        width_sum(frags.drop_last()) + columns(frags.last().width)
    }
}

/// The columns taken by the first `i` fragments (all of them where `i` is
/// past the end).
pub open spec fn width_until_spec(frags: Seq<FragmentView>, i: int) -> nat {
    if i < frags.len() {
        width_sum(frags.take(i))
    } else {
        width_sum(frags)
    }
}

/// A prefix takes no more columns than a longer prefix.
pub proof fn lemma_width_sum_prefix(frags: Seq<FragmentView>, i: int, k: int)
    requires
        0 <= i <= k <= frags.len(),
    ensures
        width_sum(frags.take(i)) <= width_sum(frags.take(k)),
    decreases k - i,
{
    if i < k {
        lemma_width_sum_prefix(frags, i, k - 1);
        assert(frags.take(k).drop_last() =~= frags.take(k - 1));
    }
}

/// The caret's column never goes down as its grapheme index goes up: the
/// columns before fragment `i` are at most those before fragment `j` for
/// `i <= j`.
pub proof fn lemma_width_until_monotone(frags: Seq<FragmentView>, i: int, j: int)
    requires
        0 <= i <= j,
    ensures
        width_until_spec(frags, i) <= width_until_spec(frags, j),
{
    assert(frags.take(frags.len() as int) =~= frags);
    if j < frags.len() {
        lemma_width_sum_prefix(frags, i, j);
    } else if i < frags.len() {
        lemma_width_sum_prefix(frags, i, frags.len() as int);
    }
}

/// The concatenation of parts is the first part followed by the rest.
proof fn lemma_concat_first(parts: Seq<Seq<char>>)
    requires
        parts.len() > 0,
    ensures
        concat_all(parts) == parts[0] + concat_all(parts.skip(1)),
{
    lemma_concat_split(parts, 1);
    assert(parts.subrange(0, 1) =~= seq![parts[0]]);
    crate::text::lemma_concat_single(parts[0]);
    assert(parts.subrange(1, parts.len() as int) =~= parts.skip(1));
}

/// Deleting a character undoes inserting it: where `inserted` is the line
/// that inserting `c` before fragment `i` of `before` gives (its text is the
/// inserted text), `c` became fragment `i` on its own and the fragments
/// before it are as they were, deleting fragment `i` of `inserted` gives
/// back the text of `before`.
pub proof fn lemma_delete_undoes_insert(
    before: Seq<FragmentView>,
    inserted: Seq<FragmentView>,
    c: char,
    i: int,
)
    requires
        0 <= i <= before.len(),
        line_text(inserted) == inserted_text(before, c, i),
        i < inserted.len(),
        inserted[i].grapheme == seq![c],
        fragment_graphemes(inserted).take(i) == fragment_graphemes(before).take(i),
    ensures
        deleted_text(inserted, i) == line_text(before),
{
    let ga = fragment_graphemes(inserted);
    let gs = fragment_graphemes(before);
    let p = concat_all(gs.take(i));
    let r = concat_all(ga.skip(i + 1));
    lemma_concat_split(ga, i);
    assert(ga.subrange(0, i) =~= ga.take(i));
    assert(ga.subrange(i, ga.len() as int) =~= ga.skip(i));
    lemma_concat_first(ga.skip(i));
    assert(ga.skip(i).skip(1) =~= ga.skip(i + 1));
    assert(ga.skip(i)[0] == seq![c]);
    let q = if i < before.len() {
        concat_all(gs.skip(i))
    } else {
        Seq::<char>::empty()
    };
    assert(line_text(before) == p + q) by {
        lemma_concat_split(gs, i);
        assert(gs.subrange(0, i) =~= gs.take(i));
        assert(gs.subrange(i, gs.len() as int) =~= gs.skip(i));
        if i == before.len() {
            assert(gs.skip(i) =~= Seq::<Seq<char>>::empty());
            assert(p + q =~= p);
        }
    }
    assert(line_text(inserted) =~= (p + seq![c]) + r);
    assert(inserted_text(before, c, i) =~= (p + seq![c]) + q) by {
        if i == before.len() {
            assert(line_text(before).push(c) =~= (p + seq![c]) + q);
        }
    }
    let x = p + seq![c];
    assert(((x + r).skip(x.len() as int)) =~= r);
    assert(((x + q).skip(x.len() as int)) =~= q);
    assert(r == q);
}

/// The clusters of fragments that are single characters of `t` are those
/// characters.
proof fn lemma_char_clusters_graphemes(frags: Seq<FragmentView>, t: Seq<char>)
    requires
        char_clusters(frags, t),
    ensures
        fragment_graphemes(frags) == t.map_values(|ch: char| seq![ch]),
{
    assert(fragment_graphemes(frags) =~= t.map_values(|ch: char| seq![ch]));
}

/// The single characters of `t`, as parts, concatenate to `t`.
proof fn lemma_concat_of_chars(t: Seq<char>)
    ensures
        concat_all(t.map_values(|ch: char| seq![ch])) == t,
{
    crate::text::lemma_concat_singles(t.map_values(|ch: char| seq![ch]), t);
}

/// For printable ASCII text, deleting a character undoes inserting it:
/// where `before` is a line of printable ASCII text held as the clusters of
/// its text (as every line the library builds is), `c` is printable ASCII,
/// and `inserted` is what `Line::insert_char` makes of `before` by putting
/// `c` before fragment `i`, deleting fragment `i` of `inserted` gives back
/// the text of `before`.
pub proof fn lemma_delete_undoes_insert_ascii(
    before: Seq<FragmentView>,
    inserted: Seq<FragmentView>,
    c: char,
    i: int,
)
    requires
        0 <= i <= before.len(),
        is_segmented(before),
        all_printable_ascii(line_text(before)),
        is_printable_ascii(c),
        line_text(inserted) == inserted_text(before, c, i),
        is_segmented(inserted),
    ensures
        deleted_text(inserted, i) == line_text(before),
{
    let t = line_text(before);
    let u = t.take(i).push(c) + t.skip(i);
    lemma_char_clusters_graphemes(before, t);
    let gs = fragment_graphemes(before);
    assert(gs.take(i) =~= t.take(i).map_values(|ch: char| seq![ch]));
    assert(gs.skip(i) =~= t.skip(i).map_values(|ch: char| seq![ch]));
    lemma_concat_of_chars(t.take(i));
    lemma_concat_of_chars(t.skip(i));
    assert(inserted_text(before, c, i) == u) by {
        if i < before.len() {
            assert(concat_all(gs.take(i)) + seq![c] + concat_all(gs.skip(i)) =~= u);
        } else {
            assert(t.skip(i) =~= Seq::<char>::empty());
            assert(t.take(i) =~= t);
            assert(t.push(c) =~= u);
        }
    }
    assert(all_printable_ascii(u)) by {
        assert forall|k: int| 0 <= k < u.len() implies is_printable_ascii(#[trigger] u[k]) by {
            if k < i {
                assert(u[k] == t[k]);
            } else if k > i {
                assert(u[k] == t[k - 1]);
            }
        }
    }
    assert(inserted[i].grapheme == seq![u[i]]);
    assert(u[i] == c);
    assert(fragment_graphemes(inserted).take(i) =~= fragment_graphemes(before).take(i)) by {
        assert forall|k: int| 0 <= k < i implies fragment_graphemes(inserted).take(i)[k]
            == fragment_graphemes(before).take(i)[k] by {
            assert(inserted[k].grapheme == seq![u[k]]);
            assert(u[k] == t[k]);
        }
    }
    lemma_delete_undoes_insert(before, inserted, c, i);
}

/// The columns of a nonempty sequence of fragments are those of its first
/// fragment and those of the rest.
proof fn lemma_width_sum_first(frags: Seq<FragmentView>)
    requires
        frags.len() > 0,
    ensures
        width_sum(frags) == columns(frags[0].width) + width_sum(frags.skip(1)),
    decreases frags.len(),
{
    if frags.len() == 1 {
        assert(frags.drop_last() =~= Seq::<FragmentView>::empty());
        assert(frags.skip(1) =~= Seq::<FragmentView>::empty());
    } else {
        let d = frags.drop_last();
        lemma_width_sum_first(d);
        assert(d.skip(1) =~= frags.skip(1).drop_last());
        assert(frags.skip(1).last() == frags.last());
    }
}

/// The text of a nonempty sequence of fragments is the first fragment's
/// cluster followed by the text of the rest.
proof fn lemma_line_text_first(frags: Seq<FragmentView>)
    requires
        frags.len() > 0,
    ensures
        line_text(frags) == frags[0].grapheme + line_text(frags.skip(1)),
{
    let gs = fragment_graphemes(frags);
    lemma_concat_first(gs);
    assert(gs.skip(1) =~= fragment_graphemes(frags.skip(1)));
}

/// Fragments drawn whole from column `pos` show their clusters one after
/// another.
proof fn lemma_display_whole_from(frags: Seq<FragmentView>, pos: usize, w: usize)
    requires
        forall|k: int| 0 <= k < frags.len() ==> (#[trigger] frags[k]).replacement is None,
        pos + width_sum(frags) <= w,
    ensures
        display_from(frags, pos, 0, w) == line_text(frags),
    decreases frags.len(),
{
    if frags.len() == 0 {
        assert(fragment_graphemes(frags) =~= Seq::<Seq<char>>::empty());
    } else {
        lemma_width_sum_first(frags);
        lemma_line_text_first(frags);
        let rest = frags.skip(1);
        assert forall|k: int| 0 <= k < rest.len() implies (#[trigger] rest[k]).replacement is None by {
            assert(rest[k] == frags[k + 1]);
        }
        let fe = (pos + columns(frags[0].width)) as usize;
        lemma_display_whole_from(rest, fe, w);
    }
}

/// A line whose clusters are all shown as themselves, drawn in a window
/// from column 0 that is wide enough for it, shows exactly its text: every
/// cluster in full, in order.
pub proof fn lemma_display_shows_whole_text(frags: Seq<FragmentView>, w: usize)
    requires
        forall|k: int| 0 <= k < frags.len() ==> (#[trigger] frags[k]).replacement is None,
        width_sum(frags) <= w,
    ensures
        display_text(frags, 0, w) == line_text(frags),
{
    if w == 0 {
        if frags.len() > 0 {
            lemma_width_sum_first(frags);
        }
        assert(fragment_graphemes(frags) =~= Seq::<Seq<char>>::empty());
    } else {
        lemma_display_whole_from(frags, 0, w);
    }
}

/// The caret's column before fragment `i` is the columns the fragments
/// before it take when drawn: none before the first fragment, and each
/// fragment adds its own columns (one for a half-width, two for a
/// full-width fragment); past the end it stays at the line's full width.
pub proof fn lemma_width_until_counts_columns(frags: Seq<FragmentView>, i: int)
    requires
        0 <= i,
    ensures
        width_until_spec(frags, 0) == 0,
        i < frags.len() ==> width_until_spec(frags, i + 1) == width_until_spec(frags, i)
            + columns(frags[i].width),
        i >= frags.len() ==> width_until_spec(frags, i) == width_until_spec(
            frags,
            frags.len() as int,
        ),
{
    if frags.len() > 0 {
        assert(frags.take(0) =~= Seq::<FragmentView>::empty());
    }
    if i < frags.len() {
        assert(frags.take(i + 1).drop_last() =~= frags.take(i));
        assert(frags.take(i + 1).last() == frags[i]);
        assert(frags.drop_last() =~= frags.take(frags.len() - 1));
    }
}

/// Deleting fragment `i` leaves exactly the text of the other fragments, in
/// order: the whole cluster at `i` goes, however many characters it holds,
/// and nothing else does.
pub proof fn lemma_delete_removes_whole_cluster(frags: Seq<FragmentView>, i: int)
    requires
        0 <= i < frags.len(),
    ensures
        deleted_text(frags, i) == line_text(frags.remove(i)),
        line_text(frags) == line_text(frags.take(i)) + frags[i].grapheme + line_text(
            frags.skip(i + 1),
        ),
        deleted_text(frags, i).len() + frags[i].grapheme.len() == line_text(frags).len(),
{
    let gs = fragment_graphemes(frags);
    assert(fragment_graphemes(frags.remove(i)) =~= gs.take(i) + gs.skip(i + 1));
    crate::text::lemma_concat_append(gs.take(i), gs.skip(i + 1));
    assert(fragment_graphemes(frags.take(i)) =~= gs.take(i));
    assert(fragment_graphemes(frags.skip(i + 1)) =~= gs.skip(i + 1));
    lemma_concat_split(gs, i);
    assert(gs.subrange(0, i) =~= gs.take(i));
    assert(gs.subrange(i, gs.len() as int) =~= gs.skip(i));
    lemma_concat_first(gs.skip(i));
    assert(gs.skip(i).skip(1) =~= gs.skip(i + 1));
    assert(concat_all(gs.take(i)) + (gs[i] + concat_all(gs.skip(i + 1))) =~= concat_all(
        gs.take(i),
    ) + gs[i] + concat_all(gs.skip(i + 1)));
}

/// A grapheme cluster of the line, with how it is shown.
pub struct TextFragment {
    grapheme: String,
    rendered_width: GraphemeWidth,
    replacement: Option<char>,
}

impl View for TextFragment {
    type V = FragmentView;

    closed spec fn view(&self) -> FragmentView {
        FragmentView {
            grapheme: self.grapheme@,
            width: self.rendered_width,
            replacement: self.replacement,
        }
    }
}

/// The views of a sequence of fragments.
pub open spec fn fragment_views(v: Seq<TextFragment>) -> Seq<FragmentView> {
    v.map_values(|f: TextFragment| f@)
}

impl TextFragment {
    /// The fragment for one grapheme cluster.
    pub fn new(fragment: &str) -> (r: Self)
        ensures
            r@ == fragment_view(fragment@),
    {
        let unicode_width = str_width(fragment);
        let replacement = Self::replacement_for(fragment);
        let replacement_width = match replacement {
            Some(ch) => {
                let shown = char_to_string(ch);
                str_width(shown.as_str())
            },
            None => 0,
        };
        Self::from_widths(fragment, unicode_width, replacement_width)
    }

    /// The fragment for the cluster `fragment` of display width `width`,
    /// where `replacement_width` is the display width of the character shown
    /// in its place, if there is one (see `fragment_given`).
    pub fn from_widths(fragment: &str, width: usize, replacement_width: usize) -> (r: Self)
        ensures
            r@ == fragment_given(fragment@, width, replacement_width),
    {
        let replacement = Self::replacement_for_width(fragment, width);
        let rendered_width = match replacement {
            Some(_) => GraphemeWidth::try_from(replacement_width).unwrap(),
            None => GraphemeWidth::try_from(width).unwrap(),
        };
        let grapheme = fragment.to_owned();
        Self { grapheme, rendered_width, replacement }
    }

    fn replacement_for(text: &str) -> (r: Option<char>)
        ensures
            r == replacement_spec(text@),
    {
        let unicode_width = str_width(text);
        Self::replacement_for_width(text, unicode_width)
    }

    /// The character shown in place of the cluster `text` of display width
    /// `width`, if any (see `replacement_given`).
    pub fn replacement_for_width(text: &str, width: usize) -> (r: Option<char>)
        ensures
            r == replacement_given(text@, width),
    {
        if is_just(text, ' ') {
            None
        } else if is_just(text, '\t') {
            Some(' ')
        } else if width > 0 && is_all_white_space(text) {
            Some('\u{2423}')
        } else if width == 0 {
            let n = text.unicode_len();
            if n >= 1 {
                let ch = text.get_char(0);
                if is_control(ch) && n == 1 {
                    return Some('\u{25AF}');
                }
            }
            Some('\u{B7}')
        } else {
            None
        }
    }

    /// The fragment for one grapheme cluster; never fails.
    pub fn try_from(value: &str) -> (r: Result<Self, &'static str>)
        ensures
            r matches Ok(f) && f@ == fragment_view(value@),
    {
        Ok(TextFragment::new(value))
    }
}

/// A line of text as a sequence of fragments.
pub struct Line {
    fragments: Vec<TextFragment>,
}

impl View for Line {
    type V = Seq<FragmentView>;

    closed spec fn view(&self) -> Seq<FragmentView> {
        fragment_views(self.fragments@)
    }
}

impl Default for Line {
    /// The empty line.
    fn default() -> (r: Self)
        ensures
            r@ == Seq::<FragmentView>::empty(),
            is_segmented(r@),
    {
        let r = Line::from("");
        proof {
            reveal_strlit("");
            crate::text::lemma_concat_len_nonempty(fragment_graphemes(r@));
            assert(r@ =~= Seq::<FragmentView>::empty());
        }
        r
    }
}

impl Line {
    /// The line whose fragments are the grapheme clusters of `line_str`.
    pub fn from(line_str: &str) -> (r: Self)
        ensures
            r@ == fragments_of(line_str@),
            line_text(r@) == line_str@,
            clusters_nonempty(r@),
            all_printable_ascii(line_str@) ==> char_clusters(r@, line_str@),
            is_segmented(r@),
    {
        Line { fragments: Self::str_to_fragments(line_str) }
    }

    /// One fragment per grapheme cluster of `line_str`, in order.
    pub fn str_to_fragments(line_str: &str) -> (r: Vec<TextFragment>)
        ensures
            fragment_views(r@) == fragments_of(line_str@),
            line_text(fragment_views(r@)) == line_str@,
            clusters_nonempty(fragment_views(r@)),
            all_printable_ascii(line_str@) ==> char_clusters(fragment_views(r@), line_str@),
    {
        let graphemes = graphemes(line_str);
        let mut fragments: Vec<TextFragment> = Vec::new();
        let n = graphemes.len();
        let mut i: usize = 0;
        while i < n
            invariant
                n == graphemes@.len(),
                i <= n,
                fragments@.len() == i,
                str_views(graphemes@) == grapheme_clusters(line_str@),
                forall|j: int| 0 <= j < i ==> (#[trigger] fragments@[j])@ == fragment_view(graphemes@[j]@),
            decreases n - i,
        {
            let fragment = TextFragment::try_from(graphemes[i]).unwrap();
            fragments.push(fragment);
            i = i + 1;
        }
        assert(fragment_views(fragments@) =~= fragments_of(line_str@)) by {
            assert forall|j: int| 0 <= j < fragments@.len() implies fragment_views(fragments@)[j]
                == fragments_of(line_str@)[j] by {
                assert(str_views(graphemes@)[j] == graphemes@[j]@);
            }
        }
        assert(fragment_graphemes(fragments_of(line_str@)) =~= grapheme_clusters(line_str@));
        assert(clusters_nonempty(fragment_views(fragments@))) by {
            assert forall|k: int| 0 <= k < fragments@.len() implies (
            #[trigger] fragment_views(fragments@)[k]).grapheme.len() > 0 by {
                assert(fragments@[k]@ == fragment_view(graphemes@[k]@));
            }
        }
        fragments
    }

    /// The text of the fragments, appended to `s`.
    fn push_text(&self, s: &mut String)
        ensures
            final(s)@ == old(s)@ + line_text(self@),
    {
        let ghost gs = fragment_graphemes(self@);
        let ghost start = s@;
        let n = self.fragments.len();
        let mut i: usize = 0;
        while i < n
            invariant
                n == self.fragments@.len(),
                gs == fragment_graphemes(self@),
                gs.len() == n,
                i <= n,
                s@ == start + concat_all(gs.subrange(0, i as int)),
            decreases n - i,
        {
            proof {
                lemma_concat_subrange_step(gs, 0, i as int);
                assert(gs[i as int] == self.fragments@[i as int].grapheme@);
            }
            s.append(self.fragments[i].grapheme.as_str());
            proof {
                assert(start + concat_all(gs.subrange(0, i as int)) + gs[i as int] =~= start + (
                concat_all(gs.subrange(0, i as int)) + gs[i as int]));
            }
            i = i + 1;
        }
        assert(gs.subrange(0, n as int) =~= gs);
    }

    /// The text of the line.
    pub fn to_string(&self) -> (r: String)
        ensures
            r@ == line_text(self@),
    {
        let mut s = String::new();
        self.push_text(&mut s);
        assert(Seq::<char>::empty() + line_text(self@) =~= line_text(self@));
        s
    }

    /// Puts `character` before the fragment at `grapheme_index` (at the end
    /// where the index is past the last fragment) and splits the new text
    /// into clusters afresh.
    pub fn insert_char(&mut self, character: char, grapheme_index: usize)
        ensures
            final(self)@ == fragments_of(inserted_text(old(self)@, character, grapheme_index as int)),
            line_text(final(self)@) == inserted_text(old(self)@, character, grapheme_index as int),
            clusters_nonempty(final(self)@),
            all_printable_ascii(inserted_text(old(self)@, character, grapheme_index as int))
                ==> char_clusters(
                final(self)@,
                inserted_text(old(self)@, character, grapheme_index as int),
            ),
            is_segmented(final(self)@),
    {
        let ghost gs = fragment_graphemes(self@);
        let gi = grapheme_index;
        let mut new_string = String::new();
        let n = self.fragments.len();
        let mut index: usize = 0;
        while index < n
            invariant
                n == self.fragments@.len(),
                gs == fragment_graphemes(self@),
                gs.len() == n,
                index <= n,
                gi == grapheme_index,
                new_string@ == (if gi < index {
                    concat_all(gs.take(gi as int)) + seq![character] + concat_all(
                        gs.subrange(gi as int, index as int),
                    )
                } else {
                    concat_all(gs.take(index as int))
                }),
            decreases n - index,
        {
            let ghost before = new_string@;
            proof {
                assert(gs[index as int] == self.fragments@[index as int].grapheme@);
            }
            if index == gi {
                push_char(&mut new_string, character);
            }
            new_string.append(self.fragments[index].grapheme.as_str());
            proof {
                let g = gs[index as int];
                if gi < index {
                    lemma_concat_subrange_step(gs, gi as int, index as int);
                    assert(before + g =~= concat_all(gs.take(gi as int)) + seq![character] + (
                    concat_all(gs.subrange(gi as int, index as int)) + g));
                } else if gi == index {
                    lemma_concat_subrange_step(gs, gi as int, gi as int);
                    assert(gs.subrange(gi as int, gi as int) =~= Seq::<Seq<char>>::empty());
                    assert(concat_all(gs.subrange(gi as int, gi as int)) =~= Seq::<char>::empty());
                    assert(before.push(character) + g =~= concat_all(gs.take(gi as int)) + seq![
                        character,
                    ] + (concat_all(gs.subrange(gi as int, gi as int)) + g));
                } else {
                    lemma_concat_subrange_step(gs, 0, index as int);
                }
            }
            index = index + 1;
        }
        if gi >= n {
            push_char(&mut new_string, character);
        }
        proof {
            if gi < n {
                assert(gs.skip(gi as int) =~= gs.subrange(gi as int, n as int));
            } else {
                assert(gs.take(n as int) =~= gs);
            }
        }
        self.fragments = Self::str_to_fragments(new_string.as_str());
    }

    /// The text of fragments `range.start` through `range.end` inclusive,
    /// clipped to the line; empty where the range is empty or starts past
    /// the last fragment.
    pub fn get_fragments(&self, range: Range<usize>) -> (r: String)
        ensures
            r@ == fragment_range_text(self@, range.start as int, range.end as int),
    {
        if range.start >= range.end {
            return String::new();
        }
        if range.start >= self.fragments.len() {
            return String::new();
        }
        let ghost gs = fragment_graphemes(self@);
        let start = range.start;
        let end = range.end;
        let mut result = String::new();
        let mut current_position: usize = 0;
        let n = self.fragments.len();
        while current_position < n && current_position <= end
            invariant
                n == self.fragments@.len(),
                gs == fragment_graphemes(self@),
                gs.len() == n,
                start < end,
                start < n,
                current_position <= n,
                current_position <= end + 1,
                result@ == (if current_position <= start {
                    Seq::<char>::empty()
                } else {
                    concat_all(gs.subrange(start as int, current_position as int))
                }),
            decreases n - current_position,
        {
            proof {
                assert(gs[current_position as int] == self.fragments@[current_position
                    as int].grapheme@);
            }
            let ghost before = result@;
            if current_position >= start {
                result.append(self.fragments[current_position].grapheme.as_str());
                proof {
                    lemma_concat_subrange_step(gs, start as int, current_position as int);
                    if current_position == start {
                        assert(gs.subrange(start as int, start as int)
                            =~= Seq::<Seq<char>>::empty());
                        assert(before + gs[current_position as int] =~= concat_all(
                            gs.subrange(start as int, start as int),
                        ) + gs[current_position as int]);
                    }
                }
            }
            current_position = current_position.saturating_add(1);
        }
        result
    }

    /// Removes the fragment at `grapheme_index` and splits the rest afresh;
    /// leaves the line as it is where the index is past the end.
    pub fn delete_char(&mut self, grapheme_index: usize)
        ensures
            grapheme_index > old(self)@.len() ==> final(self)@ == old(self)@,
            grapheme_index <= old(self)@.len() ==> final(self)@ == fragments_of(
                deleted_text(old(self)@, grapheme_index as int),
            ),
            grapheme_index <= old(self)@.len() ==> line_text(final(self)@) == deleted_text(
                old(self)@,
                grapheme_index as int,
            ),
            grapheme_index <= old(self)@.len() ==> clusters_nonempty(final(self)@),
            grapheme_index <= old(self)@.len() && all_printable_ascii(
                deleted_text(old(self)@, grapheme_index as int),
            ) ==> char_clusters(final(self)@, deleted_text(old(self)@, grapheme_index as int)),
            grapheme_index <= old(self)@.len() ==> is_segmented(final(self)@),
    {
        if grapheme_index > self.fragments.len() {
            return;
        }
        let ghost gs = fragment_graphemes(self@);
        let gi = grapheme_index;
        let mut new_string = String::new();
        let n = self.fragments.len();
        let mut index: usize = 0;
        while index < n
            invariant
                n == self.fragments@.len(),
                gs == fragment_graphemes(self@),
                gs.len() == n,
                gi <= n,
                index <= n,
                new_string@ == (if gi < index {
                    concat_all(gs.take(gi as int)) + concat_all(
                        gs.subrange(gi + 1, index as int),
                    )
                } else {
                    concat_all(gs.take(index as int))
                }),
            decreases n - index,
        {
            let ghost before = new_string@;
            proof {
                assert(gs[index as int] == self.fragments@[index as int].grapheme@);
            }
            if index != gi {
                new_string.append(self.fragments[index].grapheme.as_str());
                proof {
                    let g = gs[index as int];
                    if gi < index {
                        lemma_concat_subrange_step(gs, gi + 1, index as int);
                        assert(before + g =~= concat_all(gs.take(gi as int)) + (concat_all(
                            gs.subrange(gi + 1, index as int),
                        ) + g));
                    } else {
                        lemma_concat_subrange_step(gs, 0, index as int);
                    }
                }
            } else {
                proof {
                    assert(gs.subrange(gi + 1, gi + 1) =~= Seq::<Seq<char>>::empty());
                    assert(before =~= concat_all(gs.take(gi as int)) + concat_all(
                        gs.subrange(gi + 1, gi + 1),
                    ));
                }
            }
            index = index + 1;
        }
        proof {
            if gi < n {
                assert(gs.skip(gi + 1) =~= gs.subrange(gi + 1, n as int));
            } else {
                assert(gs.take(n as int) =~= gs);
            }
        }
        self.fragments = Self::str_to_fragments(new_string.as_str());
    }

    /// The characters shown for the columns `[range.start, range.end)`.
    pub fn get_display_graphemes(&self, range: Range<usize>) -> (r: String)
        ensures
            r@ == display_text(self@, range.start, range.end),
    {
        if range.start >= range.end {
            return String::new();
        }
        let ghost frags = self@;
        let start = range.start;
        let end = range.end;
        let mut result = String::new();
        let mut current_position: usize = 0;
        let n = self.fragments.len();
        let mut i: usize = 0;
        assert(frags.skip(0) =~= frags);
        assert(Seq::<char>::empty() + display_from(frags, 0, start, end) =~= display_from(frags, 0, start, end));
        while i < n && current_position < end
            invariant
                n == self.fragments@.len(),
                frags == self@,
                frags.len() == n,
                i <= n,
                result@ + display_from(frags.skip(i as int), current_position, start, end)
                    == display_from(frags, 0, start, end),
            decreases n - i,
        {
            let ghost before = result@;
            let fragment = &self.fragments[i];
            proof {
                assert(frags[i as int] == fragment@);
                lemma_display_step(frags, i as int, current_position, start, end);
            }
            let fragment_end = fragment.rendered_width.saturating_add(current_position);
            if fragment_end > start {
                if fragment_end > end || current_position < start {
                    push_char(&mut result, '-');
                } else if let Some(c) = fragment.replacement {
                    push_char(&mut result, c);
                } else {
                    result.append(fragment.grapheme.as_str());
                }
            }
            proof {
                let piece = display_piece(frags[i as int], current_position, start, end);
                let rest = display_from(frags.skip(i + 1), fragment_end, start, end);
                assert(result@ =~= before + piece);
                assert(before + piece + rest =~= before + (piece + rest));
            }
            current_position = fragment_end;
            i = i + 1;
        }
        proof {
            assert(display_from(frags.skip(i as int), current_position, start, end)
                =~= Seq::<char>::empty());
            assert(result@ + Seq::<char>::empty() =~= result@);
        }
        result
    }

    /// The number of fragments.
    pub fn len(&self) -> (r: usize)
        ensures
            r == self@.len(),
    {
        self.fragments.len()
    }

    /// The columns taken by the fragments before `grapheme_index`.
    pub fn width_until(&self, grapheme_index: usize) -> (r: usize)
        requires
            width_until_spec(self@, grapheme_index as int) <= usize::MAX,
        ensures
            r == width_until_spec(self@, grapheme_index as int),
    {
        let ghost frags = self@;
        let n = self.fragments.len();
        let stop = if grapheme_index < n {
            grapheme_index
        } else {
            n
        };
        proof {
            assert(frags.take(n as int) =~= frags);
            lemma_width_sum_prefix(frags, 0, stop as int);
        }
        let mut total: usize = 0;
        let mut i: usize = 0;
        while i < stop
            invariant
                n == self.fragments@.len(),
                frags == self@,
                stop <= n,
                i <= stop,
                width_sum(frags.take(stop as int)) <= usize::MAX,
                total == width_sum(frags.take(i as int)),
            decreases stop - i,
        {
            proof {
                assert(frags.take(i + 1).drop_last() =~= frags.take(i as int));
                lemma_width_sum_prefix(frags, i + 1, stop as int);
            }
            let w: usize = match self.fragments[i].rendered_width {
                GraphemeWidth::Half => 1,
                GraphemeWidth::Full => 2,
            };
            total = total + w;
            i = i + 1;
        }
        total
    }

    /// Whether the columns taken by the fragments before `grapheme_index`
    /// can be counted in a `usize`.
    pub fn width_fits(&self, grapheme_index: usize) -> (r: bool)
        ensures
            r == (width_until_spec(self@, grapheme_index as int) <= usize::MAX),
    {
        let ghost frags = self@;
        let n = self.fragments.len();
        let stop = if grapheme_index < n {
            grapheme_index
        } else {
            n
        };
        proof {
            assert(frags.take(n as int) =~= frags);
        }
        let mut total: usize = 0;
        let mut i: usize = 0;
        while i < stop
            invariant
                n == self.fragments@.len(),
                frags == self@,
                stop <= n,
                i <= stop,
                total == width_sum(frags.take(i as int)),
                width_until_spec(frags, grapheme_index as int) == width_sum(frags.take(stop as int)),
            decreases stop - i,
        {
            proof {
                assert(frags.take(i + 1).drop_last() =~= frags.take(i as int));
                lemma_width_sum_prefix(frags, i + 1, stop as int);
            }
            let w: usize = match self.fragments[i].rendered_width {
                GraphemeWidth::Half => 1,
                GraphemeWidth::Full => 2,
            };
            proof {
                assert(frags.take(i + 1).last() == frags[i as int]);
                assert(frags[i as int] == self.fragments@[i as int]@);
                assert(width_sum(frags.take(i + 1)) == total + w);
            }
            if total > usize::MAX - w {
                return false;
            }
            total = total + w;
            i = i + 1;
        }
        true
    }

    /// This line followed by the text of `other`, split into clusters afresh.
    pub fn append_other(&mut self, other: Line)
        ensures
            final(self)@ == fragments_of(line_text(old(self)@) + line_text(other@)),
            line_text(final(self)@) == line_text(old(self)@) + line_text(other@),
            clusters_nonempty(final(self)@),
            is_segmented(final(self)@),
    {
        let mut new_string = String::new();
        self.push_text(&mut new_string);
        other.push_text(&mut new_string);
        assert(Seq::<char>::empty() + line_text(self@) + line_text(other@) =~= line_text(self@)
            + line_text(other@));
        self.fragments = Self::str_to_fragments(new_string.as_str());
    }
}

} // verus!
