//! The text being edited: a sequence of lines, whether it was changed, and
//! the file it belongs to.
use vstd::prelude::*;

use crate::line::{
    deleted_text, fragment_range_text, fragments_of, inserted_text, is_segmented, line_text,
    FragmentView, Line,
};
use crate::text::{concat_all, lemma_concat_push, push_char};

verus! {

/// The lines of a text as `str::lines` gives them: split at `\n`, with one
/// `\r` dropped before each `\n`; a final line ending is optional, and a
/// `\r` not followed by `\n` stays. `cur` is the line read so far.
pub open spec fn lines_from(s: Seq<char>, cur: Seq<char>) -> Seq<Seq<char>>
    decreases s.len(),
{
    if s.len() == 0 {
        if cur.len() == 0 {
            Seq::<Seq<char>>::empty()
        } else {
            seq![cur]
        }
    } else if s[0] == '\n' {
        seq![strip_cr(cur)] + lines_from(s.skip(1), Seq::<char>::empty())
    } else {
        lines_from(s.skip(1), cur.push(s[0]))
    }
}

/// A line without its final `\r`, if it has one.
pub open spec fn strip_cr(line: Seq<char>) -> Seq<char> {
    if line.len() > 0 && line.last() == '\r' {
        line.drop_last()
    } else {
        line
    }
}

/// The lines of a text (see `lines_from`).
pub open spec fn text_lines(s: Seq<char>) -> Seq<Seq<char>> {
    lines_from(s, Seq::<char>::empty())
}

/// The lines of a text, each as fragments.
pub open spec fn lines_of_text(s: Seq<char>) -> Seq<Seq<FragmentView>> {
    text_lines(s).map_values(|l: Seq<char>| fragments_of(l))
}

/// The text written for a sequence of lines: each line followed by `\n`.
pub open spec fn saved_text(lines: Seq<Seq<FragmentView>>) -> Seq<char>
    decreases lines.len(),
{
    if lines.len() == 0 {
        Seq::<char>::empty()
    } else {
        saved_text(lines.drop_last()) + line_text(lines.last()).push('\n')
    }
}

/// The text made of each of `texts` followed by `\n`.
pub open spec fn joined_lines(texts: Seq<Seq<char>>) -> Seq<char>
    decreases texts.len(),
{
    if texts.len() == 0 {
        Seq::<char>::empty()
    } else {
        joined_lines(texts.drop_last()) + texts.last().push('\n')
    }
}

/// The text holds no carriage return.
pub open spec fn has_no_cr(s: Seq<char>) -> bool {
    forall|i: int| 0 <= i < s.len() ==> s[i] != '\r'
}

proof fn lemma_joined_prepend(a: Seq<char>, rest: Seq<Seq<char>>)
    ensures
        joined_lines(seq![a] + rest) == a.push('\n') + joined_lines(rest),
    decreases rest.len(),
{
    if rest.len() == 0 {
        assert(seq![a] + rest =~= seq![a]);
        let single = seq![a];
        assert(single.drop_last() =~= Seq::<Seq<char>>::empty());
        assert(joined_lines(single.drop_last()) == Seq::<char>::empty());
        assert(single.last() == a);
        assert(joined_lines(single) =~= a.push('\n'));
        assert(a.push('\n') + joined_lines(rest) =~= a.push('\n'));
    } else {
        assert((seq![a] + rest).drop_last() =~= seq![a] + rest.drop_last());
        lemma_joined_prepend(a, rest.drop_last());
        assert((seq![a] + rest).last() == rest.last());
        assert(a.push('\n') + joined_lines(rest.drop_last()) + rest.last().push('\n') =~= a.push(
            '\n',
        ) + (joined_lines(rest.drop_last()) + rest.last().push('\n')));
    }
}

proof fn lemma_saved_text_joined(lines: Seq<Seq<FragmentView>>)
    ensures
        saved_text(lines) == joined_lines(lines.map_values(|l: Seq<FragmentView>| line_text(l))),
    decreases lines.len(),
{
    let texts = lines.map_values(|l: Seq<FragmentView>| line_text(l));
    if lines.len() > 0 {
        lemma_saved_text_joined(lines.drop_last());
        assert(texts.drop_last() =~= lines.drop_last().map_values(
            |l: Seq<FragmentView>| line_text(l),
        ));
    } else {
        assert(texts =~= Seq::<Seq<char>>::empty());
    }
}

proof fn lemma_lines_from_joined(s: Seq<char>, cur: Seq<char>)
    requires
        has_no_cr(s),
        has_no_cr(cur),
        s.len() == 0 ==> cur.len() == 0,
        s.len() > 0 ==> s.last() == '\n',
    ensures
        joined_lines(lines_from(s, cur)) == cur + s,
    decreases s.len(),
{
    if s.len() == 0 {
        assert(cur + s =~= Seq::<char>::empty());
    } else if s[0] == '\n' {
        let rest = s.skip(1);
        if rest.len() > 0 {
            assert(rest.last() == s.last());
        }
        lemma_lines_from_joined(rest, Seq::<char>::empty());
        if cur.len() > 0 {
            assert(cur.last() != '\r');
        }
        assert(strip_cr(cur) == cur);
        lemma_joined_prepend(cur, lines_from(rest, Seq::<char>::empty()));
        assert(cur.push('\n') + (Seq::<char>::empty() + rest) =~= cur + s);
    } else {
        let rest = s.skip(1);
        assert(rest.len() > 0 && rest.last() == s.last());
        lemma_lines_from_joined(rest, cur.push(s[0]));
        assert(cur.push(s[0]) + rest =~= cur + s);
    }
}

/// What putting `c` before grapheme `g` of line `l` makes of the lines `a`:
/// that line holds the new text, split into clusters afresh; on the line
/// just past the last, a new line holds `c`; further out, nothing changes.
pub open spec fn char_put(
    a: Seq<Seq<FragmentView>>,
    b: Seq<Seq<FragmentView>>,
    c: char,
    l: int,
    g: int,
) -> bool {
    if 0 <= l < a.len() {
        let t = inserted_text(a[l], c, g);
        &&& b == a.update(l, fragments_of(t))
        &&& line_text(b[l]) == t
        &&& is_segmented(b[l])
    } else if l == a.len() {
        &&& b == a.push(fragments_of(seq![c]))
        &&& line_text(b[l]) == seq![c]
        &&& is_segmented(b[l])
    } else {
        b == a
    }
}

/// What splitting line `l` at grapheme `g` makes of the lines `a`: the line
/// becomes its fragments `0..=g` and the next line holds its fragments
/// `g..=len-1` (see `Line::get_fragments`), each split into clusters afresh.
/// Past the last line, an empty line is appended; past the end of the line,
/// an empty line is put after it.
pub open spec fn line_split(
    a: Seq<Seq<FragmentView>>,
    b: Seq<Seq<FragmentView>>,
    l: int,
    g: int,
) -> bool {
    if l >= a.len() {
        &&& b == a.push(Seq::<FragmentView>::empty())
        &&& is_segmented(Seq::<FragmentView>::empty())
    } else if g > a[l].len() {
        &&& b == a.insert(l + 1, Seq::<FragmentView>::empty())
        &&& is_segmented(Seq::<FragmentView>::empty())
    } else {
        let left = fragment_range_text(a[l], 0, g);
        let right = fragment_range_text(a[l], g, a[l].len() - 1);
        &&& b == a.update(l, fragments_of(left)).insert(l + 1, fragments_of(right))
        &&& line_text(b[l]) == left
        &&& line_text(b[l + 1]) == right
        &&& is_segmented(b[l])
        &&& is_segmented(b[l + 1])
    }
}

/// What deleting at grapheme `g` of line `l` makes of the lines `a`: at the
/// end of the line (or past it) with a line after it, that line holds the
/// two lines' texts joined and the next line goes; inside the line, it holds
/// its text without fragment `g`; otherwise nothing changes. Edited lines are
/// split into clusters afresh.
pub open spec fn char_deleted(
    a: Seq<Seq<FragmentView>>,
    b: Seq<Seq<FragmentView>>,
    l: int,
    g: int,
) -> bool {
    if l < 0 || l >= a.len() {
        b == a
    } else if g >= a[l].len() && l + 1 < a.len() {
        let joined = line_text(a[l]) + line_text(a[l + 1]);
        &&& b == a.update(l, fragments_of(joined)).remove(l + 1)
        &&& line_text(b[l]) == joined
        &&& is_segmented(b[l])
    } else if g < a[l].len() {
        let t = deleted_text(a[l], g);
        &&& b == a.update(l, fragments_of(t))
        &&& line_text(b[l]) == t
        &&& is_segmented(b[l])
    } else {
        b == a
    }
}

/// Splitting line `l` at a grapheme `g` within it puts the two parts right
/// where the line was, at `l` and `l + 1`: the lines before it stay where
/// they are, every line after it moves down by one, the buffer grows by one
/// line. The first part holds the text of the line's fragments `0..=g`
/// (nothing where `g` is 0), the second that of its fragments `g..=len-1`
/// (nothing where `g` is at or past the last fragment).
pub proof fn lemma_split_keeps_line_order(
    a: Seq<Seq<FragmentView>>,
    b: Seq<Seq<FragmentView>>,
    l: int,
    g: int,
)
    requires
        0 <= l < a.len(),
        0 <= g <= a[l].len(),
        line_split(a, b, l, g),
    ensures
        b.len() == a.len() + 1,
        forall|k: int| 0 <= k < l ==> #[trigger] b[k] == a[k],
        forall|k: int| l < k < a.len() ==> #[trigger] b[k + 1] == a[k],
        g > 0 ==> line_text(b[l]) == line_text(a[l].take(
            if g + 1 < a[l].len() {
                g + 1
            } else {
                a[l].len() as int
            },
        )),
        g == 0 ==> line_text(b[l]) == Seq::<char>::empty(),
        g + 1 < a[l].len() ==> line_text(b[l + 1]) == line_text(a[l].skip(g)),
        g + 1 >= a[l].len() ==> line_text(b[l + 1]) == Seq::<char>::empty(),
{
    let f = a[l];
    let gs = crate::line::fragment_graphemes(f);
    let stop = if g + 1 < f.len() {
        g + 1
    } else {
        f.len() as int
    };
    assert(crate::line::fragment_graphemes(f.take(stop)) =~= gs.subrange(0, stop));
    if g + 1 < f.len() {
        assert(crate::line::fragment_graphemes(f.skip(g)) =~= gs.subrange(g, f.len() as int));
    }
}

/// Every line is held as the clusters of its own text (see `is_segmented`).
pub open spec fn all_segmented(lines: Seq<Seq<FragmentView>>) -> bool {
    forall|i: int| 0 <= i < lines.len() ==> is_segmented(#[trigger] lines[i])
}

/// Splitting a line at its start or at its end and then deleting at the
/// split point gives back the texts of all the lines, and the lines
/// themselves where the split line is held as the clusters of its text. At
/// the start this fails for a line of one fragment, which the split empties
/// (its fragments `0..=0` and `0..=0` are both taken as empty ranges).
pub proof fn lemma_join_undoes_split(
    a: Seq<Seq<FragmentView>>,
    b: Seq<Seq<FragmentView>>,
    c: Seq<Seq<FragmentView>>,
    l: int,
    g: int,
)
    requires
        0 <= l < a.len(),
        g == a[l].len() || (g == 0 && a[l].len() != 1),
        g == a[l].len() && g > 0 ==> is_segmented(a[l]),
        line_split(a, b, l, g),
        char_deleted(b, c, l, g),
    ensures
        c.len() == a.len(),
        forall|k: int| 0 <= k < a.len() ==> line_text(#[trigger] c[k]) == line_text(a[k]),
        is_segmented(a[l]) ==> c == a,
{
    let len = a[l].len() as int;
    let gs = crate::line::fragment_graphemes(a[l]);
    if len > 0 {
        assert(gs.subrange(0, len) =~= gs);
    } else {
        assert(gs =~= Seq::<Seq<char>>::empty());
    }
    let whole = line_text(a[l]);
    if g == 0 {
        assert(fragment_range_text(a[l], 0, 0) =~= Seq::<char>::empty());
        assert(line_text(b[l]) == Seq::<char>::empty());
        crate::text::lemma_concat_len_nonempty(crate::line::fragment_graphemes(b[l]));
        assert(b[l].len() == 0);
        assert(fragment_range_text(a[l], 0, len - 1) == whole);
        assert(Seq::<char>::empty() + whole =~= whole);
    } else {
        assert(fragment_range_text(a[l], 0, g) == whole);
        assert(fragment_range_text(a[l], g, len - 1) =~= Seq::<char>::empty());
        assert(b[l] == a[l]);
        assert(whole + Seq::<char>::empty() =~= whole);
    }
    assert forall|k: int| 0 <= k < a.len() implies line_text(#[trigger] c[k]) == line_text(
        a[k],
    ) by {
        if k != l {
            assert(c[k] == a[k]);
        }
    }
    if is_segmented(a[l]) {
        assert(c =~= a);
    }
}

/// Saving a freshly loaded buffer writes back the file: where the texts of
/// `lines` are the lines of `contents` (as `Buffer::from_text` makes them),
/// and `contents` has no carriage return and is empty or ends with a line
/// ending, the text written for `lines` is `contents`.
pub proof fn lemma_save_after_load(lines: Seq<Seq<FragmentView>>, contents: Seq<char>)
    requires
        lines.len() == text_lines(contents).len(),
        forall|i: int| 0 <= i < lines.len() ==> line_text(#[trigger] lines[i]) == text_lines(contents)[i],
        has_no_cr(contents),
        contents.len() == 0 || contents.last() == '\n',
    ensures
        saved_text(lines) == contents,
{
    lemma_saved_text_joined(lines);
    assert(lines.map_values(|l: Seq<FragmentView>| line_text(l)) =~= text_lines(contents));
    lemma_lines_from_joined(contents, Seq::<char>::empty());
    assert(Seq::<char>::empty() + contents =~= contents);
}

/// The lines of a text, split as `str::lines` splits them.
pub fn split_lines(text: &str) -> (r: Vec<String>)
    ensures
        r@.map_values(|l: String| l@) == text_lines(text@),
{
    let mut out: Vec<String> = Vec::new();
    let mut cur = String::new();
    proof {
        assert(text@.skip(0) =~= text@);
        assert(out@.map_values(|l: String| l@) + text_lines(text@) =~= text_lines(text@));
    }
    for c in it: text.chars()
        invariant
            it.seq() == text@,
            out@.map_values(|l: String| l@) + lines_from(text@.skip(it.index() as int), cur@)
                == text_lines(text@),
    {
        let ghost rest = text@.skip(it.index() as int);
        proof {
            assert(rest[0] == c);
            assert(rest.skip(1) =~= text@.skip(it.index() + 1));
        }
        if c == '\n' {
            let line = strip_cr_string(cur);
            let ghost lv = line@;
            out.push(line);
            cur = String::new();
            proof {
                let before = out@.drop_last().map_values(|l: String| l@);
                assert(out@.map_values(|l: String| l@) =~= before.push(lv));
                assert(before.push(lv) + lines_from(rest.skip(1), Seq::<char>::empty()) =~= before
                    + (seq![lv] + lines_from(rest.skip(1), Seq::<char>::empty())));
            }
        } else {
            push_char(&mut cur, c);
        }
    }
    proof {
        assert(text@.skip(text@.len() as int) =~= Seq::<char>::empty());
    }
    if cur.as_str().unicode_len() > 0 {
        let ghost cv = cur@;
        out.push(cur);
        proof {
            let before = out@.drop_last().map_values(|l: String| l@);
            assert(out@.map_values(|l: String| l@) =~= before + seq![cv]);
        }
    } else {
        proof {
            let v = out@.map_values(|l: String| l@);
            assert(v + Seq::<Seq<char>>::empty() =~= v);
        }
    }
    out
}

/// `line` without its final `\r`, if it has one.
fn strip_cr_string(line: String) -> (r: String)
    ensures
        r@ == strip_cr(line@),
{
    let n = line.as_str().unicode_len();
    if n > 0 && line.as_str().get_char(n - 1) == '\r' {
        line.as_str().substring_char(0, n - 1).to_owned()
    } else {
        line
    }
}

/// A text being edited.
pub struct Buffer {
    pub lines: Vec<Line>,
    pub modified: bool,
    pub file_name: Option<String>,
}

impl Default for Buffer {
    fn default() -> (r: Self)
        ensures
            r.lines@.len() == 0,
            all_segmented(r.lines_view()),
            !r.modified,
            r.file_name is None,
    {
        Buffer { lines: Vec::new(), modified: false, file_name: None }
    }
}

impl Buffer {
    /// The lines, each as fragments.
    pub open spec fn lines_view(&self) -> Seq<Seq<FragmentView>> {
        self.lines@.map_values(|l: Line| l@)
    }

    /// The buffer holding the contents of the file `file_name`: one line per
    /// line of the text, unmodified.
    pub fn from_text(file_name: &str, contents: &str) -> (r: Self)
        ensures
            r.lines_view() == lines_of_text(contents@),
            r.lines_view().len() == text_lines(contents@).len(),
            forall|i: int|
                0 <= i < r.lines_view().len() ==> line_text(#[trigger] r.lines_view()[i])
                    == text_lines(contents@)[i],
            all_segmented(r.lines_view()),
            !r.modified,
            r.file_name matches Some(f) && f@ == file_name@,
    {
        let texts = split_lines(contents);
        let mut lines: Vec<Line> = Vec::new();
        let n = texts.len();
        let mut i: usize = 0;
        while i < n
            invariant
                n == texts@.len(),
                i <= n,
                texts@.map_values(|l: String| l@) == text_lines(contents@),
                lines@.len() == i,
                forall|j: int| 0 <= j < i ==> (#[trigger] lines@[j])@ == fragments_of(texts@[j]@),
                forall|j: int| 0 <= j < i ==> line_text((#[trigger] lines@[j])@) == texts@[j]@,
                forall|j: int| 0 <= j < i ==> is_segmented((#[trigger] lines@[j])@),
            decreases n - i,
        {
            proof {
                assert(texts@.map_values(|l: String| l@)[i as int] == texts@[i as int]@);
            }
            lines.push(Line::from(texts[i].as_str()));
            i = i + 1;
        }
        let r = Buffer { lines, modified: false, file_name: Some(file_name.to_owned()) };
        assert(r.lines_view() =~= lines_of_text(contents@)) by {
            assert forall|j: int| 0 <= j < r.lines@.len() implies r.lines_view()[j]
                == lines_of_text(contents@)[j] by {
                assert(texts@.map_values(|l: String| l@)[j] == texts@[j]@);
            }
        }
        assert forall|j: int| 0 <= j < r.lines_view().len() implies line_text(
            #[trigger] r.lines_view()[j],
        ) == text_lines(contents@)[j] by {
            assert(texts@.map_values(|l: String| l@)[j] == texts@[j]@);
        }
        r
    }

    /// The text written to a file: every line followed by `\n`.
    pub fn save_text(&self) -> (r: String)
        ensures
            r@ == saved_text(self.lines_view()),
    {
        let mut s = String::new();
        let n = self.lines.len();
        let mut i: usize = 0;
        while i < n
            invariant
                n == self.lines@.len(),
                i <= n,
                s@ == saved_text(self.lines_view().take(i as int)),
            decreases n - i,
        {
            let text = self.lines[i].to_string();
            s.append(text.as_str());
            push_char(&mut s, '\n');
            proof {
                let lv = self.lines_view();
                assert(lv.take(i + 1).drop_last() =~= lv.take(i as int));
                assert(lv.take(i + 1).last() == lv[i as int]);
                assert(s@ =~= saved_text(lv.take(i as int)) + line_text(lv[i as int]).push('\n'));
            }
            i = i + 1;
        }
        assert(self.lines_view().take(n as int) =~= self.lines_view());
        s
    }

    /// The file to write to: the name given, else the buffer's own; `None`
    /// where there is neither.
    pub fn save_file_name(&self, file_name: Option<String>) -> (r: Option<String>)
        ensures
            file_name is Some ==> r == file_name,
            file_name is None ==> (r matches Some(n) <==> self.file_name is Some),
            file_name is None ==> (r matches Some(n) ==> self.file_name matches Some(f) && n@
                == f@),
    {
        match file_name {
            Some(name) => Some(name),
            None => match &self.file_name {
                Some(f) => Some(f.clone()),
                None => None,
            },
        }
    }

    /// Whether the buffer has no lines.
    pub fn is_empty(&self) -> (r: bool)
        ensures
            r == (self.lines@.len() == 0),
    {
        self.lines.is_empty()
    }

    /// Puts `character` into line `line_index` before grapheme
    /// `grapheme_index`; on the line just past the last, starts a new line
    /// holding it; further out, changes no line. Marks the buffer modified.
    pub fn insert_char(&mut self, character: char, line_index: usize, grapheme_index: usize)
        ensures
            char_put(
                old(self).lines_view(),
                final(self).lines_view(),
                character,
                line_index as int,
                grapheme_index as int,
            ),
            final(self).modified,
            final(self).file_name == old(self).file_name,
            all_segmented(old(self).lines_view()) ==> all_segmented(final(self).lines_view()),
    {
        if line_index < self.lines.len() {
            let mut line = Line::default();
            self.lines.set_and_swap(line_index, &mut line);
            line.insert_char(character, grapheme_index);
            self.lines.set_and_swap(line_index, &mut line);
            proof {
                assert(self.lines_view() =~= old(self).lines_view().update(
                    line_index as int,
                    fragments_of(
                        inserted_text(
                            old(self).lines_view()[line_index as int],
                            character,
                            grapheme_index as int,
                        ),
                    ),
                ));
            }
        } else if line_index == self.lines.len() {
            let mut line = Line::default();
            line.insert_char(character, 0);
            proof {
                let empty = Seq::<FragmentView>::empty();
                assert(crate::line::fragment_graphemes(empty) =~= Seq::<Seq<char>>::empty());
                assert(line_text(empty) == Seq::<char>::empty());
                assert(inserted_text(empty, character, 0) =~= seq![character]);
            }
            self.lines.push(line);
            proof {
                assert(self.lines_view() =~= old(self).lines_view().push(
                    fragments_of(seq![character]),
                ));
            }
        }
        self.modified = true;
    }

    /// Splits line `line_index` at `grapheme_index`: the line becomes its
    /// fragments `0..=grapheme_index` and the next line holds its fragments
    /// `grapheme_index..=len-1` (see `Line::get_fragments`). Past the last
    /// line, appends an empty line; past the end of the line, puts an empty
    /// line after it. Only the split marks the buffer modified.
    pub fn insert_line(&mut self, line_index: usize, grapheme_index: usize)
        ensures
            line_split(
                old(self).lines_view(),
                final(self).lines_view(),
                line_index as int,
                grapheme_index as int,
            ),
            final(self).modified == (old(self).modified || (line_index < old(self).lines@.len()
                && grapheme_index <= old(self).lines_view()[line_index as int].len())),
            final(self).file_name == old(self).file_name,
            all_segmented(old(self).lines_view()) ==> all_segmented(final(self).lines_view()),
    {
        if line_index >= self.lines.len() {
            let line = Line::default();
            self.lines.push(line);
            proof {
                assert(self.lines_view() =~= old(self).lines_view().push(
                    Seq::<FragmentView>::empty(),
                ));
            }
            return;
        }
        let line = &self.lines[line_index];
        let line_len = line.len();
        let line_end_index = line_len.saturating_sub(1);
        if grapheme_index > line_len {
            self.lines.insert(line_index + 1, Line::default());
            proof {
                assert(self.lines_view() =~= old(self).lines_view().insert(
                    line_index + 1,
                    Seq::<FragmentView>::empty(),
                ));
            }
            return;
        }
        let left_string = line.get_fragments(0..grapheme_index);
        let left = Line::from(left_string.as_str());
        let right_string = line.get_fragments(grapheme_index..line_end_index);
        let right = Line::from(right_string.as_str());
        proof {
            if line_len == 0 {
                assert(fragment_range_text(
                    old(self).lines_view()[line_index as int],
                    grapheme_index as int,
                    line_end_index as int,
                ) == fragment_range_text(
                    old(self).lines_view()[line_index as int],
                    grapheme_index as int,
                    -1,
                ));
            }
        }
        self.lines.set(line_index, left);
        self.lines.insert(line_index + 1, right);
        proof {
            let old_view = old(self).lines_view();
            let l = old_view[line_index as int];
            assert(self.lines_view() =~= old_view.update(
                line_index as int,
                fragments_of(fragment_range_text(l, 0, grapheme_index as int)),
            ).insert(
                line_index + 1,
                fragments_of(fragment_range_text(l, grapheme_index as int, l.len() - 1)),
            ));
        }
        self.modified = true;
    }

    /// At the end of line `line_index` (or past it) with a line after it,
    /// joins the next line onto it; inside the line, deletes the fragment at
    /// `grapheme_index`; otherwise changes no line. Marks the buffer modified
    /// unless `line_index` is past the last line.
    pub fn delete_char(&mut self, line_index: usize, grapheme_index: usize)
        ensures
            char_deleted(
                old(self).lines_view(),
                final(self).lines_view(),
                line_index as int,
                grapheme_index as int,
            ),
            final(self).modified == (old(self).modified || line_index < old(self).lines@.len()),
            final(self).file_name == old(self).file_name,
            all_segmented(old(self).lines_view()) ==> all_segmented(final(self).lines_view()),
    {
        if line_index >= self.lines.len() {
            return;
        }
        let line_len = self.lines[line_index].len();
        if grapheme_index >= line_len && self.lines.len() > line_index + 1 {
            let next_line = self.lines.remove(line_index + 1);
            let mut current_line = Line::default();
            self.lines.set_and_swap(line_index, &mut current_line);
            current_line.append_other(next_line);
            self.lines.set_and_swap(line_index, &mut current_line);
            proof {
                let old_view = old(self).lines_view();
                assert(self.lines_view() =~= old_view.update(
                    line_index as int,
                    fragments_of(
                        line_text(old_view[line_index as int]) + line_text(
                            old_view[line_index + 1],
                        ),
                    ),
                ).remove(line_index + 1));
            }
        } else if line_len > grapheme_index {
            let mut current_line = Line::default();
            self.lines.set_and_swap(line_index, &mut current_line);
            current_line.delete_char(grapheme_index);
            self.lines.set_and_swap(line_index, &mut current_line);
            proof {
                let old_view = old(self).lines_view();
                assert(self.lines_view() =~= old_view.update(
                    line_index as int,
                    fragments_of(deleted_text(old_view[line_index as int], grapheme_index as int)),
                ));
            }
        } else {
            proof {
                assert(self.lines_view() =~= old(self).lines_view());
            }
        }
        self.modified = true;
    }
}

} // verus!
