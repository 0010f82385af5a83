//! The text area of the editor: the buffer, the caret's place in it, the
//! scroll offset, and what each screen row shows.
use vstd::prelude::*;
use vstd::view::View as _;

use crate::buffer::{lines_of_text, Buffer};
use crate::editorcommand::{Direction, EditorCommand};
use crate::line::{display_text, saturating_add_spec, width_until_spec, FragmentView};
use crate::location::{saturating_sub_spec, Location};
use crate::terminal::{Position, Size};
use crate::text::{char_to_string, push_char, repeat_char};

verus! {

/// The program's name, shown in the welcome message.
pub const NAME: &'static str = "hecto";

/// The program's version, shown in the welcome message.
pub const VERSION: &'static str = "0.1.0";

/// The number of fragments of line `i`, or 0 where there is no such line.
pub open spec fn line_len(lines: Seq<Seq<FragmentView>>, i: int) -> nat {
    if 0 <= i < lines.len() {
        lines[i].len()
    } else {
        0
    }
}

/// `loc` with grapheme index `g`.
pub open spec fn with_grapheme(loc: Location, g: usize) -> Location {
    Location { grapheme_index: g, line_index: loc.line_index }
}

/// `loc` with line index `l`.
pub open spec fn with_line(loc: Location, l: usize) -> Location {
    Location { grapheme_index: loc.grapheme_index, line_index: l }
}

/// The grapheme index clamped to the length of the caret's line; 0 where
/// the caret is past the last line.
pub open spec fn snapped_grapheme(lines: Seq<Seq<FragmentView>>, loc: Location) -> usize {
    if loc.line_index < lines.len() {
        if lines[loc.line_index as int].len() < loc.grapheme_index {
            lines[loc.line_index as int].len() as usize
        } else {
            loc.grapheme_index
        }
    } else {
        0
    }
}

/// The line index clamped to the number of lines.
pub open spec fn snapped_line(lines: Seq<Seq<FragmentView>>, loc: Location) -> usize {
    if loc.line_index < lines.len() {
        loc.line_index
    } else {
        lines.len() as usize
    }
}

/// `loc` with its grapheme index snapped to its line.
pub open spec fn snap_grapheme_loc(lines: Seq<Seq<FragmentView>>, loc: Location) -> Location {
    with_grapheme(loc, snapped_grapheme(lines, loc))
}

/// The place that "End" moves to: the grapheme index becomes the length of
/// the line whose index is the current grapheme index (0 where there is no
/// such line); the line index stays.
pub open spec fn end_of_line_loc(lines: Seq<Seq<FragmentView>>, loc: Location) -> Location {
    with_grapheme(loc, line_len(lines, loc.grapheme_index as int) as usize)
}

/// `d` lines up (stopping at the first), grapheme index snapped.
pub open spec fn up_loc(lines: Seq<Seq<FragmentView>>, loc: Location, d: usize) -> Location {
    snap_grapheme_loc(lines, with_line(loc, saturating_sub_spec(loc.line_index, d)))
}

/// `d` lines down, grapheme index snapped, then the line index clamped to
/// the number of lines.
pub open spec fn down_loc(lines: Seq<Seq<FragmentView>>, loc: Location, d: usize) -> Location {
    let l = snap_grapheme_loc(lines, with_line(loc, saturating_add_spec(loc.line_index, d as int)));
    with_line(l, snapped_line(lines, l))
}

/// `d` graphemes left; where that passes the start of the line, first one
/// line up and to the "End" place, then the rest of the distance left.
pub open spec fn left_loc(lines: Seq<Seq<FragmentView>>, loc: Location, d: usize) -> Location {
    if loc.grapheme_index < d {
        let l = end_of_line_loc(lines, up_loc(lines, loc, 1));
        let x = (d - loc.grapheme_index) as usize;
        snap_grapheme_loc(lines, with_grapheme(l, saturating_sub_spec(l.grapheme_index, x)))
    } else {
        snap_grapheme_loc(lines, with_grapheme(loc, saturating_sub_spec(loc.grapheme_index, d)))
    }
}

/// "Right" by `d`: past the end of the line, to the start of the next line;
/// otherwise the grapheme index goes down by `d` (stopping at 0). Then
/// snapped.
pub open spec fn right_loc(lines: Seq<Seq<FragmentView>>, loc: Location, d: usize) -> Location {
    let l = if loc.grapheme_index > line_len(lines, loc.line_index as int) {
        down_loc(lines, with_grapheme(loc, 0), 1)
    } else {
        with_grapheme(loc, saturating_sub_spec(loc.grapheme_index, d))
    };
    snap_grapheme_loc(lines, l)
}

/// Where the caret goes for a move in `dir` on a screen of `height` rows.
pub open spec fn moved_location(
    lines: Seq<Seq<FragmentView>>,
    loc: Location,
    dir: Direction,
    height: usize,
) -> Location {
    match dir {
        Direction::Up => up_loc(lines, loc, 1),
        Direction::Down => down_loc(lines, loc, 1),
        Direction::Left => left_loc(lines, loc, 1),
        Direction::Right => right_loc(lines, loc, 1),
        Direction::PageUp => up_loc(lines, loc, saturating_sub_spec(height, 1)),
        Direction::PageDown => down_loc(lines, loc, saturating_sub_spec(height, 1)),
        Direction::Home => with_grapheme(loc, 0),
        Direction::End => end_of_line_loc(lines, loc),
    }
}

/// The caret at `loc` has a screen position: its line exists and the width
/// of the text before it fits in a `usize`.
pub open spec fn position_defined(lines: Seq<Seq<FragmentView>>, loc: Location) -> bool {
    &&& loc.line_index < lines.len()
    &&& width_until_spec(lines[loc.line_index as int], loc.grapheme_index as int) <= usize::MAX
}

/// The screen position of the caret at `loc`: the width of the text before
/// it, on the row of its line.
pub open spec fn caret_position(lines: Seq<Seq<FragmentView>>, loc: Location) -> Position {
    Position {
        col: width_until_spec(lines[loc.line_index as int], loc.grapheme_index as int) as usize,
        row: loc.line_index,
    }
}

/// The text of the welcome message.
pub open spec fn welcome_message_spec() -> Seq<char> {
    NAME@ + " editor -- version "@ + VERSION@
}

/// The padding before the welcome message on a screen `width` columns wide.
pub open spec fn welcome_padding(width: usize) -> nat {
    ((width - welcome_message_spec().len() - 1) / 2) as nat
}

/// The welcome row for a screen `width` columns wide: a blank where there
/// are no columns, `~` where the message does not fit, and otherwise `~`,
/// then padding that roughly centres it, then the message.
pub open spec fn welcome_row(width: usize) -> Seq<char> {
    if width == 0 {
        seq![' ']
    } else if width <= welcome_message_spec().len() {
        seq!['~']
    } else {
        seq!['~'] + repeat_char(' ', welcome_padding(width)) + welcome_message_spec()
    }
}

/// What screen row `row` shows: the visible columns of the line it shows,
/// the welcome message a third of the way down an empty buffer, else `~`.
pub open spec fn rendered_row(
    lines: Seq<Seq<FragmentView>>,
    scroll: Position,
    size: Size,
    row: usize,
) -> Seq<char> {
    let index = saturating_add_spec(row, scroll.row as int);
    if index < lines.len() {
        display_text(
            lines[index as int],
            scroll.col,
            saturating_add_spec(scroll.col, size.width as int),
        )
    } else if row == size.height / 3 && lines.len() == 0 {
        welcome_row(size.width)
    } else {
        seq!['~']
    }
}

/// A caret move never takes the caret past the line after the last: where
/// its line index is at most the number of lines before a move, so it is
/// after.
pub proof fn lemma_move_keeps_line_in_text(
    lines: Seq<Seq<FragmentView>>,
    loc: Location,
    dir: Direction,
    height: usize,
)
    requires
        lines.len() <= usize::MAX,
        loc.line_index <= lines.len(),
    ensures
        moved_location(lines, loc, dir, height).line_index <= lines.len(),
{
}

/// Every caret move but "End" leaves the caret within its line: where the
/// line exists after the move, the grapheme index is at most its length.
pub proof fn lemma_move_keeps_grapheme_in_line(
    lines: Seq<Seq<FragmentView>>,
    loc: Location,
    dir: Direction,
    height: usize,
)
    requires
        lines.len() <= usize::MAX,
        dir != Direction::End,
        moved_location(lines, loc, dir, height).line_index < lines.len(),
    ensures
        moved_location(lines, loc, dir, height).grapheme_index <= lines[moved_location(
            lines,
            loc,
            dir,
            height,
        ).line_index as int].len(),
{
}

/// The welcome row never runs past the right edge of a screen that has
/// columns, and where the message fits it stands roughly in the middle: the
/// columns left free after it are as many as the padding before it, or one
/// more.
pub proof fn lemma_welcome_row_fits(width: usize)
    requires
        width > 0,
    ensures
        welcome_row(width).len() <= width,
        width > welcome_message_spec().len() ==> width - welcome_row(width).len()
            == welcome_padding(width) || width - welcome_row(width).len() == welcome_padding(width)
            + 1,
{
    if width > welcome_message_spec().len() {
        let n = welcome_message_spec().len();
        assert((width - n - 1) / 2 <= width - n - 1);
        assert(welcome_row(width).len() == 1 + welcome_padding(width) + n);
    }
}

/// The state of a view, as mathematical values.
pub struct ViewState {
    pub lines: Seq<Seq<FragmentView>>,
    pub modified: bool,
    pub file_name: Option<Seq<char>>,
    pub needs_redraw: bool,
    pub size: Size,
    pub location: Location,
    pub scroll_offset: Position,
}

/// The state after a command: the caret moved (and a redraw requested
/// where it left the scroll offset), or the size changed (and a redraw
/// requested); other commands change nothing.
pub open spec fn after_command(s: ViewState, command: EditorCommand) -> ViewState {
    match command {
        EditorCommand::Move(d) => {
            let loc = moved_location(s.lines, s.location, d, s.size.height);
            let p = caret_position(s.lines, loc);
            ViewState {
                location: loc,
                needs_redraw: s.needs_redraw || p.row != s.scroll_offset.row || p.col
                    != s.scroll_offset.col,
                ..s
            }
        },
        EditorCommand::Resize(size) => ViewState { size, needs_redraw: true, ..s },
        _ => s,
    }
}

/// The command can be carried out: after it the caret has a screen
/// position (for a move or a resize); other commands always can.
pub open spec fn command_ok(s: ViewState, command: EditorCommand) -> bool {
    match command {
        EditorCommand::Move(d) => position_defined(
            s.lines,
            moved_location(s.lines, s.location, d, s.size.height),
        ),
        EditorCommand::Resize(_) => position_defined(s.lines, s.location),
        _ => true,
    }
}

/// A command never edits the text or scrolls: the lines, whether they were
/// changed, the file name and the scroll offset are as they were.
pub proof fn lemma_command_keeps_text(s: ViewState, command: EditorCommand)
    ensures
        after_command(s, command).lines == s.lines,
        after_command(s, command).modified == s.modified,
        after_command(s, command).file_name == s.file_name,
        after_command(s, command).scroll_offset == s.scroll_offset,
{
}

/// Up and Down move the caret one line and keep its grapheme index where the
/// line it reaches is long enough; where that line is shorter, the caret
/// goes to its end. Nothing but the caret's place (and the redraw request)
/// changes.
pub proof fn lemma_vertical_moves_keep_column(s: ViewState)
    requires
        s.lines.len() <= usize::MAX,
    ensures
        0 < s.location.line_index && s.location.line_index - 1 < s.lines.len() ==> after_command(
            s,
            EditorCommand::Move(Direction::Up),
        ).location == (Location {
            grapheme_index: if s.location.grapheme_index <= s.lines[s.location.line_index - 1].len() {
                s.location.grapheme_index
            } else {
                s.lines[s.location.line_index - 1].len() as usize
            },
            line_index: (s.location.line_index - 1) as usize,
        }),
        s.location.line_index + 1 < s.lines.len() ==> after_command(
            s,
            EditorCommand::Move(Direction::Down),
        ).location == (Location {
            grapheme_index: if s.location.grapheme_index <= s.lines[s.location.line_index + 1].len() {
                s.location.grapheme_index
            } else {
                s.lines[s.location.line_index + 1].len() as usize
            },
            line_index: (s.location.line_index + 1) as usize,
        }),
        after_command(s, EditorCommand::Move(Direction::Up)).lines == s.lines,
        after_command(s, EditorCommand::Move(Direction::Down)).size == s.size,
{
}

/// The text area of the editor.
pub struct View {
    buffer: Buffer,
    needs_redraw: bool,
    size: Size,
    location: Location,
    scroll_offset: Position,
}

impl vstd::view::View for View {
    type V = ViewState;

    closed spec fn view(&self) -> ViewState {
        ViewState {
            lines: self.buffer.lines_view(),
            modified: self.buffer.modified,
            file_name: match self.buffer.file_name {
                Some(f) => Some(f@),
                None => None,
            },
            needs_redraw: self.needs_redraw,
            size: self.size,
            location: self.location,
            scroll_offset: self.scroll_offset,
        }
    }
}

impl View {
    /// An empty view on a screen of `size`, caret and scroll at the origin,
    /// a redraw pending.
    pub fn new(size: Size) -> (r: Self)
        ensures
            r@.lines.len() == 0,
            !r@.modified,
            r@.file_name is None,
            r@.needs_redraw,
            r@.size == size,
            r@.location == (Location { grapheme_index: 0, line_index: 0 }),
            r@.scroll_offset == (Position { col: 0, row: 0 }),
    {
        let r = View {
            buffer: Buffer::default(),
            needs_redraw: true,
            size,
            location: Location::origin(),
            scroll_offset: Position { col: 0, row: 0 },
        };
        assert(r@.lines =~= Seq::<Seq<FragmentView>>::empty());
        r
    }

    /// Whether `command` can be carried out (see `command_ok`).
    pub fn can_handle(&self, command: &EditorCommand) -> (r: bool)
        ensures
            r == command_ok(self@, *command),
    {
        match command {
            EditorCommand::Move(direction) => {
                let loc = self.location_after(direction);
                self.has_position(loc)
            },
            EditorCommand::Resize(_) => self.has_position(self.location),
            _ => true,
        }
    }

    /// Whether the caret has a screen position.
    pub fn caret_has_position(&self) -> (r: bool)
        ensures
            r == position_defined(self@.lines, self@.location),
    {
        self.has_position(self.location)
    }

    /// Whether the caret at `loc` would have a screen position.
    fn has_position(&self, loc: Location) -> (r: bool)
        ensures
            r == position_defined(self@.lines, loc),
    {
        if loc.line_index >= self.buffer.lines.len() {
            return false;
        }
        self.buffer.lines[loc.line_index].width_fits(loc.grapheme_index)
    }

    /// Carries out a command: moves the caret or takes a new size; other
    /// commands change nothing.
    pub fn handle_command(&mut self, command: EditorCommand)
        requires
            command_ok(old(self)@, command),
        ensures
            final(self)@ == after_command(old(self)@, command),
    {
        match command {
            EditorCommand::Move(direction) => self.move_caret(&direction),
            EditorCommand::Resize(size) => self.resize(size),
            _ => {},
        }
    }

    /// The screen position of the caret.
    pub fn text_location_to_position(&self) -> (r: Position)
        requires
            position_defined(self@.lines, self@.location),
        ensures
            r == caret_position(self@.lines, self@.location),
    {
        let row = self.location.line_index;
        let line = &self.buffer.lines[row];
        let text_width = line.width_until(self.location.grapheme_index);
        Position { col: text_width, row }
    }

    /// Clamps the caret's grapheme index to its line.
    pub fn snap_to_valid_grapheme(&mut self)
        ensures
            final(self)@ == (ViewState {
                location: snap_grapheme_loc(old(self)@.lines, old(self)@.location),
                ..old(self)@
            }),
    {
        self.location = self.snapped(self.location);
    }

    /// Clamps the caret's line index to the number of lines.
    pub fn snap_to_valid_line(&mut self)
        ensures
            final(self)@ == (ViewState {
                location: with_line(
                    old(self)@.location,
                    snapped_line(old(self)@.lines, old(self)@.location),
                ),
                ..old(self)@
            }),
    {
        let n = self.buffer.lines.len();
        if n < self.location.line_index {
            self.location.line_index = n;
        }
    }

    /// Shows the file `file_name`, read as `contents`; where reading failed
    /// (`None`), keeps what is shown.
    pub fn load(&mut self, file_name: &str, contents: Option<&str>)
        ensures
            contents is None ==> final(self)@ == old(self)@,
            contents matches Some(c) ==> final(self)@ == (ViewState {
                lines: lines_of_text(c@),
                modified: false,
                file_name: Some(file_name@),
                needs_redraw: true,
                ..old(self)@
            }),
    {
        if let Some(text) = contents {
            let buffer = Buffer::from_text(file_name, text);
            self.buffer = buffer;
            self.needs_redraw = true;
        }
    }

    /// Takes a new screen size and asks for a redraw.
    pub fn resize(&mut self, to: Size)
        requires
            position_defined(old(self)@.lines, old(self)@.location),
        ensures
            final(self)@ == (ViewState { size: to, needs_redraw: true, ..old(self)@ }),
    {
        self.size = to;
        self.scroll_view_location();
        self.needs_redraw = true;
    }

    /// The rows to draw, top to bottom, where a redraw is pending and the
    /// screen has rows and columns; none otherwise. Drawing clears the
    /// pending redraw.
    pub fn render(&mut self) -> (r: Vec<String>)
        ensures
            !old(self)@.needs_redraw || old(self)@.size.height == 0 || old(self)@.size.width == 0
                ==> r@.len() == 0 && final(self)@ == old(self)@,
            old(self)@.needs_redraw && old(self)@.size.height > 0 && old(self)@.size.width > 0
                ==> r@.len() == old(self)@.size.height && (forall|i: int|
                0 <= i < r@.len() ==> (#[trigger] r@[i])@ == rendered_row(
                    old(self)@.lines,
                    old(self)@.scroll_offset,
                    old(self)@.size,
                    i as usize,
                )) && final(self)@ == (ViewState { needs_redraw: false, ..old(self)@ }),
    {
        if !self.needs_redraw {
            return Vec::new();
        }
        let height = self.size.height;
        let width = self.size.width;
        if height == 0 || width == 0 {
            return Vec::new();
        }
        let vertical_center = height / 3;
        let top = self.scroll_offset.row;
        let mut rows: Vec<String> = Vec::new();
        let mut current_row: usize = 0;
        while current_row < height
            invariant
                height == self.size.height,
                width == self.size.width,
                width > 0,
                vertical_center == height / 3,
                top == self.scroll_offset.row,
                current_row <= height,
                rows@.len() == current_row,
                self@ == old(self)@,
                forall|i: int|
                    0 <= i < current_row ==> (#[trigger] rows@[i])@ == rendered_row(
                        self@.lines,
                        self@.scroll_offset,
                        self@.size,
                        i as usize,
                    ),
            decreases height - current_row,
        {
            let index = current_row.saturating_add(top);
            if index < self.buffer.lines.len() {
                let left = self.scroll_offset.col;
                let right = self.scroll_offset.col.saturating_add(width);
                rows.push(self.buffer.lines[index].get_display_graphemes(left..right));
            } else if current_row == vertical_center && self.buffer.is_empty() {
                rows.push(Self::build_welcome_message(width));
            } else {
                rows.push(char_to_string('~'));
            }
            current_row = current_row + 1;
        }
        self.needs_redraw = false;
        rows
    }

    /// The caret's place after a move in `direction`.
    fn location_after(&self, direction: &Direction) -> (r: Location)
        ensures
            r == moved_location(self@.lines, self@.location, *direction, self@.size.height),
    {
        let height = self.size.height;
        let loc = self.location;
        match direction {
            Direction::Up => self.up_from(loc, 1),
            Direction::Down => self.down_from(loc, 1),
            Direction::Left => self.left_from(loc, 1),
            Direction::Right => self.right_from(loc, 1),
            Direction::PageUp => self.up_from(loc, height.saturating_sub(1)),
            Direction::PageDown => self.down_from(loc, height.saturating_sub(1)),
            Direction::Home => Location { grapheme_index: 0, line_index: loc.line_index },
            Direction::End => self.end_of_line_from(loc),
        }
    }

    fn snapped(&self, loc: Location) -> (r: Location)
        ensures
            r == snap_grapheme_loc(self@.lines, loc),
    {
        let col = loc.grapheme_index;
        let grapheme_index = if loc.line_index < self.buffer.lines.len() {
            let len = self.buffer.lines[loc.line_index].len();
            if len < col {
                len
            } else {
                col
            }
        } else {
            0
        };
        Location { grapheme_index, line_index: loc.line_index }
    }

    fn end_of_line_from(&self, loc: Location) -> (r: Location)
        ensures
            r == end_of_line_loc(self@.lines, loc),
    {
        let width = if loc.grapheme_index < self.buffer.lines.len() {
            self.buffer.lines[loc.grapheme_index].len()
        } else {
            0
        };
        Location { grapheme_index: width, line_index: loc.line_index }
    }

    fn up_from(&self, loc: Location, distance: usize) -> (r: Location)
        ensures
            r == up_loc(self@.lines, loc, distance),
    {
        let line_index = loc.line_index.saturating_sub(distance);
        self.snapped(Location { grapheme_index: loc.grapheme_index, line_index })
    }

    fn down_from(&self, loc: Location, distance: usize) -> (r: Location)
        ensures
            r == down_loc(self@.lines, loc, distance),
    {
        let line_index = loc.line_index.saturating_add(distance);
        let l = self.snapped(Location { grapheme_index: loc.grapheme_index, line_index });
        let n = self.buffer.lines.len();
        let line_index = if l.line_index < n {
            l.line_index
        } else {
            n
        };
        Location { grapheme_index: l.grapheme_index, line_index }
    }

    fn left_from(&self, loc: Location, distance: usize) -> (r: Location)
        ensures
            r == left_loc(self@.lines, loc, distance),
    {
        let mut l = loc;
        let mut x = distance;
        if loc.grapheme_index < distance {
            x = x.saturating_sub(loc.grapheme_index);
            l = self.up_from(l, 1);
            l = self.end_of_line_from(l);
        }
        let grapheme_index = l.grapheme_index.saturating_sub(x);
        self.snapped(Location { grapheme_index, line_index: l.line_index })
    }

    fn right_from(&self, loc: Location, distance: usize) -> (r: Location)
        ensures
            r == right_loc(self@.lines, loc, distance),
    {
        let line_size = if loc.line_index < self.buffer.lines.len() {
            self.buffer.lines[loc.line_index].len()
        } else {
            0
        };
        let l = if loc.grapheme_index > line_size {
            self.down_from(Location { grapheme_index: 0, line_index: loc.line_index }, 1)
        } else {
            Location {
                grapheme_index: loc.grapheme_index.saturating_sub(distance),
                line_index: loc.line_index,
            }
        };
        self.snapped(l)
    }

    fn move_to_end_of_line(&mut self)
        ensures
            final(self)@ == (ViewState {
                location: end_of_line_loc(old(self)@.lines, old(self)@.location),
                ..old(self)@
            }),
    {
        self.location = self.end_of_line_from(self.location);
    }

    fn move_to_start_of_line(&mut self)
        ensures
            final(self)@ == (ViewState {
                location: with_grapheme(old(self)@.location, 0),
                ..old(self)@
            }),
    {
        self.location.grapheme_index = 0;
    }

    fn move_up(&mut self, distance: usize)
        ensures
            final(self)@ == (ViewState {
                location: up_loc(old(self)@.lines, old(self)@.location, distance),
                ..old(self)@
            }),
    {
        self.location.line_index = self.location.line_index.saturating_sub(distance);
        self.snap_to_valid_grapheme();
    }

    fn move_down(&mut self, distance: usize)
        ensures
            final(self)@ == (ViewState {
                location: down_loc(old(self)@.lines, old(self)@.location, distance),
                ..old(self)@
            }),
    {
        self.location.line_index = self.location.line_index.saturating_add(distance);
        self.snap_to_valid_grapheme();
        self.snap_to_valid_line();
    }

    fn move_left(&mut self, distance: usize)
        ensures
            final(self)@ == (ViewState {
                location: left_loc(old(self)@.lines, old(self)@.location, distance),
                ..old(self)@
            }),
    {
        self.location = self.left_from(self.location, distance);
    }

    fn move_right(&mut self, distance: usize)
        ensures
            final(self)@ == (ViewState {
                location: right_loc(old(self)@.lines, old(self)@.location, distance),
                ..old(self)@
            }),
    {
        self.location = self.right_from(self.location, distance);
    }

    fn move_caret(&mut self, direction: &Direction)
        requires
            position_defined(
                old(self)@.lines,
                moved_location(
                    old(self)@.lines,
                    old(self)@.location,
                    *direction,
                    old(self)@.size.height,
                ),
            ),
        ensures
            final(self)@ == after_command(old(self)@, EditorCommand::Move(*direction)),
    {
        let height = self.size.height;
        match direction {
            Direction::Up => self.move_up(1),
            Direction::Down => self.move_down(1),
            Direction::Left => self.move_left(1),
            Direction::Right => self.move_right(1),
            Direction::PageUp => self.move_up(height.saturating_sub(1)),
            Direction::PageDown => self.move_down(height.saturating_sub(1)),
            Direction::Home => self.move_to_start_of_line(),
            Direction::End => self.move_to_end_of_line(),
        }
        self.scroll_view_location();
    }

    fn scroll_view_location(&mut self)
        requires
            position_defined(old(self)@.lines, old(self)@.location),
        ensures
            final(self)@ == (ViewState {
                needs_redraw: old(self)@.needs_redraw || caret_position(
                    old(self)@.lines,
                    old(self)@.location,
                ).row != old(self)@.scroll_offset.row || caret_position(
                    old(self)@.lines,
                    old(self)@.location,
                ).col != old(self)@.scroll_offset.col,
                ..old(self)@
            }),
    {
        let Position { col, row } = self.text_location_to_position();
        let mut offset_changed = false;
        if self.scroll_offset.row != row {
            offset_changed = true;
        }
        if self.scroll_offset.col != col {
            offset_changed = true;
        }
        self.needs_redraw = offset_changed || self.needs_redraw;
    }

    fn welcome_message() -> (r: String)
        ensures
            r@ == welcome_message_spec(),
    {
        let mut m = NAME.to_owned();
        m.append(" editor -- version ");
        m.append(VERSION);
        m
    }

    fn build_welcome_message(width: usize) -> (r: String)
        ensures
            r@ == welcome_row(width),
    {
        if width == 0 {
            return char_to_string(' ');
        }
        let welcome_message = Self::welcome_message();
        let len = welcome_message.as_str().unicode_len();
        if width <= len {
            return char_to_string('~');
        }
        let padding = (width.saturating_sub(len).saturating_sub(1)) / 2;
        let mut full_message = char_to_string('~');
        let mut i: usize = 0;
        while i < padding
            invariant
                i <= padding,
                full_message@ == seq!['~'] + repeat_char(' ', i as nat),
            decreases padding - i,
        {
            push_char(&mut full_message, ' ');
            proof {
                assert(seq!['~'] + repeat_char(' ', (i + 1) as nat) =~= (seq!['~'] + repeat_char(
                    ' ',
                    i as nat,
                )).push(' '));
            }
            i = i + 1;
        }
        full_message.append(welcome_message.as_str());
        full_message
    }
}

} // verus!
