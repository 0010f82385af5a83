//! The editor's decisions: which input events it acts on, what they do, and
//! what a screen refresh draws.
use vstd::prelude::*;
use vstd::view::View as _;

use crate::editorcommand::{command_of, EditorCommand};
use crate::event::{Event, KeyEventKind};
use crate::terminal::Position;
use crate::view::{
    after_command, caret_position, command_ok, position_defined, rendered_row, View, ViewState,
};

verus! {

/// The editor: whether it is to quit, and its text area.
pub struct Editor {
    should_quit: bool,
    view: View,
}

/// The state of an editor, as mathematical values.
pub struct EditorState {
    pub should_quit: bool,
    pub view: ViewState,
}

/// What one screen refresh draws: the rows, top to bottom (none where
/// nothing needs drawing), and where the caret goes.
pub struct Frame {
    pub rows: Vec<String>,
    pub caret: Position,
}

/// Whether the editor acts on an event at all: key presses and resizes.
pub open spec fn is_processed(event: Event) -> bool {
    match event {
        Event::Key(key) => key.kind == KeyEventKind::Press,
        Event::Resize(_, _) => true,
        _ => false,
    }
}

/// The editor after an event: unprocessed and refused events change
/// nothing, Quit asks to quit, other commands go to the view.
pub open spec fn after_event(s: EditorState, event: Event) -> EditorState {
    if is_processed(event) {
        match command_of(event) {
            Ok(EditorCommand::Quit) => EditorState { should_quit: true, ..s },
            Ok(c) => EditorState { view: after_command(s.view, c), ..s },
            Err(_) => s,
        }
    } else {
        s
    }
}

/// The event can be acted on: the command it stands for, if the editor acts
/// on it, can be carried out by the view.
pub open spec fn event_ok(s: EditorState, event: Event) -> bool {
    is_processed(event) ==> match command_of(event) {
        Ok(EditorCommand::Quit) => true,
        Ok(c) => command_ok(s.view, c),
        Err(_) => true,
    }
}

/// Once the editor is to quit it stays so: no event takes that back.
pub proof fn lemma_quit_is_final(s: EditorState, event: Event)
    requires
        s.should_quit,
    ensures
        after_event(s, event).should_quit,
{
}

/// No event edits the text: the lines, whether they were changed and the
/// file name are as they were, and so is the scroll offset.
pub proof fn lemma_event_keeps_text(s: EditorState, event: Event)
    ensures
        after_event(s, event).view.lines == s.view.lines,
        after_event(s, event).view.modified == s.view.modified,
        after_event(s, event).view.file_name == s.view.file_name,
        after_event(s, event).view.scroll_offset == s.view.scroll_offset,
{
    if is_processed(event) {
        if let Ok(c) = command_of(event) {
            crate::view::lemma_command_keeps_text(s.view, c);
        }
    }
}

impl vstd::view::View for Editor {
    type V = EditorState;

    closed spec fn view(&self) -> EditorState {
        EditorState { should_quit: self.should_quit, view: self.view@ }
    }
}

impl Editor {
    /// An editor showing `view`, not quitting.
    pub fn new(view: View) -> (r: Self)
        ensures
            r@ == (EditorState { should_quit: false, view: view@ }),
    {
        Editor { should_quit: false, view }
    }

    /// Whether the editor is to quit.
    pub fn should_quit(&self) -> (r: bool)
        ensures
            r == self@.should_quit,
    {
        self.should_quit
    }

    /// Whether `event` can be acted on (see `event_ok`).
    pub fn can_evaluate(&self, event: Event) -> (r: bool)
        ensures
            r == event_ok(self@, event),
    {
        let should_process = match &event {
            Event::Key(key) => key.kind == KeyEventKind::Press,
            Event::Resize(_, _) => true,
            _ => false,
        };
        if !should_process {
            return true;
        }
        match EditorCommand::try_from(event) {
            Ok(command) => {
                if matches!(command, EditorCommand::Quit) {
                    true
                } else {
                    self.view.can_handle(&command)
                }
            },
            Err(_) => true,
        }
    }

    /// Acts on an input event (see `after_event`); returns the message of
    /// an event that the editor acts on but that stands for no command.
    pub fn evaluate_event(&mut self, event: Event) -> (r: Result<(), String>)
        requires
            event_ok(old(self)@, event),
        ensures
            final(self)@ == after_event(old(self)@, event),
            r matches Err(e) <==> is_processed(event) && command_of(event) is Err,
            r matches Err(e) ==> command_of(event) == Err::<EditorCommand, Seq<char>>(e@),
    {
        let should_process = match &event {
            Event::Key(key) => key.kind == KeyEventKind::Press,
            Event::Resize(_, _) => true,
            _ => false,
        };
        if should_process {
            match EditorCommand::try_from(event) {
                Ok(command) => {
                    if matches!(command, EditorCommand::Quit) {
                        self.should_quit = true;
                    } else {
                        self.view.handle_command(command);
                    }
                    Ok(())
                },
                Err(err) => Err(err),
            }
        } else {
            Ok(())
        }
    }

    /// Whether the caret has a screen position, so that a refresh can place it.
    pub fn can_refresh(&self) -> (r: bool)
        ensures
            r == position_defined(self@.view.lines, self@.view.location),
    {
        self.view.caret_has_position()
    }

    /// What to draw: the view's rows (see `View::render`) and the caret's
    /// screen position.
    pub fn refresh_screen(&mut self) -> (r: Frame)
        requires
            position_defined(old(self)@.view.lines, old(self)@.view.location),
        ensures
            r.caret == caret_position(old(self)@.view.lines, old(self)@.view.location),
            !old(self)@.view.needs_redraw || old(self)@.view.size.height == 0
                || old(self)@.view.size.width == 0 ==> r.rows@.len() == 0 && final(self)@ == old(self)@,
            old(self)@.view.needs_redraw && old(self)@.view.size.height > 0
                && old(self)@.view.size.width > 0 ==> r.rows@.len() == old(self)@.view.size.height
                && (forall|i: int|
                0 <= i < r.rows@.len() ==> (#[trigger] r.rows@[i])@ == rendered_row(
                    old(self)@.view.lines,
                    old(self)@.view.scroll_offset,
                    old(self)@.view.size,
                    i as usize,
                )) && final(self)@ == (EditorState {
                view: ViewState { needs_redraw: false, ..old(self)@.view },
                ..old(self)@
            }),
    {
        let rows = self.view.render();
        let caret = self.view.text_location_to_position();
        Frame { rows, caret }
    }
}

} // verus!
