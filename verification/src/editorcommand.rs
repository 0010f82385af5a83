//! The commands the editor understands.
use vstd::prelude::*;

use crate::event::{Event, KeyCode, CONTROL, NONE, SHIFT};
use crate::terminal::Size;
use crate::text::{char_debug, debug_char, debug_str, str_debug};

verus! {

/// A direction for the caret to move in.
#[derive(Copy, Clone, Debug, PartialEq, Eq, Structural)]
pub enum Direction {
    PageUp,
    PageDown,
    Home,
    End,
    Up,
    Left,
    Right,
    Down,
}

/// A command for the editor.
#[derive(Copy, Clone, Debug, PartialEq, Eq, Structural)]
pub enum EditorCommand {
    Move(Direction),
    Resize(Size),
    Insert(char),
    Enter,
    Delete,
    Backspace,
    Quit,
}

/// The name a key is reported by in messages.
pub open spec fn key_name(code: KeyCode) -> Seq<char> {
    match code {
        KeyCode::Char(c) => "Char("@ + char_debug(c) + ")"@,
        KeyCode::Other(name) => name@,
        KeyCode::Backspace => "Backspace"@,
        KeyCode::Enter => "Enter"@,
        KeyCode::Left => "Left"@,
        KeyCode::Right => "Right"@,
        KeyCode::Up => "Up"@,
        KeyCode::Down => "Down"@,
        KeyCode::Home => "Home"@,
        KeyCode::End => "End"@,
        KeyCode::PageUp => "PageUp"@,
        KeyCode::PageDown => "PageDown"@,
        KeyCode::Delete => "Delete"@,
    }
}

/// The command an event stands for, or the message saying why it stands
/// for none: Ctrl+Q quits, a character typed alone or with Shift is
/// inserted, the editing and arrow keys map to their commands, a resize
/// carries the new size; every other event is refused.
pub open spec fn command_of(event: Event) -> Result<EditorCommand, Seq<char>> {
    match event {
        Event::Key(key) => match key.code {
            KeyCode::Char(c) => if c == 'q' && key.modifiers == CONTROL {
                Ok(EditorCommand::Quit)
            } else if key.modifiers == NONE || key.modifiers == SHIFT {
                Ok(EditorCommand::Insert(c))
            } else {
                Err("Key Code not supported: "@ + key_name(key.code))
            },
            KeyCode::Enter => Ok(EditorCommand::Enter),
            KeyCode::Backspace => Ok(EditorCommand::Backspace),
            KeyCode::Delete => Ok(EditorCommand::Delete),
            KeyCode::Up => Ok(EditorCommand::Move(Direction::Up)),
            KeyCode::Left => Ok(EditorCommand::Move(Direction::Left)),
            KeyCode::Right => Ok(EditorCommand::Move(Direction::Right)),
            KeyCode::Down => Ok(EditorCommand::Move(Direction::Down)),
            KeyCode::PageUp => Ok(EditorCommand::Move(Direction::PageUp)),
            KeyCode::PageDown => Ok(EditorCommand::Move(Direction::PageDown)),
            KeyCode::End => Ok(EditorCommand::Move(Direction::End)),
            KeyCode::Home => Ok(EditorCommand::Move(Direction::Home)),
            KeyCode::Other(name) => Err("Key Code not supported: "@ + name@),
        },
        Event::FocusGained => Err("FocusGained not supported"@),
        Event::FocusLost => Err("FocusLost not supported"@),
        Event::Paste(text) => Err("Paste not suported:"@ + str_debug(text@)),
        Event::Resize(width, height) => Ok(
            EditorCommand::Resize(Size { height: height as usize, width: width as usize }),
        ),
        Event::Mouse => Err("Mouse event not supported"@),
    }
}

impl EditorCommand {
    /// The command an event stands for (see `command_of`).
    pub fn try_from(event: Event) -> (r: Result<Self, String>)
        ensures
            r matches Ok(c) ==> command_of(event) == Ok::<EditorCommand, Seq<char>>(c),
            r matches Err(e) ==> command_of(event) == Err::<EditorCommand, Seq<char>>(e@),
    {
        match event {
            Event::Key(key) => match key.code {
                KeyCode::Char(c) => {
                    if c == 'q' && key.modifiers == CONTROL {
                        Ok(Self::Quit)
                    } else if key.modifiers == NONE || key.modifiers == SHIFT {
                        Ok(Self::Insert(c))
                    } else {
                        let mut message = "Key Code not supported: ".to_owned();
                        message.append("Char(");
                        let shown = debug_char(c);
                        message.append(shown.as_str());
                        message.append(")");
                        proof {
                            assert(message@ =~= "Key Code not supported: "@ + key_name(key.code));
                        }
                        Err(message)
                    }
                },
                KeyCode::Enter => Ok(Self::Enter),
                KeyCode::Backspace => Ok(Self::Backspace),
                KeyCode::Delete => Ok(Self::Delete),
                KeyCode::Up => Ok(Self::Move(Direction::Up)),
                KeyCode::Left => Ok(Self::Move(Direction::Left)),
                KeyCode::Right => Ok(Self::Move(Direction::Right)),
                KeyCode::Down => Ok(Self::Move(Direction::Down)),
                KeyCode::PageUp => Ok(Self::Move(Direction::PageUp)),
                KeyCode::PageDown => Ok(Self::Move(Direction::PageDown)),
                KeyCode::End => Ok(Self::Move(Direction::End)),
                KeyCode::Home => Ok(Self::Move(Direction::Home)),
                KeyCode::Other(name) => {
                    let mut message = "Key Code not supported: ".to_owned();
                    message.append(name.as_str());
                    Err(message)
                },
            },
            Event::FocusGained => Err("FocusGained not supported".to_owned()),
            Event::FocusLost => Err("FocusLost not supported".to_owned()),
            Event::Paste(text) => {
                let mut message = "Paste not suported:".to_owned();
                let shown = debug_str(text.as_str());
                message.append(shown.as_str());
                Err(message)
            },
            Event::Resize(width_u16, height_u16) => {
                let height = height_u16 as usize;
                let width = width_u16 as usize;
                Ok(Self::Resize(Size { height, width }))
            },
            Event::Mouse => Err("Mouse event not supported".to_owned()),
        }
    }
}

} // verus!
