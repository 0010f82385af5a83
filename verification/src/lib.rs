//! A small terminal text editor: text buffer, grapheme-aware lines, caret
//! movement and screen layout, each function with a proved contract.

pub mod buffer;
pub mod documentstatus;
pub mod editor;
pub mod editorcommand;
pub mod event;
pub mod line;
pub mod location;
pub mod statusbar;
pub mod terminal;
pub mod text;
pub mod unicode;
pub mod view;
