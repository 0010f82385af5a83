use hecto::editor::Editor;
use hecto::editorcommand::{Direction, EditorCommand};
use hecto::event::{Event, KeyCode, KeyEvent, KeyEventKind, CONTROL, NONE, SHIFT};
use hecto::location::Location;
use hecto::terminal::{Position, Size, Terminal};
use hecto::view::View;

fn key(code: KeyCode, modifiers: u8) -> Event {
    Event::Key(KeyEvent { code, modifiers, kind: KeyEventKind::Press })
}

fn editor_with(text: &str, height: usize, width: usize) -> Editor {
    let mut view = View::new(Size { height, width });
    view.load("notes.txt", Some(text));
    Editor::new(view)
}

fn evaluate(editor: &mut Editor, event: Event) -> Result<(), String> {
    assert!(editor.can_evaluate(event.clone()));
    editor.evaluate_event(event)
}

#[test]
fn ctrl_q_quits() {
    let mut editor = editor_with("ab\n", 3, 10);
    assert!(!editor.should_quit());
    assert_eq!(evaluate(&mut editor, key(KeyCode::Char('q'), CONTROL)), Ok(()));
    assert!(editor.should_quit());
}

#[test]
fn released_keys_are_ignored() {
    let mut editor = editor_with("ab\n", 3, 10);
    let event = Event::Key(KeyEvent {
        code: KeyCode::Char('q'),
        modifiers: CONTROL,
        kind: KeyEventKind::Release,
    });
    assert_eq!(evaluate(&mut editor, event), Ok(()));
    assert!(!editor.should_quit());
}

#[test]
fn focus_mouse_and_paste_are_ignored() {
    let mut editor = editor_with("ab\n", 3, 10);
    for event in [
        Event::FocusGained,
        Event::FocusLost,
        Event::Mouse,
        Event::Paste("x".to_string()),
    ] {
        assert_eq!(evaluate(&mut editor, event), Ok(()));
    }
    assert!(!editor.should_quit());
}

#[test]
fn unsupported_keys_are_reported() {
    let mut editor = editor_with("ab\n", 3, 10);
    assert_eq!(
        evaluate(&mut editor, key(KeyCode::Char('x'), CONTROL)),
        Err("Key Code not supported: Char('x')".to_string())
    );
    assert_eq!(
        evaluate(&mut editor, key(KeyCode::Other("Esc".to_string()), NONE)),
        Err("Key Code not supported: Esc".to_string())
    );
    assert!(!editor.should_quit());
}

#[test]
fn refresh_draws_rows_and_places_the_caret() {
    let mut editor = editor_with("ab\ncd\n", 3, 10);
    assert!(editor.can_refresh());
    let frame = editor.refresh_screen();
    assert_eq!(frame.rows, vec!["ab", "cd", "~"]);
    assert_eq!(frame.caret, Position { col: 0, row: 0 });
    let frame = editor.refresh_screen();
    assert!(frame.rows.is_empty());
}

#[test]
fn arrow_keys_move_the_caret() {
    let mut editor = editor_with("ab\ncd\n", 3, 10);
    editor.refresh_screen();
    assert_eq!(evaluate(&mut editor, key(KeyCode::Down, NONE)), Ok(()));
    assert_eq!(evaluate(&mut editor, key(KeyCode::End, SHIFT)), Ok(()));
    let frame = editor.refresh_screen();
    assert_eq!(frame.caret, Position { col: 2, row: 1 });
    assert_eq!(frame.rows, vec!["ab", "cd", "~"]);
}

#[test]
fn resize_event_redraws_at_the_new_size() {
    let mut editor = editor_with("abc\n", 2, 10);
    editor.refresh_screen();
    assert_eq!(evaluate(&mut editor, Event::Resize(2, 3)), Ok(()));
    let frame = editor.refresh_screen();
    assert_eq!(frame.rows, vec!["ab", "~", "~"]);
}

#[test]
fn typing_leaves_the_text_as_it_is() {
    let mut editor = editor_with("ab\n", 2, 10);
    editor.refresh_screen();
    for event in [
        key(KeyCode::Char('z'), NONE),
        key(KeyCode::Enter, NONE),
        key(KeyCode::Backspace, NONE),
        key(KeyCode::Delete, NONE),
    ] {
        assert_eq!(evaluate(&mut editor, event), Ok(()));
    }
    assert!(evaluate(&mut editor, Event::Resize(10, 2)).is_ok());
    assert_eq!(editor.refresh_screen().rows, vec!["ab", "~"]);
}

#[test]
fn moves_off_the_text_cannot_be_evaluated() {
    let editor = Editor::new(View::new(Size { height: 3, width: 40 }));
    assert!(!editor.can_refresh());
    assert!(!editor.can_evaluate(key(KeyCode::Down, NONE)));
    assert!(editor.can_evaluate(key(KeyCode::Char('q'), CONTROL)));
    let editor = editor_with("ab\ncd\n", 3, 10);
    assert!(editor.can_refresh());
    assert!(editor.can_evaluate(key(KeyCode::Down, NONE)));
    assert!(!editor.can_evaluate(key(KeyCode::PageDown, NONE)));
}

#[test]
fn command_for_each_key() {
    let cases = [
        (KeyCode::Enter, EditorCommand::Enter),
        (KeyCode::Backspace, EditorCommand::Backspace),
        (KeyCode::Delete, EditorCommand::Delete),
        (KeyCode::Up, EditorCommand::Move(Direction::Up)),
        (KeyCode::Left, EditorCommand::Move(Direction::Left)),
        (KeyCode::Right, EditorCommand::Move(Direction::Right)),
        (KeyCode::Down, EditorCommand::Move(Direction::Down)),
        (KeyCode::PageUp, EditorCommand::Move(Direction::PageUp)),
        (KeyCode::PageDown, EditorCommand::Move(Direction::PageDown)),
        (KeyCode::End, EditorCommand::Move(Direction::End)),
        (KeyCode::Home, EditorCommand::Move(Direction::Home)),
    ];
    for (code, command) in cases {
        assert_eq!(EditorCommand::try_from(key(code.clone(), CONTROL)), Ok(command));
        assert_eq!(EditorCommand::try_from(key(code, NONE)), Ok(command));
    }
}

#[test]
fn characters_typed_alone_or_with_shift_are_inserted() {
    assert_eq!(
        EditorCommand::try_from(key(KeyCode::Char('q'), CONTROL)),
        Ok(EditorCommand::Quit)
    );
    assert_eq!(
        EditorCommand::try_from(key(KeyCode::Char('q'), NONE)),
        Ok(EditorCommand::Insert('q'))
    );
    assert_eq!(
        EditorCommand::try_from(key(KeyCode::Char('Q'), SHIFT)),
        Ok(EditorCommand::Insert('Q'))
    );
    assert_eq!(
        EditorCommand::try_from(key(KeyCode::Char('Q'), SHIFT | CONTROL)),
        Err("Key Code not supported: Char('Q')".to_string())
    );
    assert_eq!(
        EditorCommand::try_from(key(KeyCode::Char('\u{e9}'), 4)),
        Err("Key Code not supported: Char('\u{e9}')".to_string())
    );
    assert_eq!(
        EditorCommand::try_from(key(KeyCode::Char('\n'), CONTROL)),
        Err("Key Code not supported: Char('\\n')".to_string())
    );
}

#[test]
fn other_events_are_refused_with_a_message() {
    assert_eq!(
        EditorCommand::try_from(Event::FocusGained),
        Err("FocusGained not supported".to_string())
    );
    assert_eq!(
        EditorCommand::try_from(Event::FocusLost),
        Err("FocusLost not supported".to_string())
    );
    assert_eq!(
        EditorCommand::try_from(Event::Mouse),
        Err("Mouse event not supported".to_string())
    );
    assert_eq!(
        EditorCommand::try_from(Event::Paste("a\"b".to_string())),
        Err("Paste not suported:\"a\\\"b\"".to_string())
    );
    assert_eq!(
        EditorCommand::try_from(key(KeyCode::Other("F(1)".to_string()), NONE)),
        Err("Key Code not supported: F(1)".to_string())
    );
}

#[test]
fn resize_event_carries_width_then_height() {
    assert_eq!(
        EditorCommand::try_from(Event::Resize(80, 24)),
        Ok(EditorCommand::Resize(Size { height: 24, width: 80 }))
    );
}

#[test]
fn location_subtract_floors_at_zero() {
    let a = Location { grapheme_index: 5, line_index: 2 };
    let b = Location { grapheme_index: 3, line_index: 7 };
    assert_eq!(a.subtract(&b), Location { grapheme_index: 2, line_index: 0 });
    assert_eq!(Location::origin(), Location { grapheme_index: 0, line_index: 0 });
}

#[test]
fn location_becomes_a_position() {
    let p = Position::from(Location { grapheme_index: 3, line_index: 4 });
    assert_eq!(p, Position { col: 3, row: 4 });
}

#[test]
fn terminal_coordinates_are_cut_to_sixteen_bits() {
    assert_eq!(Terminal::caret_coordinates(Position { col: 70000, row: 5 }), (65535, 5));
    assert_eq!(Terminal::caret_coordinates(Position { col: 65535, row: 65536 }), (65535, 65535));
    assert_eq!(Terminal::size_from(80, 24), Size { height: 24, width: 80 });
}

#[test]
fn defaults_are_at_the_origin() {
    assert_eq!(Size::default(), Size { height: 0, width: 0 });
    assert_eq!(Position::default(), Position { col: 0, row: 0 });
    assert_eq!(Location::default(), Location::origin());
}

#[test]
fn quitting_is_final() {
    let mut editor = editor_with("ab\ncd\n", 3, 10);
    assert!(evaluate(&mut editor, key(KeyCode::Char('q'), CONTROL)).is_ok());
    for event in [
        key(KeyCode::Down, NONE),
        Event::Resize(5, 5),
        key(KeyCode::Char('x'), CONTROL),
        Event::FocusLost,
    ] {
        let _ = evaluate(&mut editor, event);
        assert!(editor.should_quit());
    }
}
