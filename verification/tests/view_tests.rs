use hecto::editorcommand::{Direction, EditorCommand};
use hecto::terminal::{Position, Size};
use hecto::view::View;

fn view_with(text: &str, height: usize, width: usize) -> View {
    let mut view = View::new(Size { height, width });
    view.load("notes.txt", Some(text));
    view
}

fn caret(view: &View) -> Position {
    assert!(view.caret_has_position());
    view.text_location_to_position()
}

fn apply(view: &mut View, command: EditorCommand) {
    assert!(view.can_handle(&command));
    view.handle_command(command);
}

#[test]
fn empty_view_shows_the_welcome_message_a_third_down() {
    let mut view = View::new(Size { height: 3, width: 40 });
    let rows = view.render();
    assert_eq!(
        rows,
        vec!["~", "~     hecto editor -- version 0.1.0", "~"]
    );
    assert!(view.render().is_empty());
}

#[test]
fn welcome_message_too_wide_for_the_screen() {
    let mut view = View::new(Size { height: 6, width: 29 });
    let rows = view.render();
    assert_eq!(rows.len(), 6);
    assert!(rows.iter().all(|r| r == "~"));
}

#[test]
fn welcome_row_never_runs_past_the_screen() {
    for width in 1..80 {
        let mut view = View::new(Size { height: 3, width });
        let rows = view.render();
        assert!(rows[1].chars().count() <= width, "{width}");
    }
}

#[test]
fn nothing_drawn_on_an_empty_screen() {
    assert!(View::new(Size { height: 0, width: 10 }).render().is_empty());
    assert!(View::new(Size { height: 5, width: 0 }).render().is_empty());
}

#[test]
fn loaded_text_is_drawn_line_by_line() {
    let mut view = view_with("ab\ncd\n", 3, 10);
    assert_eq!(view.render(), vec!["ab", "cd", "~"]);
}

#[test]
fn lines_are_cut_to_the_screen_width() {
    let mut view = view_with("abcdef\n\u{4e2d}\u{6587}x\n", 2, 3);
    assert_eq!(view.render(), vec!["abc", "\u{4e2d}-"]);
}

#[test]
fn failed_read_keeps_the_view() {
    let mut view = View::new(Size { height: 3, width: 40 });
    view.load("missing.txt", None);
    let rows = view.render();
    assert_eq!(rows[1], "~     hecto editor -- version 0.1.0");
}

#[test]
fn caret_starts_at_the_origin() {
    let view = view_with("abc\n", 5, 10);
    assert_eq!(caret(&view), Position { col: 0, row: 0 });
}

#[test]
fn moving_down_and_up() {
    let mut view = view_with("abc\nde\nf\n", 5, 10);
    apply(&mut view, EditorCommand::Move(Direction::Down));
    assert_eq!(caret(&view), Position { col: 0, row: 1 });
    apply(&mut view, EditorCommand::Move(Direction::Down));
    assert_eq!(caret(&view), Position { col: 0, row: 2 });
    apply(&mut view, EditorCommand::Move(Direction::Up));
    assert_eq!(caret(&view), Position { col: 0, row: 1 });
    apply(&mut view, EditorCommand::Move(Direction::Up));
    apply(&mut view, EditorCommand::Move(Direction::Up));
    assert_eq!(caret(&view), Position { col: 0, row: 0 });
}

#[test]
fn moving_below_the_last_line_leaves_the_caret_without_a_position() {
    let mut view = view_with("abc\nde\n", 5, 10);
    apply(&mut view, EditorCommand::Move(Direction::Down));
    assert!(!view.can_handle(&EditorCommand::Move(Direction::Down)));
    assert!(view.can_handle(&EditorCommand::Move(Direction::Up)));
}

#[test]
fn end_uses_the_line_numbered_by_the_grapheme_index() {
    let mut view = view_with("abc\nde\n", 5, 10);
    apply(&mut view, EditorCommand::Move(Direction::End));
    assert_eq!(caret(&view), Position { col: 3, row: 0 });
    apply(&mut view, EditorCommand::Move(Direction::Home));
    assert_eq!(caret(&view), Position { col: 0, row: 0 });
    apply(&mut view, EditorCommand::Move(Direction::Down));
    apply(&mut view, EditorCommand::Move(Direction::End));
    assert_eq!(caret(&view), Position { col: 2, row: 1 });
}

#[test]
fn left_and_right_moves() {
    let mut view = view_with("abc\nde\n", 5, 10);
    apply(&mut view, EditorCommand::Move(Direction::End));
    apply(&mut view, EditorCommand::Move(Direction::Left));
    assert_eq!(caret(&view), Position { col: 2, row: 0 });
    apply(&mut view, EditorCommand::Move(Direction::Right));
    assert_eq!(caret(&view), Position { col: 1, row: 0 });
    apply(&mut view, EditorCommand::Move(Direction::Right));
    assert_eq!(caret(&view), Position { col: 0, row: 0 });
    apply(&mut view, EditorCommand::Move(Direction::Right));
    assert_eq!(caret(&view), Position { col: 0, row: 0 });
}

#[test]
fn left_at_the_start_of_a_line_goes_to_the_line_above() {
    let mut view = view_with("abc\nde\n", 5, 10);
    apply(&mut view, EditorCommand::Move(Direction::Down));
    apply(&mut view, EditorCommand::Move(Direction::Left));
    assert_eq!(caret(&view), Position { col: 2, row: 0 });
}

#[test]
fn page_moves_go_by_the_screen_height() {
    let text: String = (0..10).map(|i| format!("{i}\n")).collect();
    let mut view = view_with(&text, 4, 10);
    apply(&mut view, EditorCommand::Move(Direction::PageDown));
    assert_eq!(caret(&view), Position { col: 0, row: 3 });
    apply(&mut view, EditorCommand::Move(Direction::PageDown));
    assert_eq!(caret(&view), Position { col: 0, row: 6 });
    apply(&mut view, EditorCommand::Move(Direction::PageUp));
    assert_eq!(caret(&view), Position { col: 0, row: 3 });
    apply(&mut view, EditorCommand::Move(Direction::PageUp));
    apply(&mut view, EditorCommand::Move(Direction::PageUp));
    assert_eq!(caret(&view), Position { col: 0, row: 0 });
}

#[test]
fn caret_column_counts_wide_characters_twice() {
    let mut view = view_with("\u{4e2d}a\n", 5, 10);
    apply(&mut view, EditorCommand::Move(Direction::End));
    assert_eq!(caret(&view), Position { col: 3, row: 0 });
}

#[test]
fn snapping_clamps_the_caret_to_the_text() {
    let mut view = view_with("abc\n", 5, 10);
    apply(&mut view, EditorCommand::Move(Direction::End));
    view.load("short.txt", Some("a\n"));
    view.snap_to_valid_grapheme();
    assert_eq!(caret(&view), Position { col: 1, row: 0 });
    view.snap_to_valid_line();
    assert_eq!(caret(&view), Position { col: 1, row: 0 });
}

#[test]
fn resize_takes_the_new_size_and_redraws() {
    let mut view = view_with("ab\ncd\n", 2, 10);
    assert_eq!(view.render(), vec!["ab", "cd"]);
    apply(&mut view, EditorCommand::Resize(Size { height: 3, width: 1 }));
    assert_eq!(view.render(), vec!["a", "c", "~"]);
    view.resize(Size { height: 1, width: 2 });
    assert_eq!(view.render(), vec!["ab"]);
}

#[test]
fn commands_never_change_the_text() {
    let mut view = view_with("ab\ncd\n", 3, 10);
    for command in [
        EditorCommand::Insert('x'),
        EditorCommand::Enter,
        EditorCommand::Delete,
        EditorCommand::Backspace,
        EditorCommand::Quit,
        EditorCommand::Move(Direction::Down),
        EditorCommand::Move(Direction::End),
    ] {
        apply(&mut view, command);
    }
    view.resize(Size { height: 3, width: 10 });
    assert_eq!(view.render(), vec!["ab", "cd", "~"]);
}
