use hecto::documentstatus::{decimal_string, DocumentStatus};
use hecto::statusbar::StatusBar;
use hecto::terminal::Size;

fn status(file_name: Option<&str>) -> DocumentStatus {
    DocumentStatus {
        lines: 3,
        current_line: 1,
        is_modified: true,
        file_name: file_name.map(|f| f.to_string()),
    }
}

#[test]
fn decimal_numerals() {
    for n in [0usize, 7, 10, 99, 1234567, usize::MAX] {
        assert_eq!(decimal_string(n), n.to_string());
    }
}

#[test]
fn debug_text_matches_derived_debug() {
    for s in [
        DocumentStatus::default(),
        status(Some("notes.txt")),
        status(Some("a\"b\n\u{e9}\t")),
        status(None),
    ] {
        assert_eq!(s.debug_text(), format!("{s:?}"));
    }
}

#[test]
fn new_bar_has_nothing_to_draw() {
    let mut bar = StatusBar::new(1, Size { height: 10, width: 80 });
    assert_eq!(bar.render(), None);
}

#[test]
fn updated_status_is_drawn_once_above_the_margin() {
    let mut bar = StatusBar::new(1, Size { height: 10, width: 200 });
    let s = status(Some("notes.txt"));
    bar.update_status(s.clone());
    assert_eq!(bar.render(), Some((8, format!("{s:?}"))));
    assert_eq!(bar.render(), None);
}

#[test]
fn status_text_is_cut_to_the_width() {
    let mut bar = StatusBar::new(2, Size { height: 1, width: 10 });
    bar.update_status(status(None));
    assert_eq!(bar.render(), Some((0, "DocumentSt".to_string())));
}

#[test]
fn resize_moves_the_bar_and_redraws() {
    let mut bar = StatusBar::new(1, Size { height: 10, width: 80 });
    bar.resize(Size { height: 5, width: 20 });
    assert_eq!(bar.render(), Some((4, "DocumentStatus { lin".to_string())));
}

#[test]
fn render_checked_refuses_a_cut_inside_a_character() {
    let s = status(Some("\u{e9}"));
    let text = format!("{s:?}");
    let at = text.find('\u{e9}').unwrap();
    let mut bar = StatusBar::new(0, Size { height: 3, width: at + 1 });
    bar.update_status(s.clone());
    assert_eq!(bar.render_checked(), None);
    let mut bar = StatusBar::new(0, Size { height: 3, width: at + 2 });
    bar.update_status(s);
    assert_eq!(bar.render_checked(), Some(Some((2, text[..at + 2].to_string()))));
    assert_eq!(bar.render_checked(), Some(None));
}
