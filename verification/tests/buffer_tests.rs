use hecto::buffer::{split_lines, Buffer};

fn texts(buffer: &Buffer) -> Vec<String> {
    buffer.lines.iter().map(|l| l.to_string()).collect()
}

#[test]
fn split_lines_matches_std() {
    let samples = [
        "", "a", "a\n", "a\nb", "a\r\nb\r\n", "a\r", "\n\n", "x\ry\nz", "\r\n", "a\n\nb\n",
    ];
    for s in samples {
        let ours = split_lines(s);
        let std: Vec<String> = s.lines().map(|l| l.to_string()).collect();
        assert_eq!(ours, std, "{s:?}");
    }
}

#[test]
fn from_text_loads_lines() {
    let buffer = Buffer::from_text("notes.txt", "one\ntwo\r\nthree");
    assert_eq!(texts(&buffer), vec!["one", "two", "three"]);
    assert!(!buffer.modified);
    assert_eq!(buffer.file_name.as_deref(), Some("notes.txt"));
    assert!(!buffer.is_empty());
    assert!(Buffer::default().is_empty());
}

#[test]
fn save_after_load_gives_back_the_text() {
    let text = "alpha\nbeta\n\ngamma\n";
    let buffer = Buffer::from_text("f", text);
    assert_eq!(buffer.save_text(), text);
}

#[test]
fn save_file_name_prefers_the_given_name() {
    let buffer = Buffer::from_text("own.txt", "x");
    assert_eq!(buffer.save_file_name(Some("other.txt".to_string())), Some("other.txt".to_string()));
    assert_eq!(buffer.save_file_name(None), Some("own.txt".to_string()));
    assert_eq!(Buffer::default().save_file_name(None), None);
}

#[test]
fn insert_char_into_line_and_new_line() {
    let mut buffer = Buffer::from_text("f", "ab\n");
    buffer.insert_char('x', 0, 1);
    assert_eq!(texts(&buffer), vec!["axb"]);
    assert!(buffer.modified);
    buffer.insert_char('y', 1, 5);
    assert_eq!(texts(&buffer), vec!["axb", "y"]);
    buffer.insert_char('z', 5, 0);
    assert_eq!(texts(&buffer), vec!["axb", "y"]);
}

#[test]
fn insert_line_splits_keeping_the_split_grapheme_on_both_sides() {
    let mut buffer = Buffer::from_text("f", "abcde\n");
    buffer.insert_line(0, 2);
    assert_eq!(texts(&buffer), vec!["abc", "cde"]);
    assert!(buffer.modified);
}

#[test]
fn insert_line_past_end() {
    let mut buffer = Buffer::from_text("f", "ab\n");
    buffer.insert_line(3, 0);
    assert_eq!(texts(&buffer), vec!["ab", ""]);
    assert!(!buffer.modified);
    buffer.insert_line(0, 9);
    assert_eq!(texts(&buffer), vec!["ab", "", ""]);
    assert!(!buffer.modified);
}

#[test]
fn delete_char_inside_a_line() {
    let mut buffer = Buffer::from_text("f", "abc\n");
    buffer.delete_char(0, 1);
    assert_eq!(texts(&buffer), vec!["ac"]);
    assert!(buffer.modified);
}

#[test]
fn delete_char_at_end_joins_next_line() {
    let mut buffer = Buffer::from_text("f", "ab\ncd\nef\n");
    buffer.delete_char(0, 2);
    assert_eq!(texts(&buffer), vec!["abcd", "ef"]);
    buffer.delete_char(1, 2);
    assert_eq!(texts(&buffer), vec!["abcd", "ef"]);
}

#[test]
fn delete_char_past_last_line_changes_nothing() {
    let mut buffer = Buffer::from_text("f", "ab\n");
    buffer.delete_char(4, 0);
    assert_eq!(texts(&buffer), vec!["ab"]);
    assert!(!buffer.modified);
}

#[test]
fn splitting_at_the_end_and_joining_gives_back_the_line() {
    let mut buffer = Buffer::from_text("f", "abc\nxy\n");
    buffer.insert_line(0, 3);
    assert_eq!(texts(&buffer), vec!["abc", "", "xy"]);
    buffer.delete_char(0, 3);
    assert_eq!(texts(&buffer), vec!["abc", "xy"]);
}

#[test]
fn splitting_at_the_start_and_joining_gives_back_the_line() {
    let mut buffer = Buffer::from_text("f", "abc\nxy\n");
    buffer.insert_line(0, 0);
    assert_eq!(texts(&buffer), vec!["", "abc", "xy"]);
    buffer.delete_char(0, 0);
    assert_eq!(texts(&buffer), vec!["abc", "xy"]);
}

#[test]
fn splitting_a_one_grapheme_line_at_its_start_empties_it() {
    let mut buffer = Buffer::from_text("f", "a\n");
    buffer.insert_line(0, 0);
    assert_eq!(texts(&buffer), vec!["", ""]);
    buffer.delete_char(0, 0);
    assert_eq!(texts(&buffer), vec![""]);
}

#[test]
fn deleting_at_the_end_joins_the_next_line() {
    let mut buffer = Buffer::from_text("f", "ab\ncd\n");
    buffer.delete_char(0, 2);
    assert_eq!(texts(&buffer), vec!["abcd"]);
    assert_eq!(buffer.lines[0].len(), 4);
    assert!(buffer.modified);
}
