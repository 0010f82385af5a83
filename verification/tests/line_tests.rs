use unicode_width::UnicodeWidthStr;
use hecto::line::{GraphemeWidth, Line, TextFragment};
use hecto::text::{is_control, is_white_space};

#[test]
fn from_splits_into_grapheme_clusters() {
    let line = Line::from("e\u{301}x");
    assert_eq!(line.len(), 2);
    assert_eq!(line.to_string(), "e\u{301}x");
}

#[test]
fn from_keeps_crlf_together() {
    let line = Line::from("a\r\nb");
    assert_eq!(line.len(), 3);
}

#[test]
fn empty_line_has_no_fragments() {
    let line = Line::from("");
    assert_eq!(line.len(), 0);
    assert_eq!(line.to_string(), "");
    assert_eq!(Line::default().len(), 0);
}

#[test]
fn insert_char_in_middle_and_past_end() {
    let mut line = Line::from("ac");
    line.insert_char('b', 1);
    assert_eq!(line.to_string(), "abc");
    line.insert_char('d', 10);
    assert_eq!(line.to_string(), "abcd");
    line.insert_char('_', 0);
    assert_eq!(line.to_string(), "_abcd");
}

#[test]
fn insert_combining_mark_merges_with_previous_cluster() {
    let mut line = Line::from("ex");
    line.insert_char('\u{301}', 1);
    assert_eq!(line.to_string(), "e\u{301}x");
    assert_eq!(line.len(), 2);
}

#[test]
fn delete_char_removes_one_fragment() {
    let mut line = Line::from("abc");
    line.delete_char(1);
    assert_eq!(line.to_string(), "ac");
    line.delete_char(2);
    assert_eq!(line.to_string(), "ac");
    line.delete_char(7);
    assert_eq!(line.to_string(), "ac");
}

#[test]
fn delete_undoes_insert() {
    let mut line = Line::from("hello");
    line.insert_char('X', 2);
    assert_eq!(line.to_string(), "heXllo");
    line.delete_char(2);
    assert_eq!(line.to_string(), "hello");
}

#[test]
fn get_fragments_includes_the_end_index() {
    let line = Line::from("abcdef");
    assert_eq!(line.get_fragments(1..3), "bcd");
    assert_eq!(line.get_fragments(0..0), "");
    assert_eq!(line.get_fragments(3..1), "");
    assert_eq!(line.get_fragments(6..9), "");
    assert_eq!(line.get_fragments(4..100), "ef");
}

#[test]
fn display_graphemes_of_plain_text() {
    let line = Line::from("hello");
    assert_eq!(line.get_display_graphemes(0..5), "hello");
    assert_eq!(line.get_display_graphemes(1..3), "el");
    assert_eq!(line.get_display_graphemes(3..3), "");
    assert_eq!(line.get_display_graphemes(0..100), "hello");
}

#[test]
fn display_graphemes_cuts_wide_characters() {
    let line = Line::from("\u{4e2d}a");
    assert_eq!(line.get_display_graphemes(0..3), "\u{4e2d}a");
    assert_eq!(line.get_display_graphemes(1..3), "-a");
    assert_eq!(line.get_display_graphemes(0..1), "-");
}

#[test]
fn display_graphemes_replaces_invisible_clusters() {
    let line = Line::from("a\tb");
    assert_eq!(line.get_display_graphemes(0..3), "a b");
    let line = Line::from("\u{3000}");
    assert_eq!(line.get_display_graphemes(0..2), "\u{2423}");
    let line = Line::from("\n");
    assert_eq!(line.get_display_graphemes(0..1), "\u{25AF}");
    let line = Line::from("\u{7}");
    assert_eq!(line.get_display_graphemes(0..1), "\u{7}");
    let line = Line::from("\u{200B}");
    assert_eq!(line.get_display_graphemes(0..1), "\u{B7}");
    let line = Line::from(" ");
    assert_eq!(line.get_display_graphemes(0..1), " ");
}

#[test]
fn width_until_counts_columns() {
    let line = Line::from("a\u{4e2d}b");
    assert_eq!(line.width_until(0), 0);
    assert_eq!(line.width_until(1), 1);
    assert_eq!(line.width_until(2), 3);
    assert_eq!(line.width_until(3), 4);
    assert_eq!(line.width_until(9), 4);
    assert!(line.width_fits(9));
}

#[test]
fn append_other_joins_texts() {
    let mut line = Line::from("ab");
    line.append_other(Line::from("cd"));
    assert_eq!(line.to_string(), "abcd");
    assert_eq!(line.len(), 4);
}

#[test]
fn str_to_fragments_has_one_per_cluster() {
    assert_eq!(Line::str_to_fragments("a\u{4e2d}").len(), 2);
}

#[test]
fn grapheme_width_classes() {
    assert_eq!(GraphemeWidth::try_from(0), Ok(GraphemeWidth::Half));
    assert_eq!(GraphemeWidth::try_from(1), Ok(GraphemeWidth::Half));
    assert_eq!(GraphemeWidth::try_from(2), Ok(GraphemeWidth::Full));
    assert_eq!(GraphemeWidth::Half.saturating_add(3), 4);
    assert_eq!(GraphemeWidth::Full.saturating_add(3), 5);
    assert_eq!(GraphemeWidth::Full.saturating_add(usize::MAX - 1), usize::MAX);
}

#[test]
fn text_fragment_try_from_succeeds() {
    assert!(TextFragment::try_from("x").is_ok());
    let _ = TextFragment::new("\u{4e2d}");
}

#[test]
fn white_space_matches_std() {
    for u in 0u32..=0x10FFFF {
        if let Some(c) = char::from_u32(u) {
            assert_eq!(is_white_space(c), c.is_whitespace(), "{u:#x}");
            assert_eq!(is_control(c), c.is_control(), "{u:#x}");
        }
    }
}

#[test]
fn shown_columns_never_exceed_the_window() {
    let samples = ["hello world", "\u{4e2d}\u{6587}\u{5b57}a\u{4e2d}", "a\tb\u{3000}c", "x\u{200B}y", ""];
    for s in samples {
        let line = Line::from(s);
        for start in 0..8 {
            for end in start + 1..12 {
                let shown = line.get_display_graphemes(start..end);
                assert!(shown.width() <= end - start, "{s:?} {start}..{end} {shown:?}");
            }
        }
    }
}

#[test]
fn ascii_delete_undoes_insert_everywhere() {
    let text = "hello, world~";
    for i in 0..=text.len() {
        for c in [' ', 'x', '~', '#'] {
            let mut line = Line::from(text);
            assert_eq!(line.len(), text.len());
            line.insert_char(c, i);
            assert_eq!(line.len(), text.len() + 1);
            line.delete_char(i);
            assert_eq!(line.to_string(), text);
        }
    }
}

#[test]
fn replacement_follows_the_given_width() {
    assert_eq!(TextFragment::replacement_for_width(" ", 1), None);
    assert_eq!(TextFragment::replacement_for_width("\t", 0), Some(' '));
    assert_eq!(TextFragment::replacement_for_width("\u{3000}", 2), Some('\u{2423}'));
    assert_eq!(TextFragment::replacement_for_width("\n", 0), Some('\u{25AF}'));
    assert_eq!(TextFragment::replacement_for_width("\u{7}", 0), Some('\u{25AF}'));
    assert_eq!(TextFragment::replacement_for_width("\u{7}", 1), None);
    assert_eq!(TextFragment::replacement_for_width("\u{200B}", 0), Some('\u{B7}'));
    assert_eq!(TextFragment::replacement_for_width("ab", 0), Some('\u{B7}'));
    assert_eq!(TextFragment::replacement_for_width("a", 1), None);
}

#[test]
fn fragments_from_widths_show_their_replacement() {
    let line = Line::from("\u{200B}");
    assert_eq!(line.get_display_graphemes(0..1), "\u{B7}");
    let _ = TextFragment::from_widths("\u{200B}", 0, 1);
}
