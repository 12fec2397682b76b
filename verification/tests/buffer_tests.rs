use oxid::buffer::base::Buffer;
use oxid::buffer::types::{BufferPosition, Selection};

fn sample() -> Buffer {
    Buffer::new(
        Some("/tmp/file.txt".to_string()),
        "hello world\nsecond line\n\nlast".to_string(),
        80,
        40,
    )
}

#[test]
fn buffer_new_splits_lines() {
    let b = sample();
    assert_eq!(b.file_lines.len(), 4);
    assert_eq!(b.file_lines[0].content, "hello world");
    assert_eq!(b.file_lines[1].content, "second line");
    assert_eq!(b.file_lines[2].content, "");
    assert_eq!(b.file_lines[3].content, "last");
    // Four lines need one digit, plus one space of padding.
    assert_eq!(b.numbar_space, 2);
    assert_eq!(b.viewport_width, 78);
    assert_eq!(b.viewport_height, 39);
    assert_eq!(b.current_position.line, 0);
    assert_eq!(b.current_position.character, 2);
}

#[test]
fn cursor_moves_clamp_at_edges() {
    let mut b = sample();
    b.move_cursor_left();
    assert_eq!(b.current_position.character, 2);
    b.move_cursor_right();
    assert_eq!(b.current_position.character, 3);
    b.move_cursor_end_line();
    assert_eq!(b.current_position.character, 2 + 11);
    b.move_cursor_start_line();
    assert_eq!(b.current_position.character, 2);
    b.move_cursor_up();
    assert_eq!(b.current_position.line, 0);
    b.move_cursor_down();
    assert_eq!(b.current_position.line, 1);
    // Moving onto the empty line parks the cursor at the number bar.
    b.move_cursor_down();
    assert_eq!(b.current_position.line, 2);
    assert_eq!(b.current_position.character, 2);
    b.move_cursor_down();
    b.move_cursor_down();
    assert_eq!(b.current_position.line, 3);
}

#[test]
fn word_motion_walks_words() {
    let mut b = Buffer::new(None, "foo bar::baz\nnext".to_string(), 80, 40);
    assert_eq!(b.current_position.character, 2);
    b.move_to_next_word();
    // From `foo` to `bar`.
    assert_eq!(b.current_position.line, 0);
    assert_eq!(b.current_position.character, 2 + 4);
    b.move_to_next_word();
    // From `bar` to `::`.
    assert_eq!(b.current_position.character, 2 + 7);
    b.move_to_next_word();
    // From `::` to `baz`.
    assert_eq!(b.current_position.character, 2 + 9);
    b.move_to_next_word();
    // Off the line's last word onto the next line.
    assert_eq!(b.current_position.line, 1);
    assert_eq!(b.current_position.character, 2);
    b.move_to_previous_word();
    assert_eq!(b.current_position.line, 0);
    assert_eq!(b.current_position.character, 2 + 9);
}

#[test]
fn end_of_word_motion() {
    let mut b = Buffer::new(None, "foo bar".to_string(), 80, 40);
    b.move_to_end_of_word();
    assert_eq!(b.current_position.character, 2 + 2);
    b.move_to_end_of_word();
    assert_eq!(b.current_position.character, 2 + 6);
}

#[test]
fn insert_and_remove_characters() {
    let mut b = Buffer::new(None, "ab\ncd".to_string(), 80, 40);
    b.insert_char('x');
    assert_eq!(b.file_lines[0].content, "xab");
    assert_eq!(b.current_position.character, 3);
    b.remove_char();
    assert_eq!(b.file_lines[0].content, "ab");
    assert_eq!(b.current_position.character, 2);
    // At the number bar on the first line nothing is removed.
    b.remove_char();
    assert_eq!(b.file_lines.len(), 2);
    assert_eq!(b.file_lines[0].content, "ab");
}

#[test]
fn remove_char_joins_lines() {
    let mut b = Buffer::new(None, "ab\ncd".to_string(), 80, 40);
    b.move_cursor_down();
    b.move_cursor_start_line();
    b.remove_char();
    assert_eq!(b.file_lines.len(), 1);
    assert_eq!(b.file_lines[0].content, "abcd");
    assert_eq!(b.current_position.line, 0);
    // The cursor lands where the upper line used to end.
    assert_eq!(b.current_position.character, b.numbar_space + 2);
}

#[test]
fn enter_key_splits_and_opens_lines() {
    let mut b = Buffer::new(None, "abcdef".to_string(), 80, 40);
    b.move_cursor_right();
    b.move_cursor_right();
    b.enter_key();
    assert_eq!(b.file_lines.len(), 2);
    assert_eq!(b.file_lines[0].content, "ab");
    assert_eq!(b.file_lines[1].content, "cdef");
    assert_eq!(b.current_position.line, 1);
    assert_eq!(b.current_position.character, b.numbar_space);
    // At a line's end an empty line opens below.
    b.move_cursor_end_line();
    b.enter_key();
    assert_eq!(b.file_lines.len(), 3);
    assert_eq!(b.file_lines[2].content, "");
}

#[test]
fn enter_key_splits_short_lines_too() {
    // A line shorter than the number bar still splits at the cursor.
    let mut c = Buffer::new(None, "ab".to_string(), 80, 40);
    c.move_cursor_right();
    c.enter_key();
    assert_eq!(c.file_lines.len(), 2);
    assert_eq!(c.file_lines[0].content, "a");
    assert_eq!(c.file_lines[1].content, "b");
    assert_eq!(c.current_position.line, 1);
    assert_eq!(c.current_position.character, c.numbar_space);
}

#[test]
fn insert_line_below_opens_empty_line() {
    let mut b = Buffer::new(None, "ab\ncd".to_string(), 80, 40);
    b.insert_line_below();
    assert_eq!(b.file_lines.len(), 3);
    assert_eq!(b.file_lines[1].content, "");
    assert_eq!(b.current_position.line, 1);
    assert_eq!(b.current_position.character, b.numbar_space);
}

#[test]
fn paste_single_and_multi_line() {
    let mut b = Buffer::new(None, "abcd".to_string(), 80, 40);
    b.move_cursor_right();
    b.paste("XY".to_string());
    assert_eq!(b.file_lines[0].content, "aXYbcd");
    let mut c = Buffer::new(None, "abcd".to_string(), 80, 40);
    c.move_cursor_right();
    c.paste("one\ntwo\nthree".to_string());
    assert_eq!(c.file_lines.len(), 3);
    assert_eq!(c.file_lines[0].content, "aone");
    assert_eq!(c.file_lines[1].content, "two");
    assert_eq!(c.file_lines[2].content, "threebcd");
}

#[test]
fn scrolling_moves_window_and_cursor() {
    let mut text = String::new();
    for i in 0..50 {
        text.push_str(&format!("line {}\n", i));
    }
    let mut b = Buffer::new(None, text, 80, 11);
    b.scroll_down(5);
    assert_eq!(b.vertical_scroll, 5);
    assert_eq!(b.current_position.line, 5);
    b.scroll_up(3);
    assert_eq!(b.vertical_scroll, 2);
    assert_eq!(b.current_position.line, 2);
    b.scroll_down(1000);
    assert_eq!(b.vertical_scroll, 50 - 10);
    assert_eq!(b.current_position.line, 49);
}

#[test]
fn viewport_rendering_windows_the_text() {
    let mut b = Buffer::new(None, "0123456789abcdef\nshort".to_string(), 10, 3);
    let visible = b.get_visible_lines();
    assert_eq!(visible.len(), 2);
    assert_eq!(visible[0].content, "0123456789abcdef");
    b.horizontal_scroll = 2;
    let piece = b.get_visible_line_content(&b.file_lines[0]);
    // The window shows viewport_width characters from the scroll on.
    assert_eq!(piece, "23456789");
    let pos = b.get_viewport_cursor_pos();
    assert_eq!(pos.line, 0);
    assert_eq!(pos.character, 0);
}

#[test]
fn selection_text_across_lines() {
    let mut b = Buffer::new(None, "hello\nmiddle\nworld".to_string(), 80, 40);
    let nb = b.numbar_space;
    b.selection = Some(Selection {
        start: BufferPosition { line: 0, character: nb + 2 },
        end: BufferPosition { line: 2, character: nb + 3 },
    });
    b.update_selected_string();
    // The covered pieces keep their line breaks.
    assert_eq!(b.selected_string.as_deref(), Some("llo\nmiddle\nwor"));
    // A backwards selection on one line is normalized.
    b.selection = Some(Selection {
        start: BufferPosition { line: 1, character: nb + 4 },
        end: BufferPosition { line: 1, character: nb + 1 },
    });
    b.update_selected_string();
    assert_eq!(b.selected_string.as_deref(), Some("idd"));
    b.selection = None;
    b.update_selected_string();
    assert!(b.selected_string.is_none());
}

#[test]
fn full_text_joins_lines() {
    let b = Buffer::new(None, "ab\ncd\n\nef".to_string(), 80, 40);
    assert_eq!(b.full_text(), "ab\ncd\n\nef");
    let single = Buffer::new(None, "only".to_string(), 80, 40);
    assert_eq!(single.full_text(), "only");
}

#[test]
fn insert_completion_replaces_identifier() {
    let mut b = Buffer::new(None, "let foo_b = 1".to_string(), 80, 40);
    // Put the cursor just past `foo_b`.
    for _ in 0..9 {
        b.move_cursor_right();
    }
    assert_eq!(b.current_position.character, b.numbar_space + 9);
    b.insert_completion("foo_bar");
    assert_eq!(b.file_lines[0].content, "let foo_bar = 1");
    assert_eq!(b.current_position.character, b.numbar_space + 11);
    // With no identifier before the cursor the label is inserted plain.
    let mut c = Buffer::new(None, "x ".to_string(), 80, 40);
    c.move_cursor_end_line();
    c.insert_completion("name");
    assert_eq!(c.file_lines[0].content, "x name");
}
