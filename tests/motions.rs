use modal_edit::buffer::{cursor_add, Buffer};
use modal_edit::motion::Motion;
use ropey::Rope;

fn buffer_at(text: &str, cursor: usize) -> Buffer {
    let mut b = Buffer::new(Rope::from_str(text), None);
    b.cursor = cursor;
    b
}

#[test]
fn forward_word_stops_at_space() {
    let b = buffer_at("ab cd", 0);
    assert_eq!(Motion::ForwardWord.get_target(&b), 2);
}

#[test]
fn forward_word_from_space_reaches_next_word() {
    let b = buffer_at("ab cd", 2);
    assert_eq!(Motion::ForwardWord.get_target(&b), 3);
}

#[test]
fn forward_word_end_from_start() {
    let b = buffer_at("ab cd", 0);
    assert_eq!(Motion::ForwardWordEnd.get_target(&b), 1);
}

#[test]
fn back_word_from_end_of_text() {
    let b = buffer_at("ab cd", 5);
    assert_eq!(Motion::BackWord.get_target(&b), 3);
}

#[test]
fn back_word_from_word_start() {
    let b = buffer_at("ab cd", 3);
    assert_eq!(Motion::BackWord.get_target(&b), 2);
}

#[test]
fn back_word_at_offset_zero_stays() {
    let b = buffer_at("ab cd", 0);
    assert_eq!(Motion::BackWord.get_target(&b), 0);
}

#[test]
fn forward_word_at_last_char_stays() {
    let b = buffer_at("ab", 1);
    assert_eq!(Motion::ForwardWord.get_target(&b), 1);
    assert_eq!(Motion::ForwardWordEnd.get_target(&b), 1);
}

#[test]
fn word_motions_on_single_char() {
    let b = buffer_at("x", 0);
    assert_eq!(Motion::ForwardWord.get_target(&b), 0);
    assert_eq!(Motion::ForwardWordEnd.get_target(&b), 0);
    assert_eq!(Motion::BackWord.get_target(&b), 0);
}

#[test]
fn word_motions_on_empty_text() {
    let b = buffer_at("", 0);
    assert_eq!(Motion::ForwardWord.get_target(&b), 0);
    assert_eq!(Motion::ForwardWordEnd.get_target(&b), 0);
    assert_eq!(Motion::BackWord.get_target(&b), 0);
    assert_eq!(Motion::EndOfLine.get_target(&b), 0);
    assert_eq!(Motion::Down.get_target(&b), 0);
}

#[test]
fn punctuation_after_space_is_a_boundary_only_by_class() {
    // space and punctuation share the non-alphanumeric class
    let b = buffer_at("a .b", 1);
    assert_eq!(Motion::ForwardWord.get_target(&b), 3);
}

#[test]
fn horizontal_move_saturates() {
    let b = buffer_at("hello", 0);
    assert_eq!(b.get_movement_x(0, -1), 0);
    assert_eq!(b.get_movement_x(4, 1), 4);
    assert_eq!(b.get_movement_x(2, 1), 3);
    assert_eq!(b.get_movement_x(2, -5), 0);
    let empty = buffer_at("", 0);
    assert_eq!(empty.get_movement_x(0, 3), 0);
}

#[test]
fn left_and_right_motions() {
    let b = buffer_at("hello", 2);
    assert_eq!(Motion::Left.get_target(&b), 1);
    assert_eq!(Motion::Right.get_target(&b), 3);
}

#[test]
fn vertical_move_keeps_column_through_short_line() {
    // line 0 "abcdef\n", line 1 "xyz\n", line 2 "123456"
    let text = "abcdef\nxyz\n123456";
    let b = buffer_at(text, 1);
    let down = b.get_movement_y(1, 1);
    assert_eq!(down, 8);
    let up = b.get_movement_y(down, -1);
    assert_eq!(up, 1);
}

#[test]
fn vertical_move_clamps_column_to_shorter_line() {
    let text = "abcdef\nxyz\n123456";
    let b = buffer_at(text, 5);
    // column 5 on a line of four chars (its break included) becomes column 3
    assert_eq!(b.get_movement_y(5, 1), 10);
}

#[test]
fn vertical_move_clamps_line() {
    let text = "ab\ncd";
    let b = buffer_at(text, 1);
    assert_eq!(b.get_movement_y(1, -1), 1);
    assert_eq!(b.get_movement_y(1, 5), 4);
}

#[test]
fn up_and_down_motions() {
    let b = buffer_at("ab\ncd", 4);
    assert_eq!(Motion::Up.get_target(&b), 1);
    let c = buffer_at("ab\ncd", 0);
    assert_eq!(Motion::Down.get_target(&c), 3);
}

#[test]
fn end_of_line_lands_on_line_break() {
    let b = buffer_at("abc\ndef", 1);
    assert_eq!(Motion::EndOfLine.get_target(&b), 3);
    let c = buffer_at("abc\ndef", 5);
    assert_eq!(Motion::EndOfLine.get_target(&c), 6);
}

#[test]
fn crlf_is_one_line_break() {
    let b = buffer_at("ab\r\ncd", 0);
    assert_eq!(b.get_end_of_line_cursor(0), 3);
    assert_eq!(b.get_movement_y(0, 1), 4);
    assert_eq!(b.find_line_position(5), 1);
}

#[test]
fn find_line_position_counts_from_line_start() {
    let b = buffer_at("abc\ndef", 0);
    assert_eq!(b.find_line_position(0), 0);
    assert_eq!(b.find_line_position(5), 1);
}

#[test]
fn motions_keep_cursor_in_text() {
    let mut b = buffer_at("one two\nthree\n", 0);
    let motions = [
        Motion::EndOfLine,
        Motion::Down,
        Motion::Down,
        Motion::Down,
        Motion::ForwardWord,
        Motion::ForwardWordEnd,
        Motion::Right,
        Motion::BackWord,
        Motion::Up,
        Motion::Left,
        Motion::EndOfLine,
    ];
    let len = b.text.len_chars();
    for m in motions {
        b.cursor = m.get_target(&b);
        assert!(b.cursor < len.max(1));
    }
}

#[test]
fn cursor_add_saturates_at_zero() {
    assert_eq!(cursor_add(3, -5), 0);
    assert_eq!(cursor_add(3, -2), 1);
    assert_eq!(cursor_add(3, 4), 7);
}

#[test]
fn insert_after_cursor_keeps_cursor() {
    let mut b = buffer_at("ac", 1);
    b.insert_after_cursor('b');
    assert_eq!(b.text.to_string(), "abc");
    assert_eq!(b.cursor, 1);
}

#[test]
fn save_target_prefers_given_path() {
    let mut b = buffer_at("x", 0);
    assert_eq!(b.save_target(None), Err("No filepath specified".to_string()));
    b.filepath = Some("a.txt".to_string());
    assert_eq!(b.save_target(None), Ok("a.txt".to_string()));
    assert_eq!(b.save_target(Some("b.txt".to_string())), Ok("b.txt".to_string()));
}
