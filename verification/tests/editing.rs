//! Editing primitives and key handling, on concrete values.

use text_edit::editing::delete_left;
use text_edit::editing::delete_right;
use text_edit::editing::insert_text;
use text_edit::editing::on_key_press;
use text_edit::events::Key;

#[test]
fn insert_into_empty() {
    let mut cursor: usize = 0;
    let mut text = String::new();
    insert_text(&mut cursor, &mut text, "ab");
    assert_eq!(text, "ab");
    assert_eq!(cursor, 2);
}

#[test]
fn insert_in_the_middle() {
    let mut cursor: usize = 1;
    let mut text = String::from("ad");
    insert_text(&mut cursor, &mut text, "bc");
    assert_eq!(text, "abcd");
    assert_eq!(cursor, 3);
}

#[test]
fn insert_counts_scalar_values_not_bytes() {
    let mut cursor: usize = 1;
    let mut text = String::from("é🙂");
    insert_text(&mut cursor, &mut text, "ü");
    assert_eq!(text, "éü🙂");
    assert_eq!(cursor, 2);
}

#[test]
fn insertion_is_length_preserving() {
    let mut cursor: usize = 2;
    let mut text = String::from("héllo");
    let before = text.chars().count();
    insert_text(&mut cursor, &mut text, "wörld");
    assert_eq!(text.chars().count(), before + "wörld".chars().count());
    assert_eq!(cursor, 2 + "wörld".chars().count());
}

#[test]
fn delete_left_removes_one_scalar_value() {
    let mut cursor: usize = 2;
    let mut text = String::from("é🙂z");
    delete_left(&mut cursor, &mut text);
    assert_eq!(text, "éz");
    assert_eq!(cursor, 1);
}

#[test]
fn delete_right_at_cursor() {
    let mut cursor: usize = 1;
    let mut text = String::from("abc");
    delete_right(&mut cursor, &mut text);
    assert_eq!(text, "ac");
    assert_eq!(cursor, 1);
}

#[test]
fn delete_right_at_end_is_a_no_op() {
    let mut cursor: usize = 3;
    let mut text = String::from("abc");
    delete_right(&mut cursor, &mut text);
    assert_eq!(text, "abc");
    assert_eq!(cursor, 3);
}

#[test]
fn backspace_then_reinsert_restores_text_and_cursor() {
    let mut cursor: usize = 2;
    let mut text = String::from("a🙂c");
    on_key_press(&mut cursor, &mut text, Key::Backspace);
    assert_eq!(text, "ac");
    assert_eq!(cursor, 1);
    insert_text(&mut cursor, &mut text, "🙂");
    assert_eq!(text, "a🙂c");
    assert_eq!(cursor, 2);
}

#[test]
fn left_stops_at_the_start() {
    let mut cursor: usize = 0;
    let mut text = String::from("ab");
    on_key_press(&mut cursor, &mut text, Key::Left);
    assert_eq!(cursor, 0);
    assert_eq!(text, "ab");
}

#[test]
fn right_stops_at_the_end() {
    let mut cursor: usize = 2;
    let mut text = String::from("ab");
    on_key_press(&mut cursor, &mut text, Key::Right);
    assert_eq!(cursor, 2);
}

#[test]
fn home_and_end_on_middle_line() {
    // text "ab\ncdef\ngh", cursor at char 5 = line 1, column 2
    let mut cursor: usize = 5;
    let mut text = String::from("ab\ncdef\ngh");
    on_key_press(&mut cursor, &mut text, Key::Home);
    assert_eq!(cursor, 3);
    on_key_press(&mut cursor, &mut text, Key::End);
    assert_eq!(cursor, 7);
    assert_eq!(text, "ab\ncdef\ngh");
}

#[test]
fn up_across_lines_keeps_the_column() {
    // "abc\nde\nfghi", char 10 is line 2, column 3
    let mut cursor: usize = 10;
    let mut text = String::from("abc\nde\nfghi");
    on_key_press(&mut cursor, &mut text, Key::Up);
    assert_eq!(cursor, 6); // end of line 1: column clamps to its width 2
    on_key_press(&mut cursor, &mut text, Key::Up);
    assert_eq!(cursor, 2); // line 0, column 2
}

#[test]
fn up_from_the_first_line_saturates() {
    let mut cursor: usize = 2;
    let mut text = String::from("abc\nde");
    on_key_press(&mut cursor, &mut text, Key::Up);
    assert_eq!(cursor, 2);
}

#[test]
fn down_below_the_last_line_goes_to_the_end() {
    let mut cursor: usize = 1;
    let mut text = String::from("ab\ncd");
    on_key_press(&mut cursor, &mut text, Key::Down);
    assert_eq!(cursor, 4); // line 1, column 1
    on_key_press(&mut cursor, &mut text, Key::Down);
    assert_eq!(cursor, 5); // past the last line: end of text
}

#[test]
fn ignored_keys_change_nothing() {
    let mut cursor: usize = 1;
    let mut text = String::from("ab");
    on_key_press(&mut cursor, &mut text, Key::Tab);
    on_key_press(&mut cursor, &mut text, Key::Insert);
    on_key_press(&mut cursor, &mut text, Key::PageUp);
    on_key_press(&mut cursor, &mut text, Key::PageDown);
    assert_eq!(cursor, 1);
    assert_eq!(text, "ab");
}
