//! Line and column conversions, on concrete values.

use text_edit::lines::char_idx_from_line_col;
use text_edit::lines::line_col_from_char_idx;
use text_edit::lines::line_from_number;

#[test]
fn line_col_of_every_offset() {
    let s = "ab\ncd";
    assert_eq!(line_col_from_char_idx(s, 0), (0, 0));
    assert_eq!(line_col_from_char_idx(s, 1), (0, 1));
    assert_eq!(line_col_from_char_idx(s, 2), (0, 2)); // on the separator: end of line 0
    assert_eq!(line_col_from_char_idx(s, 3), (1, 0));
    assert_eq!(line_col_from_char_idx(s, 4), (1, 1));
    assert_eq!(line_col_from_char_idx(s, 5), (1, 2));
}

#[test]
fn line_col_past_the_end_reads_as_the_end() {
    assert_eq!(line_col_from_char_idx("ab\ncd", 99), (1, 2));
    assert_eq!(line_col_from_char_idx("", 7), (0, 0));
}

#[test]
fn line_col_counts_scalar_values() {
    let s = "é🙂\nz";
    assert_eq!(line_col_from_char_idx(s, 2), (0, 2));
    assert_eq!(line_col_from_char_idx(s, 3), (1, 0));
}

#[test]
fn char_idx_of_line_and_column() {
    let s = "ab\ncdef\ngh";
    assert_eq!(char_idx_from_line_col(s, (0, 0)), 0);
    assert_eq!(char_idx_from_line_col(s, (1, 0)), 3);
    assert_eq!(char_idx_from_line_col(s, (1, 4)), 7);
    assert_eq!(char_idx_from_line_col(s, (2, 1)), 9);
}

#[test]
fn char_idx_clamps_the_column_to_the_line() {
    assert_eq!(char_idx_from_line_col("ab\ncd", (0, 99)), 2);
    assert_eq!(char_idx_from_line_col("ab\ncd", (1, 99)), 5);
}

#[test]
fn char_idx_clamps_a_line_past_the_last_to_the_end() {
    assert_eq!(char_idx_from_line_col("ab", (5, 0)), 2);
    assert_eq!(char_idx_from_line_col("ab\ncd", (2, 0)), 5);
    assert_eq!(char_idx_from_line_col("ab\n", (7, 3)), 3);
}

#[test]
fn round_trip_gives_the_offset_back() {
    let s = "abc\nde\nfghi";
    for i in 0..=s.chars().count() {
        let pos = line_col_from_char_idx(s, i);
        assert_eq!(char_idx_from_line_col(s, pos), i);
    }
    // past the end it clamps to the length
    let pos = line_col_from_char_idx(s, 99);
    assert_eq!(char_idx_from_line_col(s, pos), s.chars().count());
}

#[test]
fn line_from_number_returns_each_line() {
    let s = "ab\ncdef\ngh";
    assert_eq!(line_from_number(s, 0), "ab");
    assert_eq!(line_from_number(s, 1), "cdef");
    assert_eq!(line_from_number(s, 2), "gh");
}

#[test]
fn line_from_number_past_the_last_returns_the_text() {
    let s = "ab\ncd";
    assert_eq!(line_from_number(s, 9), s);
}

#[test]
fn trailing_separator_makes_an_empty_last_line() {
    let s = "ab\n";
    assert_eq!(line_from_number(s, 1), "");
    assert_eq!(line_col_from_char_idx(s, 3), (1, 0));
}
