//! Editing primitives and the keyboard handler.
//!
//! All mutations are character-wise: a cursor is a count of Unicode scalar
//! values from the start of the buffer, never a byte offset.

use vstd::prelude::*;

use crate::events::Key;
use crate::lines::char_idx_from_line_col;
use crate::lines::lemma_char_idx_beyond;
use crate::lines::lemma_char_idx_le_len;
use crate::lines::lemma_line_col_valid;
use crate::lines::lemma_nl_count_le_len;
use crate::lines::line_col_from_char_idx;
use crate::lines::line_from_number;
use crate::lines::spec_char_idx;
use crate::lines::spec_line_at;
use crate::lines::spec_line_col;

verus! {

/// The buffer after splicing `ins` in at character offset `cursor`.
pub open spec fn spec_inserted(text: Seq<char>, cursor: nat, ins: Seq<char>) -> Seq<char> {
    text.take(cursor as int) + ins + text.skip(cursor as int)
}

/// Insert `text_to_insert` at the cursor and advance the cursor past it.
pub fn insert_text(cursor: &mut usize, text: &mut String, text_to_insert: &str)
    requires
        *old(cursor) <= old(text)@.len(),
        old(text)@.len() + text_to_insert@.len() <= usize::MAX,
    ensures
        final(text)@ == spec_inserted(old(text)@, *old(cursor) as nat, text_to_insert@),
        final(text)@.len() == old(text)@.len() + text_to_insert@.len(),
        *final(cursor) == *old(cursor) + text_to_insert@.len(),
{
    let n: usize = text.as_str().unicode_len();
    let ins_len: usize = text_to_insert.unicode_len();
    let mut new_text = String::from_str(text.as_str().substring_char(0, *cursor));
    new_text.append(text_to_insert);
    new_text.append(text.as_str().substring_char(*cursor, n));
    *text = new_text;
    *cursor = *cursor + ins_len;
}

/// Remove the character just before the cursor and move the cursor back
/// onto the gap it leaves.
pub fn delete_left(cursor: &mut usize, text: &mut String)
    requires
        0 < *old(cursor) <= old(text)@.len(),
    ensures
        final(text)@ == old(text)@.remove(*old(cursor) - 1),
        *final(cursor) == *old(cursor) - 1,
{
    let n: usize = text.as_str().unicode_len();
    let mut new_text = String::from_str(text.as_str().substring_char(0, *cursor - 1));
    new_text.append(text.as_str().substring_char(*cursor, n));
    *text = new_text;
    *cursor = *cursor - 1;
    proof {
        assert(text@ =~= old(text)@.remove(*old(cursor) - 1));
    }
}

/// Remove the character at the cursor, if there is one; the cursor does
/// not move.
pub fn delete_right(cursor: &mut usize, text: &mut String)
    requires
        *old(cursor) <= old(text)@.len(),
    ensures
        *old(cursor) < old(text)@.len() ==> final(text)@ == old(text)@.remove(
            *old(cursor) as int,
        ),
        *old(cursor) == old(text)@.len() ==> final(text)@ == old(text)@,
        *final(cursor) == *old(cursor),
{
    let n: usize = text.as_str().unicode_len();
    if *cursor < n {
        let mut new_text = String::from_str(text.as_str().substring_char(0, *cursor));
        new_text.append(text.as_str().substring_char(*cursor + 1, n));
        *text = new_text;
        proof {
            assert(text@ =~= old(text)@.remove(*old(cursor) as int));
        }
    }
}

/// Cursor and buffer after one press of `key`, for a cursor inside the
/// buffer.  Only `Backspace` and `Delete` change the buffer; `Enter` is the
/// caller's business and changes nothing here.
pub open spec fn spec_key_press(cursor: nat, text: Seq<char>, key: Key) -> (nat, Seq<char>) {
    let n = text.len();
    match key {
        Key::Backspace => if cursor > 0 {
            ((cursor - 1) as nat, text.remove(cursor - 1))
        } else {
            (cursor, text)
        },
        Key::Delete => if cursor < n {
            (cursor, text.remove(cursor as int))
        } else {
            (cursor, text)
        },
        Key::Home => {
            let lc = spec_line_col(text, cursor);
            (spec_char_idx(text, lc.0, 0), text)
        },
        Key::End => {
            let lc = spec_line_col(text, cursor);
            (spec_char_idx(text, lc.0, spec_line_at(text, lc.0).len()), text)
        },
        Key::Left => if cursor > 0 {
            ((cursor - 1) as nat, text)
        } else {
            (cursor, text)
        },
        Key::Right => if cursor < n {
            (cursor + 1, text)
        } else {
            (cursor, text)
        },
        Key::Up => {
            let lc = spec_line_col(text, cursor);
            let line = if lc.0 > 0 {
                (lc.0 - 1) as nat
            } else {
                0nat
            };
            (spec_char_idx(text, line, lc.1), text)
        },
        Key::Down => {
            let lc = spec_line_col(text, cursor);
            (spec_char_idx(text, lc.0 + 1, lc.1), text)
        },
        _ => (cursor, text),
    }
}

/// A key press keeps the cursor inside the buffer.
pub proof fn lemma_key_press_cursor_in_text(cursor: nat, text: Seq<char>, key: Key)
    requires
        cursor <= text.len(),
    ensures
        spec_key_press(cursor, text, key).0 <= spec_key_press(cursor, text, key).1.len(),
{
    match key {
        Key::Home => {
            let lc = spec_line_col(text, cursor);
            lemma_char_idx_le_len(text, lc.0, 0);
        },
        Key::End => {
            let lc = spec_line_col(text, cursor);
            lemma_char_idx_le_len(text, lc.0, spec_line_at(text, lc.0).len());
        },
        Key::Up => {
            let lc = spec_line_col(text, cursor);
            let line = if lc.0 > 0 {
                (lc.0 - 1) as nat
            } else {
                0nat
            };
            lemma_char_idx_le_len(text, line, lc.1);
        },
        Key::Down => {
            let lc = spec_line_col(text, cursor);
            lemma_char_idx_le_len(text, lc.0 + 1, lc.1);
        },
        _ => {},
    }
}

/// Backspace, then inserting the removed character at the cursor, restores
/// both the buffer and the cursor exactly.
pub proof fn lemma_backspace_insert_round_trip(cursor: nat, text: Seq<char>)
    requires
        1 <= cursor <= text.len(),
    ensures
        ({
            let r = spec_key_press(cursor, text, Key::Backspace);
            let removed = text[cursor - 1];
            &&& spec_inserted(r.1, r.0, seq![removed]) == text
            &&& r.0 + seq![removed].len() == cursor
        }),
{
    let r = spec_key_press(cursor, text, Key::Backspace);
    let removed = text[cursor - 1];
    assert(spec_inserted(r.1, r.0, seq![removed]) =~= text);
}

/// Home moves the cursor to column 0 of its line; End moves it to the last
/// column, so Home then End traverses exactly the width of the line.
pub proof fn lemma_home_end(cursor: nat, text: Seq<char>)
    requires
        cursor <= text.len(),
    ensures
        ({
            let lc = spec_line_col(text, cursor);
            let width = spec_line_at(text, lc.0).len();
            let home = spec_key_press(cursor, text, Key::Home).0;
            let end = spec_key_press(cursor, text, Key::End).0;
            &&& spec_line_col(text, home) == (lc.0, 0nat)
            &&& spec_line_col(text, end) == (lc.0, width)
            &&& end == home + width
        }),
{
    let lc = spec_line_col(text, cursor);
    let width = spec_line_at(text, lc.0).len();
    lemma_line_col_valid(text, cursor);
    crate::lines::lemma_char_idx_then_line_col(text, lc.0, 0);
    crate::lines::lemma_char_idx_then_line_col(text, lc.0, width);
    crate::lines::lemma_char_idx_offset(text, lc.0, 0);
    crate::lines::lemma_char_idx_offset(text, lc.0, width);
}

/// Up on the first line saturates: the cursor stays on line 0.
pub proof fn lemma_up_saturates(cursor: nat, text: Seq<char>)
    requires
        cursor <= text.len(),
        spec_line_col(text, cursor).0 == 0,
    ensures
        spec_line_col(text, spec_key_press(cursor, text, Key::Up).0).0 == 0,
{
    let lc = spec_line_col(text, cursor);
    crate::lines::lemma_char_idx_then_line_col(text, 0, lc.1);
}

/// Handle one pressed key: deletions, and cursor navigation by character,
/// line and column.  `Enter` and `Escape` are left to the event loop.
pub fn on_key_press(cursor: &mut usize, text: &mut String, key: Key)
    requires
        *old(cursor) <= old(text)@.len(),
    ensures
        (*final(cursor) as nat, final(text)@) == spec_key_press(
            *old(cursor) as nat,
            old(text)@,
            key,
        ),
        *final(cursor) <= final(text)@.len(),
{
    proof {
        lemma_key_press_cursor_in_text(*old(cursor) as nat, old(text)@, key);
    }
    match key {
        Key::Backspace => {
            if *cursor > 0 {
                delete_left(cursor, text);
            }
        },
        Key::Delete => {
            delete_right(cursor, text);
        },
        Key::Home => {
            let pos = line_col_from_char_idx(text.as_str(), *cursor);
            *cursor = char_idx_from_line_col(text.as_str(), (pos.0, 0));
        },
        Key::End => {
            let pos = line_col_from_char_idx(text.as_str(), *cursor);
            proof {
                lemma_line_col_valid(text@, *old(cursor) as nat);
            }
            let line = line_from_number(text.as_str(), pos.0);
            let line_width = line.unicode_len();
            *cursor = char_idx_from_line_col(text.as_str(), (pos.0, line_width));
        },
        Key::Left => {
            if *cursor > 0 {
                *cursor = *cursor - 1;
            }
        },
        Key::Right => {
            let n: usize = text.as_str().unicode_len();
            if *cursor < n {
                *cursor = *cursor + 1;
            }
        },
        Key::Up => {
            let pos = line_col_from_char_idx(text.as_str(), *cursor);
            let line = if pos.0 > 0 {
                pos.0 - 1
            } else {
                0
            };
            *cursor = char_idx_from_line_col(text.as_str(), (line, pos.1));
        },
        Key::Down => {
            let n: usize = text.as_str().unicode_len();
            let pos = line_col_from_char_idx(text.as_str(), *cursor);
            if pos.0 < usize::MAX {
                *cursor = char_idx_from_line_col(text.as_str(), (pos.0 + 1, pos.1));
            } else {
                // a line number this large is past the last line of any
                // text that fits in memory, so the target clamps to the end
                proof {
                    lemma_nl_count_le_len(text@);
                    lemma_char_idx_beyond(text@, pos.0 as nat + 1, pos.1 as nat);
                }
                *cursor = n;
            }
        },
        _ => {},
    }
}

} // verus!
