//! Line and column arithmetic over character sequences.
//!
//! Text is split into lines on `'\n'` (a `'\r'` is an ordinary character).
//! A position in the text is either a character offset — a count of Unicode
//! scalar values from the start — or a `(line, column)` pair, where the
//! column counts characters into that line.  Offsets past the end of the
//! text read as the end of the last line; a column past the end of its line
//! clamps to the line's width, and a line number past the last line clamps
//! to the end of the text.

use vstd::prelude::*;

verus! {

/// Number of `'\n'` characters in `s`; the text has `nl_count(s) + 1` lines.
pub open spec fn nl_count(s: Seq<char>) -> nat
    decreases s.len(),
{
    if s.len() == 0 {
        0
    } else {
        (if s[0] == '\n' {
            1nat
        } else {
            0nat
        }) + nl_count(s.skip(1))
    }
}

/// Width of the first line of `s`: the number of characters before the
/// first `'\n'`, or all of `s` when it has none.
pub open spec fn first_line_len(s: Seq<char>) -> nat
    decreases s.len(),
{
    if s.len() == 0 {
        0
    } else if s[0] == '\n' {
        0
    } else {
        1 + first_line_len(s.skip(1))
    }
}

pub proof fn lemma_first_line_len(s: Seq<char>)
    ensures
        first_line_len(s) <= s.len(),
        forall|j: int| 0 <= j < first_line_len(s) ==> s[j] != '\n',
        first_line_len(s) < s.len() ==> s[first_line_len(s) as int] == '\n',
    decreases s.len(),
{
    if s.len() == 0 {
    } else if s[0] == '\n' {
    } else {
        lemma_first_line_len(s.skip(1));
        assert forall|j: int| 0 <= j < first_line_len(s) implies s[j] != '\n' by {
            if j > 0 {
                assert(s.skip(1)[j - 1] == s[j]);
            }
        }
        if first_line_len(s) < s.len() {
            assert(s.skip(1)[first_line_len(s) as int - 1] == s[first_line_len(s) as int]);
        }
    }
}

/// `first_line_len` is the unique index with no `'\n'` before it that sits
/// either on a `'\n'` or at the end of the text.
pub proof fn lemma_first_line_len_is(s: Seq<char>, i: nat)
    requires
        i <= s.len(),
        forall|j: int| 0 <= j < i ==> s[j] != '\n',
        i < s.len() ==> s[i as int] == '\n',
    ensures
        first_line_len(s) == i,
    decreases s.len(),
{
    if s.len() == 0 {
    } else if s[0] == '\n' {
        assert(i == 0);
    } else {
        assert(i >= 1);
        assert forall|j: int| 0 <= j < i - 1 implies s.skip(1)[j] != '\n' by {
            assert(s.skip(1)[j] == s[j + 1]);
        }
        if i < s.len() {
            assert(s.skip(1)[i - 1] == s[i as int]);
        }
        lemma_first_line_len_is(s.skip(1), (i - 1) as nat);
    }
}

pub proof fn lemma_nl_count_le_len(s: Seq<char>)
    ensures
        nl_count(s) <= s.len(),
    decreases s.len(),
{
    if s.len() > 0 {
        lemma_nl_count_le_len(s.skip(1));
    }
}

/// Peeling the first line off `s` removes exactly one `'\n'`.
pub proof fn lemma_nl_decompose(s: Seq<char>)
    ensures
        first_line_len(s) == s.len() ==> nl_count(s) == 0,
        first_line_len(s) < s.len() ==> nl_count(s) == 1 + nl_count(
            s.skip(first_line_len(s) as int + 1),
        ),
    decreases s.len(),
{
    lemma_first_line_len(s);
    if s.len() == 0 {
    } else if s[0] == '\n' {
        assert(s.skip(1) =~= s.skip(first_line_len(s) as int + 1));
    } else {
        lemma_nl_decompose(s.skip(1));
        lemma_first_line_len(s.skip(1));
        if first_line_len(s) < s.len() {
            assert(s.skip(1).skip(first_line_len(s.skip(1)) as int + 1) =~= s.skip(
                first_line_len(s) as int + 1,
            ));
        }
    }
}

/// Line number and column of character offset `i` in `s`.  An offset past
/// the end reads as the end of the last line.
pub open spec fn spec_line_col(s: Seq<char>, i: nat) -> (nat, nat)
    decreases s.len(),
{
    let w = first_line_len(s);
    if i <= w || w >= s.len() {
        (
            0nat,
            if i <= w {
                i
            } else {
                w
            },
        )
    } else {
        let r = spec_line_col(s.skip(w as int + 1), (i - w - 1) as nat);
        (r.0 + 1, r.1)
    }
}

/// Character offset of `(line, col)` in `s`: `col` clamps to the width of
/// line `line`, and a `line` past the last line clamps to the end of `s`.
pub open spec fn spec_char_idx(s: Seq<char>, line: nat, col: nat) -> nat
    decreases s.len(),
{
    let w = first_line_len(s);
    if line == 0 {
        if col <= w {
            col
        } else {
            w
        }
    } else if w >= s.len() {
        s.len()
    } else {
        w + 1 + spec_char_idx(s.skip(w as int + 1), (line - 1) as nat, col)
    }
}

/// The characters of line `line` of `s`, without any separator.
/// Meaningful for `line <= nl_count(s)`.
pub open spec fn spec_line_at(s: Seq<char>, line: nat) -> Seq<char>
    decreases s.len(),
{
    let w = first_line_len(s);
    if line == 0 {
        s.take(w as int)
    } else if w >= s.len() {
        s
    } else {
        spec_line_at(s.skip(w as int + 1), (line - 1) as nat)
    }
}

pub proof fn lemma_char_idx_le_len(s: Seq<char>, line: nat, col: nat)
    ensures
        spec_char_idx(s, line, col) <= s.len(),
    decreases s.len(),
{
    lemma_first_line_len(s);
    let w = first_line_len(s);
    if line == 0 {
    } else if w >= s.len() {
    } else {
        lemma_char_idx_le_len(s.skip(w as int + 1), (line - 1) as nat, col);
    }
}

/// A line number past the last line maps to the end of the text.
pub proof fn lemma_char_idx_beyond(s: Seq<char>, line: nat, col: nat)
    requires
        line > nl_count(s),
    ensures
        spec_char_idx(s, line, col) == s.len(),
    decreases s.len(),
{
    lemma_first_line_len(s);
    lemma_nl_decompose(s);
    let w = first_line_len(s);
    if line == 0 {
    } else if w >= s.len() {
    } else {
        lemma_char_idx_beyond(s.skip(w as int + 1), (line - 1) as nat, col);
    }
}

/// `spec_line_col` always names an existing line, and a column within it.
pub proof fn lemma_line_col_valid(s: Seq<char>, i: nat)
    ensures
        spec_line_col(s, i).0 <= nl_count(s),
        spec_line_col(s, i).1 <= spec_line_at(s, spec_line_col(s, i).0).len(),
    decreases s.len(),
{
    lemma_first_line_len(s);
    lemma_nl_decompose(s);
    let w = first_line_len(s);
    if i <= w || w >= s.len() {
        assert(s.take(w as int).len() == w);
    } else {
        lemma_line_col_valid(s.skip(w as int + 1), (i - w - 1) as nat);
    }
}

/// Projecting `(line, col)` to an offset and back gives the same line, with
/// the column clamped to the line's width.
pub proof fn lemma_char_idx_then_line_col(s: Seq<char>, line: nat, col: nat)
    requires
        line <= nl_count(s),
    ensures
        ({
            let width = spec_line_at(s, line).len();
            spec_line_col(s, spec_char_idx(s, line, col)) == (
                line,
                if col <= width {
                    col
                } else {
                    width
                },
            )
        }),
    decreases s.len(),
{
    lemma_first_line_len(s);
    lemma_nl_decompose(s);
    let w = first_line_len(s);
    if line == 0 {
        assert(s.take(w as int).len() == w);
    } else {
        lemma_char_idx_then_line_col(s.skip(w as int + 1), (line - 1) as nat, col);
        lemma_char_idx_le_len(s.skip(w as int + 1), (line - 1) as nat, col);
    }
}

/// The offset of `(line, col)` is the start of the line plus the clamped
/// column, so a line is traversed exactly by its columns.
pub proof fn lemma_char_idx_offset(s: Seq<char>, line: nat, col: nat)
    requires
        line <= nl_count(s),
    ensures
        ({
            let width = spec_line_at(s, line).len();
            spec_char_idx(s, line, col) == spec_char_idx(s, line, 0) + (
            if col <= width {
                col
            } else {
                width
            })
        }),
    decreases s.len(),
{
    lemma_first_line_len(s);
    lemma_nl_decompose(s);
    let w = first_line_len(s);
    if line == 0 {
        assert(s.take(w as int).len() == w);
    } else if w >= s.len() {
    } else {
        lemma_char_idx_offset(s.skip(w as int + 1), (line - 1) as nat, col);
    }
}

/// Converting an offset to `(line, col)` and back yields the offset,
/// clamped to the length of the text.
pub proof fn lemma_line_col_round_trip(s: Seq<char>, i: nat)
    ensures
        spec_char_idx(s, spec_line_col(s, i).0, spec_line_col(s, i).1) == (if i <= s.len() {
            i
        } else {
            s.len()
        }),
    decreases s.len(),
{
    lemma_first_line_len(s);
    let w = first_line_len(s);
    if i <= w || w >= s.len() {
    } else {
        lemma_line_col_round_trip(s.skip(w as int + 1), (i - w - 1) as nat);
    }
}

/// Character offset of the first `'\n'` in `s`, or the character count of
/// `s` when it has none.
fn first_newline(s: &str) -> (w: usize)
    ensures
        w as nat == first_line_len(s@),
        w <= s@.len(),
{
    let n: usize = s.unicode_len();
    let mut i: usize = 0;
    while i < n
        invariant
            i <= n,
            n as nat == s@.len(),
            forall|j: int| 0 <= j < i ==> s@[j] != '\n',
        decreases n - i,
    {
        if s.get_char(i) == '\n' {
            proof {
                lemma_first_line_len_is(s@, i as nat);
            }
            return i;
        }
        i += 1;
    }
    proof {
        lemma_first_line_len_is(s@, n as nat);
    }
    n
}

/// Number of `'\n'` characters in `s`.
fn newline_total(s: &str) -> (c: usize)
    ensures
        c as nat == nl_count(s@),
    decreases s@.len(),
{
    let n: usize = s.unicode_len();
    let w: usize = first_newline(s);
    proof {
        lemma_nl_decompose(s@);
        lemma_nl_count_le_len(s@);
    }
    if w == n {
        0
    } else {
        let rest = s.substring_char(w + 1, n);
        proof {
            assert(rest@ =~= s@.skip(w + 1));
            lemma_nl_count_le_len(rest@);
        }
        let c = newline_total(rest);
        c + 1
    }
}

/// Line number and column of character offset `char_idx` in `s`.  Lines are
/// separated by `'\n'`; an offset past the end of the text yields the last
/// line and its end column.
pub fn line_col_from_char_idx(s: &str, char_idx: usize) -> (r: (usize, usize))
    ensures
        (r.0 as nat, r.1 as nat) == spec_line_col(s@, char_idx as nat),
    decreases s@.len(),
{
    let n: usize = s.unicode_len();
    let w: usize = first_newline(s);
    if char_idx <= w || w == n {
        (
            0,
            if char_idx <= w {
                char_idx
            } else {
                w
            },
        )
    } else {
        let rest = s.substring_char(w + 1, n);
        proof {
            assert(rest@ =~= s@.skip(w + 1));
        }
        let r = line_col_from_char_idx(rest, char_idx - (w + 1));
        proof {
            lemma_line_col_valid(rest@, (char_idx - (w + 1)) as nat);
            lemma_nl_count_le_len(rest@);
        }
        (r.0 + 1, r.1)
    }
}

/// Character offset of the position `pos = (line, col)` in `s`.  The column
/// clamps to the width of that line, and a line number past the last line
/// clamps to the end of the text.
pub fn char_idx_from_line_col(s: &str, pos: (usize, usize)) -> (r: usize)
    ensures
        r as nat == spec_char_idx(s@, pos.0 as nat, pos.1 as nat),
        r <= s@.len(),
    decreases s@.len(),
{
    let n: usize = s.unicode_len();
    let w: usize = first_newline(s);
    if pos.0 == 0 {
        if pos.1 <= w {
            pos.1
        } else {
            w
        }
    } else if w == n {
        n
    } else {
        let rest = s.substring_char(w + 1, n);
        proof {
            assert(rest@ =~= s@.skip(w + 1));
        }
        let r = char_idx_from_line_col(rest, (pos.0 - 1, pos.1));
        w + 1 + r
    }
}

/// The contents of line `number`, for a line number the text has.
fn nth_line<'a>(s: &'a str, number: usize) -> (line: &'a str)
    requires
        number as nat <= nl_count(s@),
    ensures
        line@ == spec_line_at(s@, number as nat),
    decreases s@.len(),
{
    let n: usize = s.unicode_len();
    let w: usize = first_newline(s);
    proof {
        lemma_nl_decompose(s@);
    }
    if number == 0 {
        let line = s.substring_char(0, w);
        proof {
            assert(line@ =~= s@.take(w as int));
        }
        line
    } else {
        let rest = s.substring_char(w + 1, n);
        proof {
            assert(rest@ =~= s@.skip(w + 1));
        }
        nth_line(rest, number - 1)
    }
}

/// The contents of line `desired_line_number` of `s`, without the
/// separator; all of `s` when the text has no such line.
pub fn line_from_number<'a>(s: &'a str, desired_line_number: usize) -> (line: &'a str)
    ensures
        desired_line_number as nat <= nl_count(s@) ==> line@ == spec_line_at(
            s@,
            desired_line_number as nat,
        ),
        desired_line_number as nat > nl_count(s@) ==> line@ == s@,
{
    let total = newline_total(s);
    if desired_line_number <= total {
        nth_line(s, desired_line_number)
    } else {
        s
    }
}

} // verus!
