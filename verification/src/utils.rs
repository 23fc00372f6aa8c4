//! Maps a character offset in a source string to a 1-based (row, column)
//! position, scanning from the start and counting newlines.

use vstd::prelude::*;

verus! {

/// The (row, column) position, both 1-based, reached after reading the first
/// `n` characters of `s`.  Each newline increments the row and resets the
/// column to 1; every other character increments the column.
pub open spec fn row_col(s: Seq<char>, n: int) -> (int, int)
    decreases n,
{
    if n <= 0 {
        (1, 1)
    } else {
        let prev: (int, int) = row_col(s, n - 1);
        if s[n - 1] == '\n' {
            (prev.0 + 1, 1)
        } else {
            (prev.0, prev.1 + 1)
        }
    }
}

/// The number of characters actually scanned for an offset: the offset
/// itself, or the whole string when the offset lies past its end.
pub open spec fn clamped_offset(s: Seq<char>, index: int) -> int {
    if index <= s.len() {
        index
    } else {
        s.len() as int
    }
}

/// Resolves a character offset in `input` to a 1-based (row, column) pair.
/// An offset past the end of the string resolves to the position immediately
/// after the last character.
pub fn rows_cols_index(input: &str, index: usize) -> (r: (usize, usize))
    requires
        input@.len() < usize::MAX,
    ensures
        (r.0 as int, r.1 as int) == row_col(input@, clamped_offset(input@, index as int)),
{
    let len: usize = input.unicode_len();
    let mut rows: usize = 1;
    let mut cols: usize = 1;
    let mut i: usize = 0;

    while i < len && i < index
        invariant
            input@.len() == len < usize::MAX,
            0 <= i <= len,
            i <= index,
            1 <= rows && 1 <= cols,
            rows + cols <= i + 2,
            (rows as int, cols as int) == row_col(input@, i as int),
        decreases len - i,
    {
        if input.get_char(i) == '\n' {
            rows = rows + 1;
            cols = 1;
        } else {
            cols = cols + 1;
        }
        i = i + 1;
    }

    (rows, cols)
}

} // verus!
