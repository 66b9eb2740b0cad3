//! The mathematical model of a document: a sequence of lines, each line the
//! characters between newline separators.  A document always has at least one
//! line; a trailing newline yields a final empty line.  Character offsets into
//! the flat text are related to (line, column) pairs through `start_offset`.

use vstd::prelude::*;

verus! {

/// Index of the first newline in `s`, or `s.len()` if there is none.
pub open spec fn first_newline(s: Seq<char>) -> nat
    decreases s.len(),
{
    if s.len() == 0 {
        0
    } else if s[0] == '\n' {
        0
    } else {
        1 + first_newline(s.skip(1))
    }
}

/// The lines of a flat text, split at `'\n'`; the separators themselves
/// appear in no line.
pub open spec fn lines_of(s: Seq<char>) -> Seq<Seq<char>>
    decreases s.len(),
{
    let k = first_newline(s) as int;
    if k >= s.len() {
        seq![s]
    } else {
        seq![s.take(k)] + lines_of(s.skip(k + 1))
    }
}

/// No line holds a newline character.
pub open spec fn lines_ok(lines: Seq<Seq<char>>) -> bool {
    forall|i: int, j: int|
        0 <= i < lines.len() && 0 <= j < lines[i].len() ==> #[trigger] lines[i][j] != '\n'
}

/// Character offset of the start of line `i` in the flat text: every earlier
/// line contributes its length plus one separator.
pub open spec fn start_offset(lines: Seq<Seq<char>>, i: int) -> int
    decreases i,
{
    if i <= 0 {
        0
    } else {
        start_offset(lines, i - 1) + lines[i - 1].len() + 1
    }
}

/// Total character count of the flat text joined from `lines` with one
/// newline between consecutive lines.
pub open spec fn join_len(lines: Seq<Seq<char>>) -> int {
    start_offset(lines, lines.len() as int) - 1
}

/// `(i, j)` names an existing character of the text at flat offset `k`:
/// either a character of line `i`, or the newline that ends a non-final line.
pub open spec fn valid_char_pos(lines: Seq<Seq<char>>, i: int, j: int, k: int) -> bool {
    &&& 0 <= i < lines.len()
    &&& 0 <= j
    &&& k == start_offset(lines, i) + j
    &&& (j < lines[i].len() || (j == lines[i].len() && i < lines.len() - 1))
}

/// The character named by a `valid_char_pos` decomposition.
pub open spec fn char_at_pos(lines: Seq<Seq<char>>, i: int, j: int) -> char {
    if j < lines[i].len() {
        lines[i][j]
    } else {
        '\n'
    }
}

/// `(i, j)` names an insertion point at flat offset `k`: column `j` of line
/// `i`, the end of the line included.
pub open spec fn valid_insert_pos(lines: Seq<Seq<char>>, i: int, j: int, k: int) -> bool {
    &&& 0 <= i < lines.len()
    &&& 0 <= j <= lines[i].len()
    &&& k == start_offset(lines, i) + j
}

/// The lines after one character is inserted at column `j` of line `i`:
/// a newline splits the line, any other character extends it.
pub open spec fn lines_after_insert(lines: Seq<Seq<char>>, i: int, j: int, c: char) -> Seq<
    Seq<char>,
> {
    if c == '\n' {
        lines.take(i) + seq![lines[i].take(j), lines[i].skip(j)] + lines.skip(i + 1)
    } else {
        lines.update(i, lines[i].insert(j, c))
    }
}

/// The lines after the character at column `j` of line `i` is removed:
/// removing the newline that ends line `i` joins it with its successor.
pub open spec fn lines_after_remove(lines: Seq<Seq<char>>, i: int, j: int) -> Seq<Seq<char>> {
    if j < lines[i].len() {
        lines.update(i, lines[i].remove(j))
    } else {
        lines.take(i) + seq![lines[i] + lines[i + 1]] + lines.skip(i + 2)
    }
}

/// UTF-8 byte length of a character, by code point range.
pub open spec fn utf8_len(c: char) -> int {
    if (c as int) < 0x80 {
        1
    } else if (c as int) < 0x800 {
        2
    } else if (c as int) < 0x10000 {
        3
    } else {
        4
    }
}

/// UTF-8 byte length of a character sequence.
pub open spec fn utf8_len_of(s: Seq<char>) -> int
    decreases s.len(),
{
    if s.len() == 0 {
        0
    } else {
        utf8_len(s[0]) + utf8_len_of(s.skip(1))
    }
}

/// Byte offset of the start of line `i`, each separator one byte.
pub open spec fn byte_offset(lines: Seq<Seq<char>>, i: int) -> int
    decreases i,
{
    if i <= 0 {
        0
    } else {
        byte_offset(lines, i - 1) + utf8_len_of(lines[i - 1]) + 1
    }
}

/// Total UTF-8 byte count of the joined text.
pub open spec fn join_byte_len(lines: Seq<Seq<char>>) -> int {
    byte_offset(lines, lines.len() as int) - 1
}

/// Inserting one character keeps every line free of newlines: a newline
/// splits a line, any other character lands inside one.
pub proof fn lemma_lines_ok_after_insert(lines: Seq<Seq<char>>, i: int, j: int, c: char)
    requires
        lines_ok(lines),
        0 <= i < lines.len(),
        0 <= j <= lines[i].len(),
    ensures
        lines_ok(lines_after_insert(lines, i, j, c)),
{
    let after = lines_after_insert(lines, i, j, c);
    if c == '\n' {
        assert forall|a: int, b: int|
            0 <= a < after.len() && 0 <= b < after[a].len() implies #[trigger] after[a][b] != '\n' by {
            if a < i {
                assert(after[a] == lines[a]);
            } else if a == i {
                assert(after[a][b] == lines[i][b]);
            } else if a == i + 1 {
                assert(after[a][b] == lines[i][b + j]);
            } else {
                assert(after[a] == lines[a - 1]);
            }
        }
    } else {
        assert forall|a: int, b: int|
            0 <= a < after.len() && 0 <= b < after[a].len() implies #[trigger] after[a][b] != '\n' by {
            if a == i {
                if b < j {
                    assert(after[a][b] == lines[i][b]);
                } else if b > j {
                    assert(after[a][b] == lines[i][b - 1]);
                }
            } else {
                assert(after[a] == lines[a]);
            }
        }
    }
}

/// Removing one character keeps every line free of newlines: removing a
/// separator concatenates two clean lines.
pub proof fn lemma_lines_ok_after_remove(lines: Seq<Seq<char>>, i: int, j: int)
    requires
        lines_ok(lines),
        0 <= i < lines.len(),
        0 <= j <= lines[i].len(),
        j == lines[i].len() ==> i < lines.len() - 1,
    ensures
        lines_ok(lines_after_remove(lines, i, j)),
{
    let after = lines_after_remove(lines, i, j);
    if j < lines[i].len() {
        assert forall|a: int, b: int|
            0 <= a < after.len() && 0 <= b < after[a].len() implies #[trigger] after[a][b] != '\n' by {
            if a == i {
                if b < j {
                    assert(after[a][b] == lines[i][b]);
                } else {
                    assert(after[a][b] == lines[i][b + 1]);
                }
            } else {
                assert(after[a] == lines[a]);
            }
        }
    } else {
        assert forall|a: int, b: int|
            0 <= a < after.len() && 0 <= b < after[a].len() implies #[trigger] after[a][b] != '\n' by {
            if a < i {
                assert(after[a] == lines[a]);
            } else if a == i {
                if b < lines[i].len() {
                    assert(after[a][b] == lines[i][b]);
                } else {
                    assert(after[a][b] == lines[i + 1][b - lines[i].len()]);
                }
            } else {
                assert(after[a] == lines[a + 1]);
            }
        }
    }
}

pub proof fn lemma_first_newline(s: Seq<char>)
    ensures
        first_newline(s) <= s.len(),
        forall|i: int| 0 <= i < first_newline(s) ==> s[i] != '\n',
        first_newline(s) < s.len() ==> s[first_newline(s) as int] == '\n',
    decreases s.len(),
{
    if s.len() == 0 {
    } else if s[0] == '\n' {
    } else {
        lemma_first_newline(s.skip(1));
        assert forall|i: int| 0 <= i < first_newline(s) implies s[i] != '\n' by {
            if i > 0 {
                assert(s.skip(1)[i - 1] == s[i]);
            }
        }
        if first_newline(s) < s.len() {
            assert(s.skip(1)[first_newline(s) - 1] == s[first_newline(s) as int]);
        }
    }
}

/// A split text has at least one line and no newline inside any line.
pub proof fn lemma_lines_of_wf(s: Seq<char>)
    ensures
        lines_of(s).len() >= 1,
        lines_ok(lines_of(s)),
    decreases s.len(),
{
    lemma_first_newline(s);
    let k = first_newline(s) as int;
    if k >= s.len() {
        assert forall|i: int, j: int|
            0 <= i < lines_of(s).len() && 0 <= j < lines_of(s)[i].len() implies #[trigger] lines_of(
            s,
        )[i][j] != '\n' by {
            assert(lines_of(s)[i] == s);
        }
    } else {
        let tail = s.skip(k + 1);
        lemma_lines_of_wf(tail);
        assert forall|i: int, j: int|
            0 <= i < lines_of(s).len() && 0 <= j < lines_of(s)[i].len() implies #[trigger] lines_of(
            s,
        )[i][j] != '\n' by {
            if i == 0 {
                assert(lines_of(s)[0] == s.take(k));
                assert(s.take(k)[j] == s[j]);
            } else {
                assert(lines_of(s)[i] == lines_of(tail)[i - 1]);
            }
        }
    }
}

/// Line starts never decrease as the line index grows.
pub proof fn lemma_start_offset_mono(lines: Seq<Seq<char>>, i: int, j: int)
    requires
        i <= j,
    ensures
        start_offset(lines, i) <= start_offset(lines, j),
    decreases j - i,
{
    if i < j {
        lemma_start_offset_mono(lines, i, j - 1);
    }
}

/// Each of the first `i` lines contributes at least its separator, so line
/// starts grow at least as fast as the index.
pub proof fn lemma_start_offset_ge(lines: Seq<Seq<char>>, i: int)
    requires
        0 <= i,
    ensures
        start_offset(lines, i) >= i,
    decreases i,
{
    if i > 0 {
        lemma_start_offset_ge(lines, i - 1);
    }
}

/// Every line lies inside the joined text: its start is non-negative and its
/// characters end at or before `join_len`.
pub proof fn lemma_start_offset_bound(lines: Seq<Seq<char>>, i: int)
    requires
        0 <= i < lines.len(),
    ensures
        0 <= start_offset(lines, i),
        start_offset(lines, i) + lines[i].len() <= join_len(lines),
        i < lines.len() - 1 ==> start_offset(lines, i) + lines[i].len() + 1 == start_offset(
            lines,
            i + 1,
        ),
{
    lemma_start_offset_mono(lines, 0, i);
    lemma_start_offset_mono(lines, i + 1, lines.len() as int);
}

} // verus!
