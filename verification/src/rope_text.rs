//! Trusted boundary around ropey's `Rope`, the balanced text container that
//! backs the document.  Every contract below speaks of `rope_lines`, the
//! sequence of lines the rope holds.  The crate builds ropey without its
//! optional line-ending features, so the only line break is `'\n'`.

use crate::line_model::{
    char_at_pos, join_byte_len, join_len, lines_after_insert, lines_after_remove, lines_of,
    start_offset, valid_char_pos, valid_insert_pos,
};
use ropey::Rope;
use vstd::prelude::*;

verus! {

#[verifier::external_type_specification]
#[verifier::external_body]
pub struct ExRope(Rope);

/// The lines held by a rope: its text split at newline characters.
pub uninterp spec fn rope_lines(r: Rope) -> Seq<Seq<char>>;

/// Relies on ropey's `Rope::new`: an empty rope, which holds one empty line.
#[verifier::external_body]
pub fn rope_new() -> (r: Rope)
    ensures
        rope_lines(r) == seq![Seq::<char>::empty()],
{
    Rope::new()
}

/// Relies on ropey's `Rope::from_str`: the rope holds exactly the given text.
#[verifier::external_body]
pub fn rope_from_str(s: &str) -> (r: Rope)
    ensures
        rope_lines(r) == lines_of(s@),
{
    Rope::from_str(s)
}

/// Relies on ropey's `Rope::len_lines`: one more than the number of line
/// breaks, so exactly the number of lines of the model.
#[verifier::external_body]
pub fn rope_len_lines(r: &Rope) -> (n: usize)
    ensures
        n == rope_lines(*r).len(),
{
    r.len_lines()
}

/// Relies on ropey's `Rope::len_chars`: the total character count.
#[verifier::external_body]
pub fn rope_len_chars(r: &Rope) -> (n: usize)
    ensures
        n == join_len(rope_lines(*r)),
{
    r.len_chars()
}

/// Relies on ropey's `Rope::len_bytes`: the UTF-8 byte count of the text.
#[verifier::external_body]
pub fn rope_len_bytes(r: &Rope) -> (n: usize)
    ensures
        n == join_byte_len(rope_lines(*r)),
{
    r.len_bytes()
}

/// Relies on ropey's `Rope::line_to_char`: the character index at which the
/// given line begins.
#[verifier::external_body]
pub fn rope_line_to_char(r: &Rope, line_idx: usize) -> (n: usize)
    requires
        line_idx < rope_lines(*r).len(),
    ensures
        n == start_offset(rope_lines(*r), line_idx as int),
{
    r.line_to_char(line_idx)
}

/// Relies on ropey's `Rope::char`: the character at the given character
/// index, which is a character of some line or the newline ending one.
#[verifier::external_body]
pub fn rope_char_at(r: &Rope, char_idx: usize) -> (c: char)
    requires
        exists|i: int, j: int| valid_char_pos(rope_lines(*r), i, j, char_idx as int),
    ensures
        forall|i: int, j: int|
            valid_char_pos(rope_lines(*r), i, j, char_idx as int) ==> c == char_at_pos(
                rope_lines(*r),
                i,
                j,
            ),
{
    r.char(char_idx)
}

/// Relies on ropey's `Rope::insert_char`: inserting a plain character at a
/// column of a line extends that line; inserting a newline splits it.  A rope
/// that an insertion succeeded on had fewer than `usize::MAX` characters,
/// since `len_chars` counts them in a `usize`.
#[verifier::external_body]
pub fn rope_insert_char(r: &mut Rope, char_idx: usize, c: char)
    requires
        exists|i: int, j: int| valid_insert_pos(rope_lines(*old(r)), i, j, char_idx as int),
    ensures
        forall|i: int, j: int|
            valid_insert_pos(rope_lines(*old(r)), i, j, char_idx as int) ==> rope_lines(*final(r))
                == lines_after_insert(rope_lines(*old(r)), i, j, c),
        join_len(rope_lines(*old(r))) < usize::MAX,
{
    r.insert_char(char_idx, c)
}

/// Relies on ropey's `Rope::remove` of a one-character range: removing a
/// character of a line shortens it; removing the newline that ends a line
/// joins it with its successor.
#[verifier::external_body]
pub fn rope_remove_char(r: &mut Rope, char_idx: usize)
    requires
        exists|i: int, j: int| valid_char_pos(rope_lines(*old(r)), i, j, char_idx as int),
    ensures
        forall|i: int, j: int|
            valid_char_pos(rope_lines(*old(r)), i, j, char_idx as int) ==> rope_lines(*final(r))
                == lines_after_remove(rope_lines(*old(r)), i, j),
{
    r.remove(char_idx..char_idx + 1)
}

} // verus!
