//! What the renderer prints, as mathematics: decimal numbers, padding, tab
//! expansion, the gutter, the status bar and the cursor position.  `draw_ops`
//! is the exact sequence of draw commands one `draw` call queues.

use crate::editor::{EdView, Mode};
use crate::line_model::{join_byte_len, utf8_len};
use crate::term::{DrawOpView, TextStyle};
use vstd::arithmetic::div_mod::lemma_add_mod_noop;
use vstd::prelude::*;

verus! {

/// The decimal digits of `n`, most significant first.
pub open spec fn dec_digits(n: nat) -> Seq<char>
    decreases n,
{
    if n < 10 {
        seq![digit_char(n)]
    } else {
        dec_digits(n / 10).push(digit_char(n % 10))
    }
}

pub open spec fn digit_char(d: nat) -> char {
    (48 + d as u8) as char
}

/// `n` spaces (none if `n` is negative).
pub open spec fn spaces(n: int) -> Seq<char> {
    Seq::new(
        if n <= 0 {
            0
        } else {
            n as nat
        },
        |i: int| ' ',
    )
}

/// `s` right-aligned in a field of `width` cells; wider text is kept whole.
pub open spec fn pad_left(s: Seq<char>, width: int) -> Seq<char> {
    spaces(width - s.len()) + s
}

/// `s` left-justified and padded with spaces to `width` cells.
pub open spec fn pad_right(s: Seq<char>, width: int) -> Seq<char> {
    s + spaces(width - s.len())
}

/// What one character prints as: a tab becomes four spaces.
pub open spec fn tab_expansion(c: char) -> Seq<char> {
    if c == '\t' {
        seq![' ', ' ', ' ', ' ']
    } else {
        seq![c]
    }
}

pub open spec fn expand_tabs(s: Seq<char>) -> Seq<char>
    decreases s.len(),
{
    if s.len() == 0 {
        Seq::empty()
    } else {
        expand_tabs(s.drop_last()) + tab_expansion(s.last())
    }
}

/// Cells one character occupies on screen: four for a tab, otherwise its
/// UTF-8 length, as the cursor arithmetic counts it.
pub open spec fn char_cells(c: char) -> int {
    if c == '\t' {
        4
    } else {
        utf8_len(c)
    }
}

pub open spec fn visual_width(s: Seq<char>) -> int
    decreases s.len(),
{
    if s.len() == 0 {
        0
    } else {
        visual_width(s.drop_last()) + char_cells(s.last())
    }
}

/// Column coordinates are reported to the terminal modulo its 16-bit range.
pub open spec fn clip_u16(n: int) -> u16 {
    (n % 0x10000) as u16
}

/// Width of the line-number gutter plus its separator column: at least five
/// cells, more when the line count needs more digits.
pub open spec fn text_start_of(lc: int) -> int {
    let d = if lc <= 1 {
        0
    } else {
        dec_digits((lc - 1) as nat).len() as int
    };
    if d < 5 {
        5
    } else {
        d
    }
}

pub open spec fn mode_label(m: Mode) -> Seq<char> {
    match m {
        Mode::Normal => "NRM"@,
        Mode::Insert => "INS"@,
        Mode::Command => "CMD"@,
    }
}

/// The status line before padding: the mode, then the command buffer in
/// Command mode, else the pending error, else the document statistics.
pub open spec fn status_core(v: EdView) -> Seq<char> {
    mode_label(v.mode) + " | "@ + (match v.mode {
        Mode::Command => v.command,
        _ => match v.command_error {
            Some(e) => e,
            None => dec_digits(v.lines.len() as nat) + " lines | "@ + dec_digits(
                join_byte_len(v.lines) as nat,
            ) + " bytes"@,
        },
    })
}

pub open spec fn status_text(v: EdView) -> Seq<char> {
    pad_right(status_core(v), v.width)
}

/// The body text of one visible line: tabs expanded, the newline of a
/// non-final line kept.
pub open spec fn line_text(v: EdView, li: int) -> Seq<char> {
    expand_tabs(v.lines[li]) + (if li < v.lines.len() - 1 {
        seq!['\n']
    } else {
        Seq::<char>::empty()
    })
}

/// The draw commands for body row `i`: a right-aligned line number and the
/// line's text, or a filler glyph past the end of the document.
pub open spec fn row_ops(v: EdView, ts: int, i: int) -> Seq<DrawOpView> {
    let li = v.top_line + i;
    if li < v.lines.len() {
        seq![
            DrawOpView::Print {
                x: 0,
                y: i as u16,
                text: pad_left(dec_digits((li + 1) as nat), ts - 1),
                style: TextStyle::LineNumber,
            },
            DrawOpView::Print {
                x: clip_u16(ts),
                y: i as u16,
                text: line_text(v, li),
                style: TextStyle::Plain,
            },
        ]
    } else {
        seq![
            DrawOpView::Print {
                x: 0,
                y: i as u16,
                text: pad_left(seq!['~'], ts - 1),
                style: TextStyle::Filler,
            },
        ]
    }
}

pub open spec fn rows_ops(v: EdView, ts: int, n: int) -> Seq<DrawOpView>
    decreases n,
{
    if n <= 0 {
        Seq::empty()
    } else {
        rows_ops(v, ts, n - 1) + row_ops(v, ts, n - 1)
    }
}

/// A full body repaint: clear the screen, then every visible row.
pub open spec fn body_ops(v: EdView, ts: int) -> Seq<DrawOpView> {
    seq![DrawOpView::Clear] + rows_ops(v, ts, v.height - 1)
}

pub open spec fn status_op(v: EdView) -> DrawOpView {
    DrawOpView::Print {
        x: 0,
        y: (v.height - 1) as u16,
        text: status_text(v),
        style: TextStyle::Status,
    }
}

/// Where the terminal cursor is placed: past the gutter at the visual column
/// in Normal and Insert mode, after the command prompt in Command mode.
pub open spec fn cursor_op(v: EdView, ts: int) -> DrawOpView {
    match v.mode {
        Mode::Command => DrawOpView::MoveCursor {
            x: clip_u16(6 + v.command.len() as int),
            y: (v.height - 1) as u16,
        },
        _ => DrawOpView::MoveCursor {
            x: clip_u16(ts + visual_width(v.lines[v.cursor_line].take(v.cursor_col))),
            y: (v.cursor_line - v.top_line) as u16,
        },
    }
}

/// Everything one `draw` call queues: hide the cursor, repaint the body when
/// dirty, always redraw the status bar and the cursor, show the cursor.
pub open spec fn draw_ops(v: EdView) -> Seq<DrawOpView> {
    let ts = text_start_of(v.lines.len() as int);
    seq![DrawOpView::HideCursor] + (if v.dirty {
        body_ops(v, ts)
    } else {
        Seq::<DrawOpView>::empty()
    }) + seq![status_op(v)] + seq![cursor_op(v, ts)] + seq![DrawOpView::ShowCursor]
}

/// Taking one more character off the front steps `expand_tabs` by one.
pub proof fn lemma_expand_take_step(s: Seq<char>, t: int)
    requires
        0 <= t < s.len(),
    ensures
        expand_tabs(s.take(t + 1)) == expand_tabs(s.take(t)) + tab_expansion(s[t]),
{
    assert(s.take(t + 1).drop_last() =~= s.take(t));
    assert(s.take(t + 1).last() == s[t]);
}

/// Taking one more character off the front steps `visual_width` by one cell
/// count.
pub proof fn lemma_visual_take_step(s: Seq<char>, t: int)
    requires
        0 <= t < s.len(),
    ensures
        visual_width(s.take(t + 1)) == visual_width(s.take(t)) + char_cells(s[t]),
{
    assert(s.take(t + 1).drop_last() =~= s.take(t));
    assert(s.take(t + 1).last() == s[t]);
}

/// Append the decimal digits of `n`.
pub(crate) fn push_digits(out: &mut Vec<char>, n: usize)
    ensures
        final(out)@ == old(out)@ + dec_digits(n as nat),
    decreases n,
{
    if n < 10 {
        out.push((48 + n as u8) as char);
        proof {
            assert(final(out)@ =~= old(out)@ + dec_digits(n as nat));
        }
    } else {
        push_digits(out, n / 10);
        out.push((48 + (n % 10) as u8) as char);
        proof {
            assert(final(out)@ =~= old(out)@ + dec_digits(n as nat));
        }
    }
}

/// How many decimal digits `n` prints as.
pub(crate) fn count_digits(n: usize) -> (d: usize)
    ensures
        d == dec_digits(n as nat).len(),
        d <= n + 1,
    decreases n,
{
    if n < 10 {
        1
    } else {
        1 + count_digits(n / 10)
    }
}

pub(crate) fn push_spaces(out: &mut Vec<char>, n: usize)
    ensures
        final(out)@ == old(out)@ + spaces(n as int),
{
    let mut k: usize = 0;
    while k < n
        invariant
            k <= n,
            out@ == old(out)@ + spaces(k as int),
        decreases n - k,
    {
        out.push(' ');
        k += 1;
        proof {
            assert(out@ =~= old(out)@ + spaces(k as int));
        }
    }
    proof {
        assert(out@ =~= old(out)@ + spaces(n as int));
    }
}

/// The gutter text for a real line: its one-based number, right-aligned.
pub(crate) fn padded_number(n: usize, width: usize) -> (v: Vec<char>)
    ensures
        v@ == pad_left(dec_digits(n as nat), width as int),
{
    let d = count_digits(n);
    let mut out: Vec<char> = Vec::new();
    if d < width {
        push_spaces(&mut out, width - d);
    }
    push_digits(&mut out, n);
    proof {
        assert(out@ =~= pad_left(dec_digits(n as nat), width as int));
    }
    out
}

/// The gutter text past the end of the document: a right-aligned filler.
pub(crate) fn padded_filler(width: usize) -> (v: Vec<char>)
    ensures
        v@ == pad_left(seq!['~'], width as int),
{
    let mut out: Vec<char> = Vec::new();
    if width > 1 {
        push_spaces(&mut out, width - 1);
    }
    out.push('~');
    proof {
        assert(out@ =~= pad_left(seq!['~'], width as int));
    }
    out
}

/// Append what one character prints as.
pub(crate) fn push_expanded(out: &mut Vec<char>, c: char)
    ensures
        final(out)@ == old(out)@ + tab_expansion(c),
{
    if c == '\t' {
        out.push(' ');
        out.push(' ');
        out.push(' ');
        out.push(' ');
    } else {
        out.push(c);
    }
    proof {
        assert(final(out)@ =~= old(out)@ + tab_expansion(c));
    }
}

/// Cells one character occupies on screen.
pub(crate) fn char_cells_exec(c: char) -> (n: usize)
    ensures
        n == char_cells(c),
{
    if c == '\t' {
        4
    } else if (c as u32) < 0x80 {
        1
    } else if (c as u32) < 0x800 {
        2
    } else if (c as u32) < 0x10000 {
        3
    } else {
        4
    }
}

/// Reduce a coordinate to the terminal's 16-bit range.
pub(crate) fn clip16(n: usize) -> (x: u16)
    ensures
        x == clip_u16(n as int),
{
    (n % 0x10000) as u16
}

/// Adding a small step keeps a running total congruent modulo the 16-bit
/// range, so visual columns can be accumulated already reduced.
pub proof fn lemma_clip_add(total: int, step: int)
    requires
        0 <= total,
        0 <= step < 0x10000,
    ensures
        (total % 0x10000 + step) % 0x10000 == (total + step) % 0x10000,
{
    lemma_add_mod_noop(total, step, 0x10000);
    assert(step % 0x10000 == step);
}

} // verus!
