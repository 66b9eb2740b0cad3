//! The editing core: document, cursor, viewport, mode state machine and
//! command interpreter.  Every key is dispatched by `handle_event`, whose
//! whole effect is pinned down by the transition functions below over
//! `EdView`, the mathematical value of the editor.

use crate::line_model::{
    char_at_pos, join_len, lines_of, lines_ok, start_offset, valid_char_pos, valid_insert_pos,
    lemma_lines_of_wf, lemma_lines_ok_after_insert, lemma_lines_ok_after_remove,
    lemma_start_offset_bound, lemma_start_offset_ge, lemma_start_offset_mono,
};
use crate::rope_text::{
    rope_char_at, rope_from_str, rope_insert_char, rope_len_bytes, rope_len_chars, rope_len_lines,
    rope_line_to_char, rope_new, rope_remove_char,
};
use crate::render::{
    char_cells, char_cells_exec, clip16, count_digits, cursor_op, draw_ops, expand_tabs,
    lemma_clip_add,
    lemma_expand_take_step, lemma_visual_take_step, line_text, mode_label, padded_filler,
    padded_number, push_digits, push_expanded, rows_ops, spaces, status_core, status_op,
    status_text, text_start_of, visual_width,
};
use crate::term::{CursorShape, DrawOpView, Terminal, TextStyle};
use ropey::Rope;
use vstd::math::min;
use vstd::prelude::*;

verus! {

/// Outcome of a confirmed command that the event loop must act on.
#[derive(Clone, Copy, PartialEq, Eq, Structural, Debug)]
pub enum EventResult {
    Quit,
}

/// The three editing modes; exactly one is active at a time.
#[derive(Clone, Copy, PartialEq, Eq, Structural, Debug)]
pub enum Mode {
    Normal,
    Insert,
    Command,
}

/// One key press, as the event loop hands it to the editor.
#[derive(Clone, Copy, PartialEq, Eq, Structural, Debug)]
pub enum KeyInput {
    Char(char),
    Esc,
    Enter,
    Backspace,
    Tab,
    Left,
    Right,
    Up,
    Down,
    Other,
}

/// The mathematical value of the editor.
#[verifier::ext_equal]
pub ghost struct EdView {
    pub lines: Seq<Seq<char>>,
    pub mode: Mode,
    pub cursor_col: int,
    pub cursor_line: int,
    pub top_line: int,
    pub sticky_col: int,
    pub command: Seq<char>,
    pub command_error: Option<Seq<char>>,
    pub dirty: bool,
    pub width: int,
    pub height: int,
}

/// The highest column the cursor may rest on: in Insert mode one past the
/// last character, otherwise on the last character (never below zero).
pub open spec fn line_len_of(lines: Seq<Seq<char>>, i: int, mode: Mode) -> int {
    let content = lines[i].len() as int;
    if mode is Insert {
        content
    } else if content > 0 {
        content - 1
    } else {
        0
    }
}

/// The editor's invariant: the cursor addresses a line, its column respects
/// the mode bound, the viewport band contains the cursor line, and the
/// command buffer is empty outside Command mode.
pub open spec fn wf(v: EdView) -> bool {
    &&& v.lines.len() >= 1
    &&& lines_ok(v.lines)
    &&& 0 <= v.cursor_line < v.lines.len()
    &&& 0 <= v.cursor_col <= line_len_of(v.lines, v.cursor_line, v.mode)
    &&& 0 <= v.sticky_col
    &&& 0 <= v.top_line <= v.cursor_line
    &&& v.cursor_line <= v.top_line + v.height - 2
    &&& v.height >= 3
    &&& (!(v.mode is Command) ==> v.command.len() == 0)
}

pub open spec fn move_left_tr(v: EdView) -> EdView {
    let c = if v.cursor_col > 0 {
        v.cursor_col - 1
    } else {
        v.cursor_col
    };
    EdView { cursor_col: c, sticky_col: c, ..v }
}

pub open spec fn move_right_tr(v: EdView) -> EdView {
    let c = if v.cursor_col < line_len_of(v.lines, v.cursor_line, v.mode) {
        v.cursor_col + 1
    } else {
        v.cursor_col
    };
    EdView { cursor_col: c, sticky_col: c, ..v }
}

pub open spec fn move_up_tr(v: EdView) -> EdView {
    if v.cursor_line > 0 {
        let l = v.cursor_line - 1;
        let c = min(v.sticky_col, line_len_of(v.lines, l, v.mode));
        if l < v.top_line {
            EdView { cursor_line: l, cursor_col: c, top_line: v.top_line - 1, dirty: true, ..v }
        } else {
            EdView { cursor_line: l, cursor_col: c, ..v }
        }
    } else {
        v
    }
}

pub open spec fn move_down_tr(v: EdView) -> EdView {
    if v.cursor_line + 1 < v.lines.len() {
        let l = v.cursor_line + 1;
        let c = min(v.sticky_col, line_len_of(v.lines, l, v.mode));
        if l > v.top_line + v.height - 2 {
            EdView { cursor_line: l, cursor_col: c, top_line: v.top_line + 1, dirty: true, ..v }
        } else {
            EdView { cursor_line: l, cursor_col: c, ..v }
        }
    } else {
        v
    }
}

pub open spec fn insert_char_tr(v: EdView, c: char) -> EdView {
    EdView {
        lines: v.lines.update(v.cursor_line, v.lines[v.cursor_line].insert(v.cursor_col, c)),
        cursor_col: v.cursor_col + 1,
        sticky_col: v.cursor_col + 1,
        dirty: true,
        ..v
    }
}

pub open spec fn enter_tr(v: EdView) -> EdView {
    let split = v.lines.take(v.cursor_line) + seq![
        v.lines[v.cursor_line].take(v.cursor_col),
        v.lines[v.cursor_line].skip(v.cursor_col),
    ] + v.lines.skip(v.cursor_line + 1);
    let l = v.cursor_line + 1;
    let top = if l > v.top_line + v.height - 2 {
        v.top_line + 1
    } else {
        v.top_line
    };
    EdView {
        lines: split,
        cursor_line: l,
        cursor_col: 0,
        top_line: top,
        sticky_col: 0,
        dirty: true,
        ..v
    }
}

/// The backspace transition as Insert mode runs it: within a line it removes
/// the character before the cursor; at column zero it joins the line with its
/// predecessor; at the very start of the document it does nothing.
pub open spec fn backspace_tr(v: EdView) -> EdView {
    if v.cursor_col > 0 {
        EdView {
            lines: v.lines.update(
                v.cursor_line,
                v.lines[v.cursor_line].remove(v.cursor_col - 1),
            ),
            cursor_col: v.cursor_col - 1,
            sticky_col: v.cursor_col - 1,
            dirty: true,
            ..v
        }
    } else if v.cursor_line > 0 {
        let plen = v.lines[v.cursor_line - 1].len() as int;
        let merged = v.lines.take(v.cursor_line - 1) + seq![
            v.lines[v.cursor_line - 1] + v.lines[v.cursor_line],
        ] + v.lines.skip(v.cursor_line + 1);
        EdView {
            lines: merged,
            cursor_line: v.cursor_line - 1,
            cursor_col: plen,
            top_line: if v.cursor_line - 1 < v.top_line {
                v.top_line - 1
            } else {
                v.top_line
            },
            sticky_col: plen,
            dirty: true,
            ..v
        }
    } else {
        v
    }
}

pub open spec fn insert_mode_tr(v: EdView) -> EdView {
    EdView { mode: Mode::Insert, command_error: None, ..v }
}

pub open spec fn normal_mode_tr(v: EdView) -> EdView {
    EdView { mode: Mode::Normal, ..v }
}

pub open spec fn command_mode_tr(v: EdView) -> EdView {
    EdView { mode: Mode::Command, ..v }
}

/// The message shown when a command is not recognized.
pub open spec fn unknown_command_msg(cmd: Seq<char>) -> Seq<char> {
    "Unknown command: "@ + cmd
}

/// What confirming a command buffer yields: the single command `q` asks the
/// event loop to quit; anything else is an error naming the buffer.
pub open spec fn run_command_spec(cmd: Seq<char>) -> Result<Option<EventResult>, Seq<char>> {
    if cmd == seq!['q'] {
        Ok(Some(EventResult::Quit))
    } else {
        Err(unknown_command_msg(cmd))
    }
}

pub ghost struct StepOut {
    pub state: EdView,
    pub ops: Seq<DrawOpView>,
    pub out: Option<EventResult>,
}

pub open spec fn quiet(v: EdView) -> StepOut {
    StepOut { state: v, ops: Seq::empty(), out: None }
}

pub open spec fn bar_op() -> Seq<DrawOpView> {
    seq![DrawOpView::SetCursorShape { shape: CursorShape::Bar }]
}

pub open spec fn block_op() -> Seq<DrawOpView> {
    seq![DrawOpView::SetCursorShape { shape: CursorShape::Block }]
}

pub open spec fn step_normal(v: EdView, key: KeyInput) -> StepOut {
    match key {
        KeyInput::Char(c) => {
            if c == 'i' {
                StepOut { state: insert_mode_tr(v), ops: bar_op(), out: None }
            } else if c == 'I' {
                StepOut {
                    state: insert_mode_tr(EdView { cursor_col: 0, ..v }),
                    ops: bar_op(),
                    out: None,
                }
            } else if c == 'a' {
                StepOut { state: move_right_tr(insert_mode_tr(v)), ops: bar_op(), out: None }
            } else if c == 'A' {
                let at_end = EdView {
                    cursor_col: line_len_of(v.lines, v.cursor_line, v.mode),
                    ..v
                };
                StepOut {
                    state: move_right_tr(insert_mode_tr(at_end)),
                    ops: bar_op(),
                    out: None,
                }
            } else if c == 'h' {
                quiet(move_left_tr(v))
            } else if c == 'j' {
                quiet(move_down_tr(v))
            } else if c == 'k' {
                quiet(move_up_tr(v))
            } else if c == 'l' {
                quiet(move_right_tr(v))
            } else if c == ':' {
                StepOut {
                    state: command_mode_tr(EdView { command_error: None, ..v }),
                    ops: bar_op(),
                    out: None,
                }
            } else if c == '0' {
                quiet(EdView { cursor_col: 0, ..v })
            } else if c == '$' {
                quiet(EdView { cursor_col: line_len_of(v.lines, v.cursor_line, v.mode), ..v })
            } else {
                quiet(v)
            }
        },
        KeyInput::Left => quiet(move_left_tr(v)),
        KeyInput::Down => quiet(move_down_tr(v)),
        KeyInput::Up => quiet(move_up_tr(v)),
        KeyInput::Right => quiet(move_right_tr(v)),
        _ => quiet(v),
    }
}

pub open spec fn step_insert(v: EdView, key: KeyInput) -> StepOut {
    match key {
        KeyInput::Esc => StepOut {
            state: normal_mode_tr(move_left_tr(v)),
            ops: block_op(),
            out: None,
        },
        KeyInput::Backspace => quiet(backspace_tr(v)),
        KeyInput::Enter => quiet(enter_tr(v)),
        KeyInput::Left => quiet(move_left_tr(v)),
        KeyInput::Down => quiet(move_down_tr(v)),
        KeyInput::Up => quiet(move_up_tr(v)),
        KeyInput::Right => quiet(move_right_tr(v)),
        KeyInput::Char(c) => {
            if c == '\n' {
                quiet(v)
            } else {
                quiet(insert_char_tr(v, c))
            }
        },
        KeyInput::Tab => quiet(insert_char_tr(v, '\t')),
        _ => quiet(v),
    }
}

pub open spec fn step_command(v: EdView, key: KeyInput) -> StepOut {
    match key {
        KeyInput::Char(c) => quiet(EdView { command: v.command.push(c), ..v }),
        KeyInput::Esc => StepOut {
            state: normal_mode_tr(EdView { command: Seq::empty(), ..v }),
            ops: block_op(),
            out: None,
        },
        KeyInput::Enter => {
            match run_command_spec(v.command) {
                Ok(Some(res)) => StepOut { state: v, ops: Seq::empty(), out: Some(res) },
                Ok(None) => StepOut {
                    state: normal_mode_tr(EdView { command: Seq::empty(), ..v }),
                    ops: block_op(),
                    out: None,
                },
                Err(e) => StepOut {
                    state: normal_mode_tr(
                        EdView { command: Seq::empty(), command_error: Some(e), ..v },
                    ),
                    ops: block_op(),
                    out: None,
                },
            }
        },
        KeyInput::Backspace => {
            if v.command.len() == 0 {
                StepOut { state: normal_mode_tr(v), ops: block_op(), out: None }
            } else {
                quiet(EdView { command: v.command.drop_last(), ..v })
            }
        },
        _ => quiet(v),
    }
}

/// The whole effect of one key press: the next editor state, the draw
/// commands issued on the way, and the outcome handed to the event loop.
pub open spec fn step(v: EdView, key: KeyInput) -> StepOut {
    match v.mode {
        Mode::Normal => step_normal(v, key),
        Mode::Insert => step_insert(v, key),
        Mode::Command => step_command(v, key),
    }
}

/// Horizontal moves applied in order: `true` moves right, `false` left.
pub open spec fn apply_lr_moves(v: EdView, moves: Seq<bool>) -> EdView
    decreases moves.len(),
{
    if moves.len() == 0 {
        v
    } else {
        let w = apply_lr_moves(v, moves.drop_last());
        if moves.last() {
            move_right_tr(w)
        } else {
            move_left_tr(w)
        }
    }
}

/// After any sequence of horizontal moves, the column stays between zero and
/// the current line's bound under the current mode.
pub proof fn lemma_horizontal_moves_stay_in_bounds(v: EdView, moves: Seq<bool>)
    requires
        wf(v),
    ensures
        wf(apply_lr_moves(v, moves)),
        0 <= apply_lr_moves(v, moves).cursor_col <= line_len_of(
            apply_lr_moves(v, moves).lines,
            apply_lr_moves(v, moves).cursor_line,
            apply_lr_moves(v, moves).mode,
        ),
    decreases moves.len(),
{
    if moves.len() > 0 {
        lemma_horizontal_moves_stay_in_bounds(v, moves.drop_last());
    }
}

/// A vertical move whose sticky column exceeds the destination line's bound
/// clamps the column to that bound, and no vertical move writes the sticky
/// column.
pub proof fn lemma_vertical_move_clamps(v: EdView)
    requires
        wf(v),
    ensures
        v.cursor_line > 0 && v.sticky_col > line_len_of(v.lines, v.cursor_line - 1, v.mode)
            ==> move_up_tr(v).cursor_col == line_len_of(v.lines, v.cursor_line - 1, v.mode),
        v.cursor_line + 1 < v.lines.len() && v.sticky_col > line_len_of(
            v.lines,
            v.cursor_line + 1,
            v.mode,
        ) ==> move_down_tr(v).cursor_col == line_len_of(v.lines, v.cursor_line + 1, v.mode),
        move_up_tr(v).sticky_col == v.sticky_col,
        move_down_tr(v).sticky_col == v.sticky_col,
{
}

/// On a non-final line (one ending in a newline) with nonzero content, the
/// Normal-mode column bound is one less than the Insert-mode bound.
pub proof fn lemma_line_len_normal_vs_insert(lines: Seq<Seq<char>>, i: int)
    requires
        0 <= i < lines.len() - 1,
        lines[i].len() > 0,
    ensures
        line_len_of(lines, i, Mode::Normal) == line_len_of(lines, i, Mode::Insert) - 1,
{
}

/// Backspace immediately after inserting a character restores the document,
/// the cursor position, the viewport and the mode.
pub proof fn lemma_insert_backspace_round_trip(v: EdView, c: char)
    requires
        wf(v),
        v.mode is Insert,
        c != '\n',
    ensures
        backspace_tr(insert_char_tr(v, c)).lines == v.lines,
        backspace_tr(insert_char_tr(v, c)).cursor_col == v.cursor_col,
        backspace_tr(insert_char_tr(v, c)).cursor_line == v.cursor_line,
        backspace_tr(insert_char_tr(v, c)).top_line == v.top_line,
        backspace_tr(insert_char_tr(v, c)).mode == v.mode,
{
    let w = insert_char_tr(v, c);
    let l = v.lines[v.cursor_line];
    l.insert_ensures(v.cursor_col, c);
    l.insert(v.cursor_col, c).remove_ensures(v.cursor_col);
    assert(l.insert(v.cursor_col, c).remove(v.cursor_col) =~= l);
    assert(w.lines[v.cursor_line] == l.insert(v.cursor_col, c));
    assert(backspace_tr(w).lines =~= v.lines);
}

/// Moving left at column zero changes neither the document, the cursor nor
/// the dirty flag, and backspace at the very start of the document changes
/// nothing at all.
pub proof fn lemma_noop_cases(v: EdView)
    requires
        wf(v),
    ensures
        v.cursor_col == 0 ==> move_left_tr(v).lines == v.lines && move_left_tr(v).cursor_col
            == v.cursor_col && move_left_tr(v).cursor_line == v.cursor_line && move_left_tr(
            v,
        ).dirty == v.dirty,
        v.cursor_col == 0 && v.cursor_line == 0 ==> backspace_tr(v) == v,
{
}

/// The editing core.  It owns the document, the cursor, the viewport and the
/// mode, and draws through a `Terminal` that records commands as data.
pub struct Editor {
    terminal: Terminal,
    mode: Mode,
    text: Rope,
    cursor: (usize, usize),
    top_line: usize,
    cursor_x_remember: usize,
    command: Vec<char>,
    command_error: Option<Vec<char>>,
    dirty: bool,
}

impl View for Editor {
    type V = EdView;

    closed spec fn view(&self) -> EdView {
        EdView {
            lines: crate::rope_text::rope_lines(self.text),
            mode: self.mode,
            cursor_col: self.cursor.0 as int,
            cursor_line: self.cursor.1 as int,
            top_line: self.top_line as int,
            sticky_col: self.cursor_x_remember as int,
            command: self.command@,
            command_error: match self.command_error {
                Some(ref e) => Some(e@),
                None => None,
            },
            dirty: self.dirty,
            width: self.terminal@.size.width as int,
            height: self.terminal@.size.height as int,
        }
    }
}

impl Editor {
    /// The terminal as the editor sees it: its size and the queued commands.
    pub closed spec fn term_view(&self) -> crate::term::TermView {
        self.terminal@
    }

    /// A fresh editor over an empty document.  The terminal must have at
    /// least one status row and two body rows.
    pub fn new(terminal: Terminal) -> (e: Editor)
        requires
            terminal@.size.height >= 3,
        ensures
            wf(e@),
            e@.lines == seq![Seq::<char>::empty()],
            e@.mode == Mode::Normal,
            e@.cursor_col == 0,
            e@.cursor_line == 0,
            e@.top_line == 0,
            e@.sticky_col == 0,
            e@.command == Seq::<char>::empty(),
            e@.command_error is None,
            e@.dirty,
            e.term_view() == terminal@,
    {
        Editor {
            terminal,
            mode: Mode::Normal,
            text: rope_new(),
            cursor: (0, 0),
            top_line: 0,
            cursor_x_remember: 0,
            command: Vec::new(),
            command_error: None,
            dirty: true,
        }
    }

    /// A fresh editor over the given text.
    pub fn new_with_text(terminal: Terminal, text: &str) -> (e: Editor)
        requires
            terminal@.size.height >= 3,
        ensures
            wf(e@),
            e@.lines == lines_of(text@),
            e@.mode == Mode::Normal,
            e@.cursor_col == 0,
            e@.cursor_line == 0,
            e@.top_line == 0,
            e@.sticky_col == 0,
            e@.command == Seq::<char>::empty(),
            e@.command_error is None,
            e@.dirty,
            e.term_view() == terminal@,
    {
        let mut e = Editor::new(terminal);
        e.text = rope_from_str(text);
        proof {
            lemma_lines_of_wf(text@);
        }
        e
    }

    /// Character count of one line, the separator not counted.
    fn line_content_len(&self, line_idx: usize) -> (n: usize)
        requires
            line_idx < self@.lines.len(),
        ensures
            n == self@.lines[line_idx as int].len(),
    {
        let lc = rope_len_lines(&self.text);
        let start = rope_line_to_char(&self.text, line_idx);
        proof {
            lemma_start_offset_bound(self@.lines, line_idx as int);
        }
        if line_idx + 1 < lc {
            let next = rope_line_to_char(&self.text, line_idx + 1);
            next - start - 1
        } else {
            let total = rope_len_chars(&self.text);
            proof {
                assert(start_offset(self@.lines, lc as int) == start_offset(
                    self@.lines,
                    lc - 1,
                ) + self@.lines[lc - 1].len() + 1);
            }
            total - start
        }
    }

    /// Length bound of one line under the current mode, read off the rope.
    fn line_len(&self, line_idx: usize) -> (n: usize)
        requires
            line_idx < self@.lines.len(),
        ensures
            n == line_len_of(self@.lines, line_idx as int, self@.mode),
    {
        let content = self.line_content_len(line_idx);
        match self.mode {
            Mode::Insert => content,
            _ => if content > 0 {
                content - 1
            } else {
                0
            },
        }
    }

    /// The printed text of one line: tabs expanded, the newline of a
    /// non-final line kept.
    fn line_text_vec(&self, line_idx: usize) -> (v: Vec<char>)
        requires
            line_idx < self@.lines.len(),
        ensures
            v@ == line_text(self@, line_idx as int),
    {
        let lc = rope_len_lines(&self.text);
        let total = rope_len_chars(&self.text);
        let start = rope_line_to_char(&self.text, line_idx);
        let content = self.line_content_len(line_idx);
        proof {
            lemma_start_offset_bound(self@.lines, line_idx as int);
        }
        let ghost line = self@.lines[line_idx as int];
        let mut out: Vec<char> = Vec::new();
        let mut t: usize = 0;
        while t < content
            invariant
                t <= content,
                line_idx < self@.lines.len(),
                line == self@.lines[line_idx as int],
                content == line.len(),
                start == start_offset(self@.lines, line_idx as int),
                0 <= start + content <= join_len(self@.lines),
                total == join_len(self@.lines),
                out@ == expand_tabs(line.take(t as int)),
            decreases content - t,
        {
            proof {
                assert(valid_char_pos(
                    self@.lines,
                    line_idx as int,
                    t as int,
                    (start + t) as int,
                ));
            }
            let c = rope_char_at(&self.text, start + t);
            proof {
                assert(c == char_at_pos(self@.lines, line_idx as int, t as int));
            }
            push_expanded(&mut out, c);
            proof {
                lemma_expand_take_step(line, t as int);
            }
            t += 1;
            proof {
                assert(out@ =~= expand_tabs(line.take(t as int)));
            }
        }
        proof {
            assert(line.take(content as int) =~= line);
        }
        if line_idx + 1 < lc {
            out.push('\n');
        }
        proof {
            assert(out@ =~= line_text(self@, line_idx as int));
        }
        out
    }

    /// Width of the line-number gutter plus its separator column.
    fn text_start(&self) -> (ts: usize)
        ensures
            ts == text_start_of(self@.lines.len() as int),
            5 <= ts,
    {
        let lc = rope_len_lines(&self.text);
        let padding = if lc <= 1 {
            0
        } else {
            count_digits(lc - 1)
        };
        if padding < 5 {
            5
        } else {
            padding
        }
    }

    /// The flat character offset of the cursor.
    fn cursor_to_char_idx(&self) -> (idx: usize)
        requires
            0 <= self@.cursor_line < self@.lines.len(),
            0 <= self@.cursor_col <= self@.lines[self@.cursor_line].len(),
        ensures
            idx == start_offset(self@.lines, self@.cursor_line) + self@.cursor_col,
            idx <= join_len(self@.lines),
            start_offset(self@.lines, self@.cursor_line) >= 0,
    {
        let n = rope_len_chars(&self.text);
        let start = rope_line_to_char(&self.text, self.cursor.1);
        proof {
            lemma_start_offset_bound(self@.lines, self@.cursor_line);
        }
        start + self.cursor.0
    }

    pub fn move_cursor_left(&mut self)
        requires
            wf(old(self)@),
        ensures
            wf(final(self)@),
            final(self)@ == move_left_tr(old(self)@),
            final(self).term_view() == old(self).term_view(),
    {
        if self.cursor.0 > 0 {
            self.cursor.0 -= 1;
        }
        self.cursor_x_remember = self.cursor.0;
        proof {
            assert(self@ =~= move_left_tr(old(self)@));
        }
    }

    pub fn move_cursor_right(&mut self)
        requires
            wf(old(self)@),
        ensures
            wf(final(self)@),
            final(self)@ == move_right_tr(old(self)@),
            final(self).term_view() == old(self).term_view(),
    {
        let line_len = self.line_len(self.cursor.1);
        if self.cursor.0 < line_len {
            self.cursor.0 += 1;
        }
        self.cursor_x_remember = self.cursor.0;
        proof {
            assert(self@ =~= move_right_tr(old(self)@));
        }
    }

    pub fn move_cursor_up(&mut self)
        requires
            wf(old(self)@),
        ensures
            wf(final(self)@),
            final(self)@ == move_up_tr(old(self)@),
            final(self).term_view() == old(self).term_view(),
    {
        if self.cursor.1 > 0 {
            self.cursor.1 -= 1;
            let line_len = self.line_len(self.cursor.1);
            self.cursor.0 = if self.cursor_x_remember < line_len {
                self.cursor_x_remember
            } else {
                line_len
            };
            if self.cursor.1 < self.top_line {
                self.top_line -= 1;
                self.dirty = true;
            }
        }
        proof {
            assert(self@ =~= move_up_tr(old(self)@));
        }
    }

    pub fn move_cursor_down(&mut self)
        requires
            wf(old(self)@),
        ensures
            wf(final(self)@),
            final(self)@ == move_down_tr(old(self)@),
            final(self).term_view() == old(self).term_view(),
    {
        let lc = rope_len_lines(&self.text);
        if self.cursor.1 + 1 < lc {
            self.cursor.1 += 1;
            let line_len = self.line_len(self.cursor.1);
            self.cursor.0 = if self.cursor_x_remember < line_len {
                self.cursor_x_remember
            } else {
                line_len
            };
            let height = self.terminal.size().height as usize;
            if self.cursor.1 - self.top_line > height - 2 {
                self.top_line += 1;
                self.dirty = true;
            }
        }
        proof {
            assert(self@ =~= move_down_tr(old(self)@));
        }
    }

    fn insert_char(&mut self, c: char)
        requires
            wf(old(self)@),
            old(self)@.mode is Insert,
            c != '\n',
        ensures
            wf(final(self)@),
            final(self)@ == insert_char_tr(old(self)@, c),
            final(self).term_view() == old(self).term_view(),
    {
        let idx = self.cursor_to_char_idx();
        proof {
            assert(valid_insert_pos(
                self@.lines,
                self@.cursor_line,
                self@.cursor_col,
                idx as int,
            ));
            lemma_lines_ok_after_insert(self@.lines, self@.cursor_line, self@.cursor_col, c);
        }
        rope_insert_char(&mut self.text, idx, c);
        self.cursor.0 += 1;
        self.cursor_x_remember = self.cursor.0;
        self.dirty = true;
        proof {
            old(self)@.lines[old(self)@.cursor_line].insert_ensures(old(self)@.cursor_col, c);
            assert(self@ =~= insert_char_tr(old(self)@, c));
        }
    }

    fn enter(&mut self)
        requires
            wf(old(self)@),
        ensures
            wf(final(self)@),
            final(self)@ == enter_tr(old(self)@),
            final(self).term_view() == old(self).term_view(),
    {
        let idx = self.cursor_to_char_idx();
        let ghost pre_lines = self@.lines;
        proof {
            assert(valid_insert_pos(
                self@.lines,
                self@.cursor_line,
                self@.cursor_col,
                idx as int,
            ));
            lemma_lines_ok_after_insert(self@.lines, self@.cursor_line, self@.cursor_col, '\n');
            lemma_start_offset_ge(pre_lines, pre_lines.len() as int);
        }
        rope_insert_char(&mut self.text, idx, '\n');
        self.cursor.1 += 1;
        self.cursor.0 = 0;
        let height = self.terminal.size().height as usize;
        if self.cursor.1 - self.top_line > height - 2 {
            self.top_line += 1;
        }
        self.cursor_x_remember = self.cursor.0;
        self.dirty = true;
        proof {
            assert(self@ =~= enter_tr(old(self)@));
        }
    }

    fn backspace(&mut self)
        requires
            wf(old(self)@),
            old(self)@.mode is Insert,
        ensures
            wf(final(self)@),
            final(self)@ == backspace_tr(old(self)@),
            final(self).term_view() == old(self).term_view(),
    {
        let idx = self.cursor_to_char_idx();
        if self.cursor.0 > 0 {
            proof {
                assert(valid_char_pos(
                    self@.lines,
                    self@.cursor_line,
                    self@.cursor_col - 1,
                    idx - 1,
                ));
                lemma_lines_ok_after_remove(
                    self@.lines,
                    self@.cursor_line,
                    self@.cursor_col - 1,
                );
            }
            rope_remove_char(&mut self.text, idx - 1);
            self.cursor.0 -= 1;
            self.cursor_x_remember = self.cursor.0;
            self.dirty = true;
        } else if self.cursor.1 > 0 {
            let line_len = self.line_len(self.cursor.1 - 1);
            proof {
                lemma_start_offset_mono(self@.lines, 0, self@.cursor_line - 1);
                assert(start_offset(self@.lines, self@.cursor_line) == start_offset(
                    self@.lines,
                    self@.cursor_line - 1,
                ) + self@.lines[self@.cursor_line - 1].len() + 1);
                assert(valid_char_pos(
                    self@.lines,
                    self@.cursor_line - 1,
                    self@.lines[self@.cursor_line - 1].len() as int,
                    idx - 1,
                ));
                lemma_lines_ok_after_remove(
                    self@.lines,
                    self@.cursor_line - 1,
                    self@.lines[self@.cursor_line - 1].len() as int,
                );
            }
            rope_remove_char(&mut self.text, idx - 1);
            self.cursor.1 -= 1;
            self.cursor.0 = line_len;
            if self.cursor.1 < self.top_line {
                self.top_line -= 1;
            }
            self.cursor_x_remember = self.cursor.0;
            self.dirty = true;
        }
        proof {
            assert(self@ =~= backspace_tr(old(self)@));
        }
    }

    fn insert_mode(&mut self)
        ensures
            final(self)@ == insert_mode_tr(old(self)@),
            final(self).term_view().size == old(self).term_view().size,
            final(self).term_view().ops == old(self).term_view().ops + bar_op(),
    {
        self.command_error = None;
        self.mode = Mode::Insert;
        self.terminal.change_cursor_style(CursorShape::Bar);
        proof {
            assert(self@ =~= insert_mode_tr(old(self)@));
            assert(self.term_view().ops =~= old(self).term_view().ops + bar_op());
        }
    }

    fn normal_mode(&mut self)
        ensures
            final(self)@ == normal_mode_tr(old(self)@),
            final(self).term_view().size == old(self).term_view().size,
            final(self).term_view().ops == old(self).term_view().ops + block_op(),
    {
        self.mode = Mode::Normal;
        self.terminal.change_cursor_style(CursorShape::Block);
        proof {
            assert(self@ =~= normal_mode_tr(old(self)@));
            assert(self.term_view().ops =~= old(self).term_view().ops + block_op());
        }
    }

    fn command_mode(&mut self)
        ensures
            final(self)@ == command_mode_tr(old(self)@),
            final(self).term_view().size == old(self).term_view().size,
            final(self).term_view().ops == old(self).term_view().ops + bar_op(),
    {
        self.mode = Mode::Command;
        self.terminal.change_cursor_style(CursorShape::Bar);
        proof {
            assert(self@ =~= command_mode_tr(old(self)@));
            assert(self.term_view().ops =~= old(self).term_view().ops + bar_op());
        }
    }

    /// Interpret the accumulated command buffer.
    fn run_command(&self) -> (r: Result<Option<EventResult>, Vec<char>>)
        ensures
            match r {
                Ok(o) => run_command_spec(self@.command) == Ok::<
                    Option<EventResult>,
                    Seq<char>,
                >(o),
                Err(e) => run_command_spec(self@.command) == Err::<
                    Option<EventResult>,
                    Seq<char>,
                >(e@),
            },
    {
        if self.command.len() == 1 && self.command[0] == 'q' {
            proof {
                assert(self@.command =~= seq!['q']);
            }
            Ok(Some(EventResult::Quit))
        } else {
            proof {
                assert(self@.command != seq!['q']) by {
                    if self@.command == seq!['q'] {
                        assert(self@.command.len() == 1);
                        assert(self@.command[0] == 'q');
                    }
                }
            }
            let mut msg: Vec<char> = Vec::new();
            msg.push('U');
            msg.push('n');
            msg.push('k');
            msg.push('n');
            msg.push('o');
            msg.push('w');
            msg.push('n');
            msg.push(' ');
            msg.push('c');
            msg.push('o');
            msg.push('m');
            msg.push('m');
            msg.push('a');
            msg.push('n');
            msg.push('d');
            msg.push(':');
            msg.push(' ');
            proof {
                reveal_strlit("Unknown command: ");
                assert(msg@ =~= "Unknown command: "@);
            }
            let mut k: usize = 0;
            while k < self.command.len()
                invariant
                    k <= self.command.len(),
                    msg@ == "Unknown command: "@ + self@.command.take(k as int),
                decreases self.command.len() - k,
            {
                msg.push(self.command[k]);
                k += 1;
                proof {
                    assert(msg@ =~= "Unknown command: "@ + self@.command.take(k as int));
                }
            }
            proof {
                assert(self@.command.take(self@.command.len() as int) =~= self@.command);
            }
            Err(msg)
        }
    }

    /// Dispatch one key press through the mode state machine.  The new state,
    /// the queued draw commands and the returned outcome are exactly those of
    /// the `step` transition.
    pub fn handle_event(&mut self, key: KeyInput) -> (r: Option<EventResult>)
        requires
            wf(old(self)@),
        ensures
            wf(final(self)@),
            final(self)@ == step(old(self)@, key).state,
            final(self).term_view().ops == old(self).term_view().ops + step(
                old(self)@,
                key,
            ).ops,
            final(self).term_view().size == old(self).term_view().size,
            r == step(old(self)@, key).out,
    {
        let ghost pre = self@;
        let ghost pre_ops = self.term_view().ops;
        match self.mode {
            Mode::Normal => {
                match key {
                    KeyInput::Char(c) => {
                        if c == 'i' {
                            self.insert_mode();
                        } else if c == 'I' {
                            self.cursor.0 = 0;
                            self.insert_mode();
                        } else if c == 'a' {
                            self.insert_mode();
                            self.move_cursor_right();
                        } else if c == 'A' {
                            self.cursor.0 = self.line_len(self.cursor.1);
                            self.insert_mode();
                            self.move_cursor_right();
                        } else if c == 'h' {
                            self.move_cursor_left();
                        } else if c == 'j' {
                            self.move_cursor_down();
                        } else if c == 'k' {
                            self.move_cursor_up();
                        } else if c == 'l' {
                            self.move_cursor_right();
                        } else if c == ':' {
                            self.command_error = None;
                            self.command_mode();
                        } else if c == '0' {
                            self.cursor.0 = 0;
                        } else if c == '$' {
                            self.cursor.0 = self.line_len(self.cursor.1);
                        }
                    },
                    KeyInput::Left => self.move_cursor_left(),
                    KeyInput::Down => self.move_cursor_down(),
                    KeyInput::Up => self.move_cursor_up(),
                    KeyInput::Right => self.move_cursor_right(),
                    _ => {},
                }
                proof {
                    assert(self@ =~= step(pre, key).state);
                    assert(self.term_view().ops =~= pre_ops + step(pre, key).ops);
                }
                None
            },
            Mode::Insert => {
                match key {
                    KeyInput::Esc => {
                        self.move_cursor_left();
                        self.normal_mode();
                    },
                    KeyInput::Backspace => self.backspace(),
                    KeyInput::Enter => self.enter(),
                    KeyInput::Left => self.move_cursor_left(),
                    KeyInput::Down => self.move_cursor_down(),
                    KeyInput::Up => self.move_cursor_up(),
                    KeyInput::Right => self.move_cursor_right(),
                    KeyInput::Char(c) => {
                        if c != '\n' {
                            self.insert_char(c);
                        }
                    },
                    KeyInput::Tab => self.insert_char('\t'),
                    _ => {},
                }
                proof {
                    assert(self@ =~= step(pre, key).state);
                    assert(self.term_view().ops =~= pre_ops + step(pre, key).ops);
                }
                None
            },
            Mode::Command => {
                let out: Option<EventResult> = None;
                match key {
                    KeyInput::Char(c) => self.command.push(c),
                    KeyInput::Esc => {
                        self.command.clear();
                        self.normal_mode();
                    },
                    KeyInput::Enter => {
                        match self.run_command() {
                            Ok(res) => {
                                if let Some(res) = res {
                                    proof {
                                        assert(self@ =~= step(pre, key).state);
                                        assert(self.term_view().ops =~= pre_ops + step(
                                            pre,
                                            key,
                                        ).ops);
                                    }
                                    return Some(res);
                                }
                            },
                            Err(e) => self.command_error = Some(e),
                        }
                        self.command.clear();
                        self.normal_mode();
                    },
                    KeyInput::Backspace => {
                        if self.command.len() == 0 {
                            self.normal_mode();
                        } else {
                            self.command.pop();
                            proof {
                                assert(self@.command =~= pre.command.drop_last());
                            }
                        }
                    },
                    _ => {},
                }
                proof {
                    assert(self@ =~= step(pre, key).state);
                    assert(self.term_view().ops =~= pre_ops + step(pre, key).ops);
                }
                out
            },
        }
    }

    /// Queue a full screen clear.
    pub fn clear(&mut self)
        ensures
            final(self)@ == old(self)@,
            final(self).term_view().size == old(self).term_view().size,
            final(self).term_view().ops == old(self).term_view().ops.push(DrawOpView::Clear),
    {
        self.terminal.clear();
        proof {
            assert(self@ =~= old(self)@);
        }
    }

    /// Queue one frame: hide the cursor, repaint the body when dirty, always
    /// redraw the status bar and place the cursor, show the cursor.  The
    /// commands queued are exactly `draw_ops` of the state before the call.
    pub fn draw(&mut self)
        requires
            wf(old(self)@),
        ensures
            wf(final(self)@),
            final(self)@ == (EdView { dirty: false, ..old(self)@ }),
            final(self).term_view().ops == old(self).term_view().ops + draw_ops(old(self)@),
            final(self).term_view().size == old(self).term_view().size,
    {
        let ghost pre = self@;
        let ghost pre_ops = self.term_view().ops;
        let ghost ts_spec = text_start_of(pre.lines.len() as int);
        self.terminal.hide_cursor();
        if self.dirty {
            self.terminal.clear();
            let text_start = self.text_start();
            let height = self.terminal.size().height;
            let lc = rope_len_lines(&self.text);
            let mut i: u16 = 0;
            proof {
                assert(self.term_view().ops =~= pre_ops + seq![
                    DrawOpView::HideCursor,
                    DrawOpView::Clear,
                ] + rows_ops(pre, ts_spec, 0));
            }
            while i < height - 1
                invariant
                    wf(pre),
                    self@ == pre,
                    i <= height - 1,
                    height == pre.height,
                    lc == pre.lines.len(),
                    text_start == ts_spec,
                    5 <= text_start,
                    self.term_view().size == old(self).term_view().size,
                    self.term_view().ops == pre_ops + seq![
                        DrawOpView::HideCursor,
                        DrawOpView::Clear,
                    ] + rows_ops(pre, ts_spec, i as int),
                decreases height - 1 - i,
            {
                if (i as usize) < lc - self.top_line {
                    let line_idx = self.top_line + (i as usize);
                    let num = padded_number(line_idx + 1, text_start - 1);
                    self.terminal.print_styled_at((0, i), num, TextStyle::LineNumber);
                    let txt = self.line_text_vec(line_idx);
                    let xs = clip16(text_start);
                    self.terminal.print_at((xs, i), txt);
                } else {
                    let fill = padded_filler(text_start - 1);
                    self.terminal.print_styled_at((0, i), fill, TextStyle::Filler);
                }
                i += 1;
                proof {
                    assert(self.term_view().ops =~= pre_ops + seq![
                        DrawOpView::HideCursor,
                        DrawOpView::Clear,
                    ] + rows_ops(pre, ts_spec, i as int));
                }
            }
            self.dirty = false;
        }
        self.draw_status_bar();
        self.draw_cursor();
        self.terminal.show_cursor();
        proof {
            assert(self@ =~= EdView { dirty: false, ..pre });
            assert(self.term_view().ops =~= pre_ops + draw_ops(pre));
        }
    }

    /// Queue the status line: the mode, then the command buffer, the pending
    /// error or the document statistics, padded to the terminal width.
    fn draw_status_bar(&mut self)
        requires
            wf(old(self)@),
        ensures
            final(self)@ == old(self)@,
            final(self).term_view().size == old(self).term_view().size,
            final(self).term_view().ops == old(self).term_view().ops.push(
                status_op(old(self)@),
            ),
    {
        let mut text: Vec<char> = Vec::new();
        match self.mode {
            Mode::Normal => {
                text.push('N');
                text.push('R');
                text.push('M');
            },
            Mode::Insert => {
                text.push('I');
                text.push('N');
                text.push('S');
            },
            Mode::Command => {
                text.push('C');
                text.push('M');
                text.push('D');
            },
        }
        proof {
            reveal_strlit("NRM");
            reveal_strlit("INS");
            reveal_strlit("CMD");
            assert(text@ =~= mode_label(self@.mode));
        }
        text.push(' ');
        text.push('|');
        text.push(' ');
        proof {
            reveal_strlit(" | ");
            assert(text@ =~= mode_label(self@.mode) + " | "@);
        }
        let ghost prefix = text@;
        match self.mode {
            Mode::Command => {
                let mut k: usize = 0;
                while k < self.command.len()
                    invariant
                        k <= self.command.len(),
                        text@ == prefix + self@.command.take(k as int),
                    decreases self.command.len() - k,
                {
                    text.push(self.command[k]);
                    k += 1;
                    proof {
                        assert(text@ =~= prefix + self@.command.take(k as int));
                    }
                }
                proof {
                    assert(self@.command.take(self@.command.len() as int) =~= self@.command);
                    assert(text@ =~= status_core(self@));
                }
            },
            _ => {
                match &self.command_error {
                    Some(e) => {
                        let mut k: usize = 0;
                        while k < e.len()
                            invariant
                                k <= e.len(),
                                text@ == prefix + e@.take(k as int),
                            decreases e.len() - k,
                        {
                            text.push(e[k]);
                            k += 1;
                            proof {
                                assert(text@ =~= prefix + e@.take(k as int));
                            }
                        }
                        proof {
                            assert(e@.take(e@.len() as int) =~= e@);
                            assert(text@ =~= status_core(self@));
                        }
                    },
                    None => {
                        let lc = rope_len_lines(&self.text);
                        push_digits(&mut text, lc);
                        text.push(' ');
                        text.push('l');
                        text.push('i');
                        text.push('n');
                        text.push('e');
                        text.push('s');
                        text.push(' ');
                        text.push('|');
                        text.push(' ');
                        let nb = rope_len_bytes(&self.text);
                        push_digits(&mut text, nb);
                        text.push(' ');
                        text.push('b');
                        text.push('y');
                        text.push('t');
                        text.push('e');
                        text.push('s');
                        proof {
                            reveal_strlit(" lines | ");
                            reveal_strlit(" bytes");
                            assert(text@ =~= status_core(self@));
                        }
                    },
                }
            },
        }
        let width = self.terminal.size().width as usize;
        let ghost core = text@;
        while text.len() < width
            invariant
                core == status_core(self@),
                core.len() <= text@.len(),
                text@ == core + spaces(text@.len() - core.len()),
                core.len() < width ==> text@.len() <= width,
                core.len() >= width ==> text@.len() == core.len(),
            decreases width - text@.len(),
        {
            text.push(' ');
            proof {
                assert(text@ =~= core + spaces(text@.len() - core.len()));
            }
        }
        proof {
            assert(text@ =~= status_text(self@));
        }
        let height = self.terminal.size().height;
        self.terminal.print_styled_at((0, height - 1), text, TextStyle::Status);
        proof {
            assert(self@ =~= old(self)@);
        }
    }

    /// Queue the terminal cursor position: past the gutter at the visual
    /// column in Normal and Insert mode, after the prompt in Command mode.
    fn draw_cursor(&mut self)
        requires
            wf(old(self)@),
        ensures
            final(self)@ == old(self)@,
            final(self).term_view().size == old(self).term_view().size,
            final(self).term_view().ops == old(self).term_view().ops.push(
                cursor_op(old(self)@, text_start_of(old(self)@.lines.len() as int)),
            ),
    {
        let ts = self.text_start();
        let x: u16;
        let y: u16;
        match self.mode {
            Mode::Command => {
                let lm = self.command.len() % 0x10000;
                x = ((6 + lm) % 0x10000) as u16;
                proof {
                    lemma_clip_add(self@.command.len() as int, 6);
                }
                y = self.terminal.size().height - 1;
            },
            _ => {
                let start = rope_line_to_char(&self.text, self.cursor.1);
                let total = rope_len_chars(&self.text);
                proof {
                    lemma_start_offset_bound(self@.lines, self@.cursor_line);
                }
                let ghost line = self@.lines[self@.cursor_line];
                let col = self.cursor.0;
                let mut w: usize = 0;
                let mut t: usize = 0;
                while t < col
                    invariant
                        t <= col,
                        col == self@.cursor_col,
                        0 <= self@.cursor_line < self@.lines.len(),
                        line == self@.lines[self@.cursor_line],
                        col <= line.len(),
                        start == start_offset(self@.lines, self@.cursor_line),
                        0 <= start + line.len() <= join_len(self@.lines),
                        total == join_len(self@.lines),
                        0 <= visual_width(line.take(t as int)),
                        w == visual_width(line.take(t as int)) % 0x10000,
                        w < 0x10000,
                    decreases col - t,
                {
                    proof {
                        assert(valid_char_pos(
                            self@.lines,
                            self@.cursor_line,
                            t as int,
                            (start + t) as int,
                        ));
                    }
                    let c = rope_char_at(&self.text, start + t);
                    proof {
                        assert(c == char_at_pos(self@.lines, self@.cursor_line, t as int));
                    }
                    let cells = char_cells_exec(c);
                    proof {
                        lemma_visual_take_step(line, t as int);
                        lemma_clip_add(visual_width(line.take(t as int)), char_cells(line[t as int]));
                    }
                    w = (w + cells) % 0x10000;
                    t += 1;
                }
                let tsm = ts % 0x10000;
                x = ((tsm + w) % 0x10000) as u16;
                proof {
                    vstd::arithmetic::div_mod::lemma_add_mod_noop(
                        ts as int,
                        visual_width(line.take(col as int)),
                        0x10000,
                    );
                }
                y = (self.cursor.1 - self.top_line) as u16;
            },
        }
        self.terminal.move_cursor(x, y);
        proof {
            assert(self@ =~= old(self)@);
        }
    }

    /// Hand the queued draw commands out, leaving the queue empty.
    pub fn take_ops(&mut self) -> (ops: Vec<crate::term::DrawOp>)
        ensures
            final(self)@ == old(self)@,
            final(self).term_view().ops == Seq::<DrawOpView>::empty(),
            ops@.map_values(|op: crate::term::DrawOp| op@) == old(self).term_view().ops,
    {
        let ops = self.terminal.take_ops();
        proof {
            assert(self@ =~= old(self)@);
        }
        ops
    }

    pub fn mode(&self) -> (m: Mode)
        ensures
            m == self@.mode,
    {
        self.mode
    }

    /// The cursor as `(column, line)`, both zero-based.
    pub fn cursor(&self) -> (c: (usize, usize))
        ensures
            c.0 == self@.cursor_col,
            c.1 == self@.cursor_line,
    {
        self.cursor
    }

    /// The first line currently rendered in the text area.
    pub fn top_line(&self) -> (t: usize)
        ensures
            t == self@.top_line,
    {
        self.top_line
    }

    /// Whether the next draw will repaint the text body.
    pub fn is_dirty(&self) -> (d: bool)
        ensures
            d == self@.dirty,
    {
        self.dirty
    }

    /// Number of lines of the document; an empty document has one.
    pub fn line_count(&self) -> (n: usize)
        ensures
            n == self@.lines.len(),
    {
        rope_len_lines(&self.text)
    }

    /// UTF-8 byte count of the document.
    pub fn byte_count(&self) -> (n: usize)
        ensures
            n == crate::line_model::join_byte_len(self@.lines),
    {
        rope_len_bytes(&self.text)
    }

    /// The characters of one line, the separator not included.
    pub fn line_chars(&self, line_idx: usize) -> (v: Vec<char>)
        requires
            line_idx < self@.lines.len(),
        ensures
            v@ == self@.lines[line_idx as int],
    {
        let total = rope_len_chars(&self.text);
        let start = rope_line_to_char(&self.text, line_idx);
        let content = self.line_content_len(line_idx);
        proof {
            lemma_start_offset_bound(self@.lines, line_idx as int);
        }
        let ghost line = self@.lines[line_idx as int];
        let mut out: Vec<char> = Vec::new();
        let mut t: usize = 0;
        while t < content
            invariant
                t <= content,
                line_idx < self@.lines.len(),
                line == self@.lines[line_idx as int],
                content == line.len(),
                start == start_offset(self@.lines, line_idx as int),
                0 <= start + content <= join_len(self@.lines),
                total == join_len(self@.lines),
                out@ == line.take(t as int),
            decreases content - t,
        {
            proof {
                assert(valid_char_pos(
                    self@.lines,
                    line_idx as int,
                    t as int,
                    (start + t) as int,
                ));
            }
            let c = rope_char_at(&self.text, start + t);
            proof {
                assert(c == char_at_pos(self@.lines, line_idx as int, t as int));
            }
            out.push(c);
            t += 1;
            proof {
                assert(out@ =~= line.take(t as int));
            }
        }
        proof {
            assert(line.take(content as int) =~= line);
        }
        out
    }

    /// The message of the last failed command, if one is pending.
    pub fn command_error_text(&self) -> (r: Option<&Vec<char>>)
        ensures
            match r {
                Some(e) => self@.command_error == Some(e@),
                None => self@.command_error is None,
            },
    {
        match &self.command_error {
            Some(e) => Some(e),
            None => None,
        }
    }
}

} // verus!
