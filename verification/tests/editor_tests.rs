use editor::editor::{Editor, EventResult, KeyInput, Mode};
use editor::term::{CursorShape, DrawOp, Size, Terminal, TextStyle};

fn chars(s: &str) -> Vec<char> {
    s.chars().collect()
}

fn term(width: u16, height: u16) -> Terminal {
    Terminal::new(Size { width, height })
}

fn type_keys(ed: &mut Editor, keys: &[KeyInput]) -> Option<EventResult> {
    let mut last = None;
    for k in keys {
        last = ed.handle_event(*k);
    }
    last
}

#[test]
fn scenario_insert_hi_then_escape() {
    let mut ed = Editor::new(term(80, 10));
    let out = type_keys(
        &mut ed,
        &[
            KeyInput::Char('i'),
            KeyInput::Char('h'),
            KeyInput::Char('i'),
            KeyInput::Esc,
        ],
    );
    assert_eq!(out, None);
    assert_eq!(ed.line_count(), 1);
    assert_eq!(ed.line_chars(0), chars("hi"));
    assert_eq!(ed.mode(), Mode::Normal);
    assert_eq!(ed.cursor(), (1, 0));
}

#[test]
fn scenario_backspace_joins_lines() {
    let mut ed = Editor::new_with_text(term(80, 10), "ab\ncd");
    assert_eq!(ed.line_count(), 2);
    type_keys(&mut ed, &[KeyInput::Down, KeyInput::Char('i')]);
    assert_eq!(ed.cursor(), (0, 1));
    type_keys(&mut ed, &[KeyInput::Backspace]);
    assert_eq!(ed.line_count(), 1);
    assert_eq!(ed.line_chars(0), chars("abcd"));
    assert_eq!(ed.cursor(), (2, 0));
    assert_eq!(ed.top_line(), 0);
}

#[test]
fn scenario_enter_splits_line_only_in_insert_mode() {
    let mut ed = Editor::new_with_text(term(80, 10), "abc");
    type_keys(&mut ed, &[KeyInput::Char('l')]);
    assert_eq!(ed.cursor(), (1, 0));
    // Enter is not a Normal-mode binding: nothing changes.
    type_keys(&mut ed, &[KeyInput::Enter]);
    assert_eq!(ed.line_count(), 1);
    assert_eq!(ed.cursor(), (1, 0));
    assert_eq!(ed.mode(), Mode::Normal);
    // In Insert mode the same key splits the line at the cursor.
    type_keys(&mut ed, &[KeyInput::Char('i'), KeyInput::Enter]);
    assert_eq!(ed.line_count(), 2);
    assert_eq!(ed.line_chars(0), chars("a"));
    assert_eq!(ed.line_chars(1), chars("bc"));
    assert_eq!(ed.cursor(), (0, 1));
}

#[test]
fn scenario_quit_command() {
    let mut ed = Editor::new(term(80, 10));
    let out = type_keys(
        &mut ed,
        &[KeyInput::Char(':'), KeyInput::Char('q'), KeyInput::Enter],
    );
    assert_eq!(out, Some(EventResult::Quit));
    assert!(ed.command_error_text().is_none());
}

#[test]
fn scenario_unknown_command_sets_error() {
    let mut ed = Editor::new(term(40, 10));
    let out = type_keys(
        &mut ed,
        &[KeyInput::Char(':'), KeyInput::Char('x'), KeyInput::Enter],
    );
    assert_eq!(out, None);
    assert_eq!(ed.mode(), Mode::Normal);
    assert_eq!(ed.command_error_text(), Some(&chars("Unknown command: x")));
    // The status bar shows the error in place of the statistics.
    ed.take_ops();
    ed.handle_event(KeyInput::Other);
    ed.draw();
    let ops = ed.take_ops();
    let mut status = None;
    for op in &ops {
        if let DrawOp::Print { x: 0, y: 9, text, style: TextStyle::Status } = op {
            status = Some(text.clone());
        }
    }
    let mut expected = chars("NRM | Unknown command: x");
    while expected.len() < 40 {
        expected.push(' ');
    }
    assert_eq!(status, Some(expected));
}

#[test]
fn horizontal_moves_stay_within_line() {
    let mut ed = Editor::new_with_text(term(80, 10), "ab");
    // In Normal mode the cursor rests on a character: the bound is column 1.
    for _ in 0..5 {
        ed.handle_event(KeyInput::Char('l'));
    }
    assert_eq!(ed.cursor(), (1, 0));
    for _ in 0..5 {
        ed.handle_event(KeyInput::Char('h'));
    }
    assert_eq!(ed.cursor(), (0, 0));
}

#[test]
fn vertical_move_clamps_but_keeps_sticky_column() {
    let mut ed = Editor::new_with_text(term(80, 10), "abcd\nx");
    for _ in 0..3 {
        ed.handle_event(KeyInput::Char('l'));
    }
    assert_eq!(ed.cursor(), (3, 0));
    // The second line has one character: its Normal-mode bound is column 0.
    ed.handle_event(KeyInput::Down);
    assert_eq!(ed.cursor(), (0, 1));
    // The sticky column survives the clamped move.
    ed.handle_event(KeyInput::Up);
    assert_eq!(ed.cursor(), (3, 0));
}

#[test]
fn insert_mode_reaches_one_column_past_normal_bound() {
    let mut ed = Editor::new_with_text(term(80, 10), "ab\ncd");
    // Normal mode stops on the last character of the first line.
    type_keys(&mut ed, &[KeyInput::Char('l'), KeyInput::Char('l')]);
    assert_eq!(ed.cursor(), (1, 0));
    // Insert mode reaches the end-of-line position one past it.
    type_keys(&mut ed, &[KeyInput::Char('i'), KeyInput::Right, KeyInput::Right]);
    assert_eq!(ed.cursor(), (2, 0));
}

#[test]
fn backspace_undoes_insert() {
    let mut ed = Editor::new(term(80, 10));
    type_keys(&mut ed, &[KeyInput::Char('i'), KeyInput::Char('x'), KeyInput::Backspace]);
    assert_eq!(ed.line_count(), 1);
    assert_eq!(ed.line_chars(0), chars(""));
    assert_eq!(ed.cursor(), (0, 0));
}

#[test]
fn noop_cases_change_nothing() {
    let mut ed = Editor::new(term(80, 10));
    ed.draw();
    ed.take_ops();
    assert!(!ed.is_dirty());
    // Moving left at column zero leaves document, cursor and dirty flag alone.
    ed.handle_event(KeyInput::Left);
    assert_eq!(ed.cursor(), (0, 0));
    assert!(!ed.is_dirty());
    // Backspace at the very start of the document is a no-op too.
    ed.handle_event(KeyInput::Char('i'));
    ed.draw();
    ed.take_ops();
    ed.handle_event(KeyInput::Backspace);
    assert_eq!(ed.cursor(), (0, 0));
    assert_eq!(ed.line_count(), 1);
    assert_eq!(ed.line_chars(0), chars(""));
    assert!(!ed.is_dirty());
}

#[test]
fn document_statistics_count_utf8_bytes() {
    let mut ed = Editor::new_with_text(term(80, 10), "ab\ncd");
    assert_eq!(ed.line_count(), 2);
    assert_eq!(ed.byte_count(), 5);
    // A two-byte character counts as two bytes.
    type_keys(&mut ed, &[KeyInput::Char('i'), KeyInput::Char('\u{e9}')]);
    assert_eq!(ed.byte_count(), 7);
}

#[test]
fn trailing_newline_yields_final_empty_line() {
    let ed = Editor::new_with_text(term(80, 10), "a\n");
    assert_eq!(ed.line_count(), 2);
    assert_eq!(ed.line_chars(0), chars("a"));
    assert_eq!(ed.line_chars(1), chars(""));
}

#[test]
fn first_draw_paints_gutter_body_status_and_cursor() {
    let mut ed = Editor::new(term(30, 4));
    ed.draw();
    let ops = ed.take_ops();
    let mut status = chars("NRM | 1 lines | 0 bytes");
    while status.len() < 30 {
        status.push(' ');
    }
    let expected = vec![
        DrawOp::HideCursor,
        DrawOp::Clear,
        DrawOp::Print { x: 0, y: 0, text: chars("   1"), style: TextStyle::LineNumber },
        DrawOp::Print { x: 5, y: 0, text: chars(""), style: TextStyle::Plain },
        DrawOp::Print { x: 0, y: 1, text: chars("   ~"), style: TextStyle::Filler },
        DrawOp::Print { x: 0, y: 2, text: chars("   ~"), style: TextStyle::Filler },
        DrawOp::Print { x: 0, y: 3, text: status, style: TextStyle::Status },
        DrawOp::MoveCursor { x: 5, y: 0 },
        DrawOp::ShowCursor,
    ];
    assert_eq!(ops, expected);
}

#[test]
fn clean_draw_skips_the_body() {
    let mut ed = Editor::new(term(30, 4));
    ed.draw();
    ed.take_ops();
    ed.draw();
    let ops = ed.take_ops();
    assert_eq!(ops.len(), 4);
    assert_eq!(ops[0], DrawOp::HideCursor);
    assert!(matches!(ops[1], DrawOp::Print { style: TextStyle::Status, .. }));
    assert_eq!(ops[2], DrawOp::MoveCursor { x: 5, y: 0 });
    assert_eq!(ops[3], DrawOp::ShowCursor);
}

#[test]
fn tab_renders_as_four_spaces_and_moves_the_cursor_wide() {
    let mut ed = Editor::new(term(30, 4));
    type_keys(&mut ed, &[KeyInput::Char('i'), KeyInput::Tab]);
    assert_eq!(ed.line_chars(0), chars("\t"));
    ed.take_ops();
    ed.draw();
    let ops = ed.take_ops();
    assert!(ops.contains(&DrawOp::Print { x: 5, y: 0, text: chars("    "), style: TextStyle::Plain }));
    // The visual cursor sits four cells past the gutter.
    assert!(ops.contains(&DrawOp::MoveCursor { x: 9, y: 0 }));
}

#[test]
fn scrolling_down_moves_the_viewport_one_line_at_a_time() {
    // Three body rows: lines 0..2 fit; moving to line 3 scrolls by one.
    let mut ed = Editor::new_with_text(term(30, 4), "a\nb\nc\nd\ne");
    ed.draw();
    ed.take_ops();
    type_keys(&mut ed, &[KeyInput::Down, KeyInput::Down]);
    assert_eq!(ed.top_line(), 0);
    assert!(!ed.is_dirty());
    ed.handle_event(KeyInput::Down);
    assert_eq!(ed.cursor(), (0, 3));
    assert_eq!(ed.top_line(), 1);
    assert!(ed.is_dirty());
    // Moving back above the viewport scrolls up again.
    type_keys(&mut ed, &[KeyInput::Up, KeyInput::Up, KeyInput::Up]);
    assert_eq!(ed.top_line(), 0);
}

#[test]
fn backspace_join_above_viewport_scrolls_up() {
    let mut ed = Editor::new_with_text(term(30, 4), "a\nb\nc\nd\ne");
    type_keys(&mut ed, &[KeyInput::Down, KeyInput::Down, KeyInput::Down]);
    assert_eq!(ed.top_line(), 1);
    type_keys(&mut ed, &[KeyInput::Up, KeyInput::Up]);
    assert_eq!((ed.cursor(), ed.top_line()), ((0, 1), 1));
    type_keys(&mut ed, &[KeyInput::Char('i'), KeyInput::Backspace]);
    assert_eq!(ed.line_chars(0), chars("ab"));
    assert_eq!(ed.cursor(), (1, 0));
    assert_eq!(ed.top_line(), 0);
}

#[test]
fn enter_below_viewport_scrolls_down() {
    let mut ed = Editor::new(term(30, 4));
    type_keys(&mut ed, &[KeyInput::Char('i'), KeyInput::Enter, KeyInput::Enter]);
    assert_eq!((ed.cursor(), ed.top_line()), ((0, 2), 0));
    type_keys(&mut ed, &[KeyInput::Enter]);
    assert_eq!((ed.cursor(), ed.top_line()), ((0, 3), 1));
    assert_eq!(ed.line_count(), 4);
}

#[test]
fn append_key_enters_insert_after_cursor() {
    let mut ed = Editor::new_with_text(term(80, 10), "ab");
    type_keys(&mut ed, &[KeyInput::Char('a')]);
    assert_eq!(ed.mode(), Mode::Insert);
    assert_eq!(ed.cursor(), (1, 0));
    type_keys(&mut ed, &[KeyInput::Char('x')]);
    assert_eq!(ed.line_chars(0), chars("axb"));
}

#[test]
fn command_buffer_editing() {
    let mut ed = Editor::new(term(80, 10));
    type_keys(&mut ed, &[KeyInput::Char(':'), KeyInput::Char('w'), KeyInput::Char('q')]);
    assert_eq!(ed.mode(), Mode::Command);
    // Backspace trims the buffer; on an empty buffer it leaves Command mode.
    type_keys(&mut ed, &[KeyInput::Backspace]);
    let out = type_keys(&mut ed, &[KeyInput::Enter]);
    assert_eq!(out, None);
    assert_eq!(ed.command_error_text(), Some(&chars("Unknown command: w")));
    assert_eq!(ed.mode(), Mode::Normal);
    type_keys(&mut ed, &[KeyInput::Char(':'), KeyInput::Backspace]);
    assert_eq!(ed.mode(), Mode::Normal);
    // Entering Insert mode clears the pending error.
    type_keys(&mut ed, &[KeyInput::Char('i')]);
    assert!(ed.command_error_text().is_none());
}

#[test]
fn mode_changes_queue_cursor_shape_commands() {
    let mut ed = Editor::new(term(80, 10));
    ed.take_ops();
    ed.handle_event(KeyInput::Char('i'));
    assert_eq!(ed.take_ops(), vec![DrawOp::SetCursorShape { shape: CursorShape::Bar }]);
    ed.handle_event(KeyInput::Esc);
    assert_eq!(ed.take_ops(), vec![DrawOp::SetCursorShape { shape: CursorShape::Block }]);
    ed.handle_event(KeyInput::Char(':'));
    assert_eq!(ed.take_ops(), vec![DrawOp::SetCursorShape { shape: CursorShape::Bar }]);
}

#[test]
fn line_start_and_append_jumps() {
    let mut ed = Editor::new_with_text(term(80, 10), "abc");
    // `$` rests on the last character, `0` on the first.
    ed.handle_event(KeyInput::Char('$'));
    assert_eq!(ed.cursor(), (2, 0));
    ed.handle_event(KeyInput::Char('0'));
    assert_eq!(ed.cursor(), (0, 0));
    // `A` appends after the last character.
    ed.handle_event(KeyInput::Char('A'));
    assert_eq!(ed.mode(), Mode::Insert);
    assert_eq!(ed.cursor(), (3, 0));
    ed.handle_event(KeyInput::Esc);
    // `I` inserts at the line start.
    ed.handle_event(KeyInput::Char('I'));
    assert_eq!(ed.mode(), Mode::Insert);
    assert_eq!(ed.cursor(), (0, 0));
}
