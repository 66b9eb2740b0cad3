//! The terminal as the renderer sees it: a reported size and a queue of draw
//! commands.  The crate never touches the real terminal; a thin shell outside
//! it drains the queue and performs each command.

use vstd::prelude::*;

verus! {

/// Reported terminal size in character cells.
#[derive(Clone, Copy, PartialEq, Eq, Structural, Debug)]
pub struct Size {
    pub width: u16,
    pub height: u16,
}

/// The shape the terminal cursor is displayed with.
#[derive(Clone, Copy, PartialEq, Eq, Structural, Debug)]
pub enum CursorShape {
    Block,
    Bar,
}

/// How a piece of printed text is styled.
#[derive(Clone, Copy, PartialEq, Eq, Structural, Debug)]
pub enum TextStyle {
    Plain,
    LineNumber,
    Filler,
    Status,
}

/// One draw command for the terminal.
#[derive(Clone, PartialEq, Eq, Debug)]
pub enum DrawOp {
    Clear,
    HideCursor,
    ShowCursor,
    SetCursorShape { shape: CursorShape },
    Print { x: u16, y: u16, text: Vec<char>, style: TextStyle },
    MoveCursor { x: u16, y: u16 },
}

/// The mathematical value of one draw command.
pub ghost enum DrawOpView {
    Clear,
    HideCursor,
    ShowCursor,
    SetCursorShape { shape: CursorShape },
    Print { x: u16, y: u16, text: Seq<char>, style: TextStyle },
    MoveCursor { x: u16, y: u16 },
}

impl View for DrawOp {
    type V = DrawOpView;

    open spec fn view(&self) -> DrawOpView {
        match self {
            DrawOp::Clear => DrawOpView::Clear,
            DrawOp::HideCursor => DrawOpView::HideCursor,
            DrawOp::ShowCursor => DrawOpView::ShowCursor,
            DrawOp::SetCursorShape { shape } => DrawOpView::SetCursorShape { shape: *shape },
            DrawOp::Print { x, y, text, style } => DrawOpView::Print {
                x: *x,
                y: *y,
                text: text@,
                style: *style,
            },
            DrawOp::MoveCursor { x, y } => DrawOpView::MoveCursor { x: *x, y: *y },
        }
    }
}

/// The mathematical value of the terminal: its size and the queued commands.
#[verifier::ext_equal]
pub ghost struct TermView {
    pub size: Size,
    pub ops: Seq<DrawOpView>,
}

/// The terminal handle the editor draws through: it records commands instead
/// of performing them.
pub struct Terminal {
    size: Size,
    ops: Vec<DrawOp>,
}

impl View for Terminal {
    type V = TermView;

    closed spec fn view(&self) -> TermView {
        TermView { size: self.size, ops: self.ops@.map_values(|op: DrawOp| op@) }
    }
}

impl Terminal {
    pub fn new(size: Size) -> (t: Terminal)
        ensures
            t@.size == size,
            t@.ops == Seq::<DrawOpView>::empty(),
    {
        let t = Terminal { size, ops: Vec::new() };
        proof {
            assert(t@.ops =~= Seq::<DrawOpView>::empty());
        }
        t
    }

    /// The size reported when the terminal was opened.
    pub fn size(&self) -> (s: Size)
        ensures
            s == self@.size,
    {
        self.size
    }

    fn push_op(&mut self, op: DrawOp)
        ensures
            final(self)@.size == old(self)@.size,
            final(self)@.ops == old(self)@.ops.push(op@),
    {
        self.ops.push(op);
        proof {
            assert(self@.ops =~= old(self)@.ops.push(op@));
        }
    }

    pub fn clear(&mut self)
        ensures
            final(self)@.size == old(self)@.size,
            final(self)@.ops == old(self)@.ops.push(DrawOpView::Clear),
    {
        self.push_op(DrawOp::Clear);
    }

    pub fn hide_cursor(&mut self)
        ensures
            final(self)@.size == old(self)@.size,
            final(self)@.ops == old(self)@.ops.push(DrawOpView::HideCursor),
    {
        self.push_op(DrawOp::HideCursor);
    }

    pub fn show_cursor(&mut self)
        ensures
            final(self)@.size == old(self)@.size,
            final(self)@.ops == old(self)@.ops.push(DrawOpView::ShowCursor),
    {
        self.push_op(DrawOp::ShowCursor);
    }

    pub fn change_cursor_style(&mut self, shape: CursorShape)
        ensures
            final(self)@.size == old(self)@.size,
            final(self)@.ops == old(self)@.ops.push(DrawOpView::SetCursorShape { shape }),
    {
        self.push_op(DrawOp::SetCursorShape { shape });
    }

    /// Print plain text at a position.
    pub fn print_at(&mut self, coords: (u16, u16), text: Vec<char>) -> (r: ())
        ensures
            final(self)@.size == old(self)@.size,
            final(self)@.ops == old(self)@.ops.push(
                DrawOpView::Print {
                    x: coords.0,
                    y: coords.1,
                    text: text@,
                    style: TextStyle::Plain,
                },
            ),
    {
        self.push_op(DrawOp::Print { x: coords.0, y: coords.1, text, style: TextStyle::Plain });
    }

    /// Print styled text at a position.
    pub fn print_styled_at(&mut self, coords: (u16, u16), text: Vec<char>, style: TextStyle)
        ensures
            final(self)@.size == old(self)@.size,
            final(self)@.ops == old(self)@.ops.push(
                DrawOpView::Print { x: coords.0, y: coords.1, text: text@, style },
            ),
    {
        self.push_op(DrawOp::Print { x: coords.0, y: coords.1, text, style });
    }

    pub fn move_cursor(&mut self, x: u16, y: u16)
        ensures
            final(self)@.size == old(self)@.size,
            final(self)@.ops == old(self)@.ops.push(DrawOpView::MoveCursor { x, y }),
    {
        self.push_op(DrawOp::MoveCursor { x, y });
    }

    /// Hand the queued commands out, leaving the queue empty.
    pub fn take_ops(&mut self) -> (ops: Vec<DrawOp>)
        ensures
            final(self)@.size == old(self)@.size,
            final(self)@.ops == Seq::<DrawOpView>::empty(),
            ops@.map_values(|op: DrawOp| op@) == old(self)@.ops,
    {
        let mut out: Vec<DrawOp> = Vec::new();
        core::mem::swap(&mut out, &mut self.ops);
        proof {
            assert(self@.ops =~= Seq::<DrawOpView>::empty());
            assert(out@.map_values(|op: DrawOp| op@) =~= old(self)@.ops);
        }
        out
    }
}

} // verus!
