//! Core of a modal, terminal-resident text editor: the document model, the
//! cursor and viewport arithmetic, the mode state machine, the command
//! interpreter, and the renderer that decides what to redraw.  Terminal I/O
//! itself lives outside this crate; the renderer emits draw commands as data.

pub mod editor;
pub mod line_model;
pub mod render;
pub mod rope_text;
pub mod term;
