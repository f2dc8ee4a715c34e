//! A character-cell drawing canvas for terminals: a layered grid of
//! characters, a pen / eraser / text tool, and a bounded undo history of
//! strokes. Input events go in, canvas edits and draw commands come out.

pub mod streamhandler;
pub mod ui;
