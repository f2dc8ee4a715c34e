//! What the dispatcher asks the terminal to do.

use vstd::prelude::*;

verus! {

/// One request to the terminal.
#[derive(Debug, PartialEq, Eq)]
pub enum DrawCommand {
    /// Move to a cell and print a text there.
    PrintAt { col: u16, row: u16, text: String },
    /// Clear the whole screen.
    ClearAll,
    /// Hide the terminal's own cursor.
    HideCursor,
}

/// A [`DrawCommand`] as a value, its text a sequence of characters.
pub enum DrawCommandView {
    PrintAt { col: u16, row: u16, text: Seq<char> },
    ClearAll,
    HideCursor,
}

impl View for DrawCommand {
    type V = DrawCommandView;

    open spec fn view(&self) -> DrawCommandView {
        match *self {
            DrawCommand::PrintAt { col, row, text } => DrawCommandView::PrintAt {
                col,
                row,
                text: text@,
            },
            DrawCommand::ClearAll => DrawCommandView::ClearAll,
            DrawCommand::HideCursor => DrawCommandView::HideCursor,
        }
    }
}

/// A list of commands as a sequence of values.
pub open spec fn commands_view(commands: Seq<DrawCommand>) -> Seq<DrawCommandView> {
    commands.map_values(|command: DrawCommand| command@)
}

} // verus!
