//! Tools, history and the dispatch of input events.
//!
//! The dispatcher turns one pointer or key event into edits of the canvas,
//! changes of the tool, commits to the history, and a list of commands for
//! the terminal. It does no input or output of its own.

pub mod command;
pub mod data;
pub mod event;
pub mod inputs;
mod style;
pub mod text;
pub mod tool;
pub mod undo;

use vstd::prelude::*;
use vstd::string::StringExecFns;

use crate::streamhandler::cell_at;
use crate::streamhandler::put;
use crate::streamhandler::run_edits;
use crate::streamhandler::run_written;
use crate::streamhandler::Cells;
use crate::streamhandler::StreamHandler;
use crate::streamhandler::BLANK;
use crate::streamhandler::DRAW_LAYER;
use crate::ui::command::commands_view;
use crate::ui::command::DrawCommand;
use crate::ui::command::DrawCommandView;
use crate::ui::data::push_to_undolist;
use crate::ui::data::History;
use crate::ui::data::HistoryView;
use crate::ui::event::KeyCode;
use crate::ui::event::KeyEvent;
use crate::ui::event::MouseButton;
use crate::ui::event::MouseEvent;
use crate::ui::event::MouseEventKind;
use crate::ui::text::compose_line;
use crate::ui::text::cursor_char;
use crate::ui::text::edit_text;
use crate::ui::text::key_applied;
use crate::ui::text::pads_line;
use crate::ui::text::shifted_form;
use crate::ui::tool::add_to_stroke;
use crate::ui::tool::finish_stroke;
use crate::ui::tool::palette;
use crate::ui::tool::set_size_index;
use crate::ui::tool::set_tool_type;
use crate::ui::tool::size_glyph;
use crate::ui::tool::Tool;
use crate::ui::tool::ToolType;
use crate::ui::tool::ToolTypeView;
use crate::ui::tool::ToolView;
use crate::ui::tool::SIZE_COUNT;

verus! {

/// The width of the toolbar, in columns.
pub const UI_LENGTH: u16 = 22;

/// The height of the toolbar, in rows.
pub const UI_HEIGHT: u16 = 3;

/// Canvas, tool and history together, as one value.
pub struct EditorView {
    pub cells: Cells,
    pub tool: ToolView,
    pub history: HistoryView,
}

impl EditorView {
    /// Tool and history are well formed.
    pub open spec fn wf(self) -> bool {
        self.tool.wf() && self.history.wf()
    }
}

/// The value of a canvas, a tool and a history taken together.
pub open spec fn editor_of(stream: StreamHandler, tool: Tool, history: History) -> EditorView {
    EditorView { cells: stream@, tool: tool@, history: history@ }
}

/// Whether a cell lies under the toolbar.
pub open spec fn in_toolbar(column: u16, row: u16) -> bool {
    column < UI_LENGTH && row < UI_HEIGHT
}

/// The toolbar up to the label of the pen: the upper border and the start
/// of the middle line.
pub const TOOLBAR_HEAD: &'static str =
    "\u{256d}\u{2500}\u{2500}\u{2500}\u{2500}\u{2500}\u{2500}\u{2500}\u{252c}\u{2500}\u{2500}\u{2500}\u{252c}\u{2500}\u{2500}\u{2500}\u{252c}\u{2500}\u{2500}\u{2500}\u{256e}\n\u{2502} ";

/// What stands between two labels of the toolbar.
pub const TOOLBAR_BAR: &'static str = " \u{2502} ";

/// The toolbar behind the label of the text tool: the clear button, the end
/// of the middle line and the lower border.
pub const TOOLBAR_TAIL: &'static str =
    " \u{2502} \u{f1f8} \u{2502}\n\u{2570}\u{2500}\u{2500}\u{2500}\u{2500}\u{2500}\u{2500}\u{2500}\u{2534}\u{2500}\u{2500}\u{2500}\u{2534}\u{2500}\u{2500}\u{2500}\u{2534}\u{2500}\u{2500}\u{2500}\u{256f}";

/// The icon of the pen and the bracket that opens before its glyph.
pub const PEN_ICON: &'static str = "\u{f03ea} (";

/// The bracket that closes behind the glyph of the pen.
pub const PEN_CLOSE: &'static str = ")";

/// The label of the eraser.
pub const ERASER_LABEL: &'static str = "\u{f01fe}";

/// The label of the text tool, which also marks a text field that has just
/// started to take keys.
pub const TEXT_LABEL: &'static str = "T";

/// The label of the pen in the toolbar: its icon and, in brackets, the glyph
/// of the brush weight.
pub open spec fn pen_label(glyph: char) -> Seq<char> {
    PEN_ICON@ + seq![glyph] + PEN_CLOSE@
}

/// The three lines of the toolbar around the labels of the three tools.
pub open spec fn toolbar_text(pen: Seq<char>, eraser: Seq<char>, text: Seq<char>) -> Seq<char> {
    TOOLBAR_HEAD@ + pen + TOOLBAR_BAR@ + eraser + TOOLBAR_BAR@ + text + TOOLBAR_TAIL@
}

/// Lays out the toolbar around the labels of the three tools.
pub fn toolbar(pen: &str, eraser: &str, text: &str) -> (bar: String)
    ensures
        bar@ == toolbar_text(pen@, eraser@, text@),
{
    let mut bar = String::from_str(TOOLBAR_HEAD);
    bar.append(pen);
    bar.append(TOOLBAR_BAR);
    bar.append(eraser);
    bar.append(TOOLBAR_BAR);
    bar.append(text);
    bar.append(TOOLBAR_TAIL);
    bar
}

/// The toolbar of a tool, where `label` stands in place of the label of
/// the active tool and the other two labels are plain.
pub open spec fn highlighted_toolbar(tool: ToolView, label: Seq<char>) -> Seq<char> {
    let pen = pen_label(palette()[tool.size_index as int]);
    match tool.tool_type {
        ToolTypeView::Pen => toolbar_text(label, ERASER_LABEL@, TEXT_LABEL@),
        ToolTypeView::Eraser => toolbar_text(pen, label, TEXT_LABEL@),
        ToolTypeView::Text { .. } => toolbar_text(pen, ERASER_LABEL@, label),
    }
}

/// The toolbar as text, with the label of the active tool highlighted. The
/// highlighted label is whatever the terminal styling makes of the plain one.
pub fn ui_string(tool: &Tool) -> (bar: String)
    requires
        tool.size_index < SIZE_COUNT,
    ensures
        exists|label: Seq<char>| bar@ == highlighted_toolbar(tool@, label),
{
    let mut pen = String::from_str(PEN_ICON);
    pen.push(size_glyph(tool.size_index));
    pen.append(PEN_CLOSE);
    assert(pen@ =~= pen_label(palette()[tool.size_index as int]));
    match &tool.tool_type {
        ToolType::Pen => {
            let label = style::blue(pen.as_str());
            let bar = toolbar(label.as_str(), ERASER_LABEL, TEXT_LABEL);
            assert(bar@ == highlighted_toolbar(tool@, label@));
            bar
        },
        ToolType::Eraser => {
            let label = style::blue(ERASER_LABEL);
            let bar = toolbar(pen.as_str(), label.as_str(), TEXT_LABEL);
            assert(bar@ == highlighted_toolbar(tool@, label@));
            bar
        },
        ToolType::Text { .. } => {
            let label = style::blue(TEXT_LABEL);
            let bar = toolbar(pen.as_str(), ERASER_LABEL, label.as_str());
            assert(bar@ == highlighted_toolbar(tool@, label@));
            bar
        },
    }
}

/// The tool after a press on the toolbar at `column`: the pen, the eraser or
/// a fresh text tool where the press hits their button, the same tool elsewhere.
/// Selecting a tool discards the stroke in progress.
pub open spec fn toolbar_pressed(tool: ToolView, column: u16) -> ToolView {
    if 1 <= column <= 5 {
        ToolView { tool_type: ToolTypeView::Pen, stroke: None, ..tool }
    } else if 10 <= column <= 12 {
        ToolView { tool_type: ToolTypeView::Eraser, stroke: None, ..tool }
    } else if 14 <= column <= 16 {
        ToolView { tool_type: ToolTypeView::text_default(), stroke: None, ..tool }
    } else {
        tool
    }
}

/// The commands of a press on the toolbar at `column`: clearing the screen
/// where the press hits the clear button, none elsewhere.
pub open spec fn toolbar_commands(column: u16) -> Seq<DrawCommandView> {
    if 18 <= column <= 20 {
        seq![DrawCommandView::ClearAll]
    } else {
        Seq::empty()
    }
}

/// The editor after `ch` has been painted at a cell of the drawing layer:
/// the cell holds `ch`, and the record of the change, behind whatever the
/// tool had accumulated, is committed as one stroke. Nothing changes where
/// the cell is outside the canvas.
pub open spec fn painted(editor: EditorView, column: u16, row: u16, ch: char) -> EditorView {
    match cell_at(editor.cells, DRAW_LAYER as int, column as int, row as int) {
        Some(previous) => EditorView {
            cells: put(editor.cells, DRAW_LAYER as int, column as int, row as int, ch),
            tool: ToolView { stroke: None, ..editor.tool },
            history: editor.history.committed(
                editor.tool.pending().push((column, row, previous, ch)),
            ),
        },
        None => editor,
    }
}

/// The commands of painting `ch` at a cell: printing it there, or none where
/// the cell is outside the canvas.
pub open spec fn paint_commands(
    cells: Cells,
    column: u16,
    row: u16,
    ch: char,
) -> Seq<DrawCommandView> {
    if cell_at(cells, DRAW_LAYER as int, column as int, row as int) is Some {
        seq![DrawCommandView::PrintAt { col: column, row, text: seq![ch] }]
    } else {
        Seq::empty()
    }
}

/// The brush weight after a scroll event: one up or one down, kept within
/// the palette.
pub open spec fn scrolled(size_index: usize, kind: MouseEventKind) -> usize {
    match kind {
        MouseEventKind::ScrollUp => if size_index + 1 < SIZE_COUNT {
            (size_index + 1) as usize
        } else {
            (SIZE_COUNT - 1) as usize
        },
        MouseEventKind::ScrollDown => if size_index > 0 {
            (size_index - 1) as usize
        } else {
            0
        },
        _ => size_index,
    }
}

/// The editor after a press of the left button on a cell of the drawing
/// region. The pen paints its glyph and the eraser a blank. An idle text
/// tool starts taking keys, anchored at the cell, with an empty stroke in
/// progress; one that takes keys already stays as it is.
pub open spec fn pressed(editor: EditorView, column: u16, row: u16) -> EditorView {
    match editor.tool.tool_type {
        ToolTypeView::Pen => painted(editor, column, row, palette()[editor.tool.size_index as int]),
        ToolTypeView::Eraser => painted(editor, column, row, BLANK),
        ToolTypeView::Text { start_pos, text, cursor_index, is_in_text_input } => {
            if is_in_text_input {
                editor
            } else {
                EditorView {
                    tool: ToolView {
                        tool_type: ToolTypeView::Text {
                            start_pos: (column, row),
                            text,
                            cursor_index,
                            is_in_text_input: true,
                        },
                        stroke: Some(Seq::empty()),
                        ..editor.tool
                    },
                    ..editor
                }
            }
        },
    }
}

/// The commands of a press of the left button on a cell of the drawing
/// region: the print of what was painted, or the mark of a text field that
/// starts taking keys.
pub open spec fn press_commands(editor: EditorView, column: u16, row: u16) -> Seq<DrawCommandView> {
    match editor.tool.tool_type {
        ToolTypeView::Pen => paint_commands(
            editor.cells,
            column,
            row,
            palette()[editor.tool.size_index as int],
        ),
        ToolTypeView::Eraser => paint_commands(editor.cells, column, row, BLANK),
        ToolTypeView::Text { is_in_text_input, .. } => {
            if is_in_text_input {
                Seq::empty()
            } else {
                seq![DrawCommandView::PrintAt { col: column, row, text: TEXT_LABEL@ }]
            }
        },
    }
}

/// The editor after a drag with the left button over a cell of the drawing
/// region: pen and eraser paint as on a press, the text tool does nothing.
pub open spec fn dragged(editor: EditorView, column: u16, row: u16) -> EditorView {
    match editor.tool.tool_type {
        ToolTypeView::Text { .. } => editor,
        _ => pressed(editor, column, row),
    }
}

/// The commands of a drag with the left button over a cell of the drawing region.
pub open spec fn drag_commands(editor: EditorView, column: u16, row: u16) -> Seq<DrawCommandView> {
    match editor.tool.tool_type {
        ToolTypeView::Text { .. } => Seq::empty(),
        _ => press_commands(editor, column, row),
    }
}

/// The editor after a pointer event.
///
/// A press of the left button on the toolbar selects a tool; on the drawing
/// region it performs the action of the active tool at that cell. A drag
/// with the left button repeats the action of pen and eraser on the
/// drawing region and is ignored on the toolbar. Scrolling changes the
/// brush weight, whichever tool is active. Every other event is ignored.
pub open spec fn pointer_applied(editor: EditorView, event: MouseEvent) -> EditorView {
    match event.kind {
        MouseEventKind::Down(MouseButton::Left) => if in_toolbar(event.column, event.row) {
            EditorView { tool: toolbar_pressed(editor.tool, event.column), ..editor }
        } else {
            pressed(editor, event.column, event.row)
        },
        MouseEventKind::Drag(MouseButton::Left) => if in_toolbar(event.column, event.row) {
            editor
        } else {
            dragged(editor, event.column, event.row)
        },
        MouseEventKind::ScrollUp | MouseEventKind::ScrollDown => EditorView {
            tool: ToolView {
                size_index: scrolled(editor.tool.size_index, event.kind),
                ..editor.tool
            },
            ..editor
        },
        _ => editor,
    }
}

/// The commands of a pointer event.
pub open spec fn pointer_commands(editor: EditorView, event: MouseEvent) -> Seq<DrawCommandView> {
    match event.kind {
        MouseEventKind::Down(MouseButton::Left) => if in_toolbar(event.column, event.row) {
            toolbar_commands(event.column)
        } else {
            press_commands(editor, event.column, event.row)
        },
        MouseEventKind::Drag(MouseButton::Left) => if in_toolbar(event.column, event.row) {
            Seq::empty()
        } else {
            drag_commands(editor, event.column, event.row)
        },
        _ => Seq::empty(),
    }
}

/// Paints one character at a cell and commits the change as a stroke.
fn paint(
    stream: &mut StreamHandler,
    tool: &mut Tool,
    history: &mut History,
    column: u16,
    row: u16,
    ch: char,
) -> (commands: Vec<DrawCommand>)
    requires
        old(history).wf(),
    ensures
        final(history).wf(),
        editor_of(*final(stream), *final(tool), *final(history)) == painted(
            editor_of(*old(stream), *old(tool), *old(history)),
            column,
            row,
            ch,
        ),
        commands_view(commands@) == paint_commands(old(stream)@, column, row, ch),
{
    let mut commands: Vec<DrawCommand> = Vec::new();
    match stream.write_cell(DRAW_LAYER, column, row, ch) {
        Some(edit) => {
            add_to_stroke(tool, edit.0, edit.1, edit.2, edit.3);
            let stroke = finish_stroke(tool);
            push_to_undolist(history, stroke);
            let mut text = String::new();
            text.push(ch);
            commands.push(DrawCommand::PrintAt { col: column, row, text });
            assert(text@ =~= seq![ch]);
            assert(commands_view(commands@) =~= paint_commands(old(stream)@, column, row, ch));
        },
        None => {
            assert(commands_view(commands@) =~= paint_commands(old(stream)@, column, row, ch));
        },
    }
    commands
}

/// Handles a press on the toolbar.
fn handle_ui_click(tool: &mut Tool, col: u16) -> (commands: Vec<DrawCommand>)
    ensures
        final(tool)@ == toolbar_pressed(old(tool)@, col),
        commands_view(commands@) == toolbar_commands(col),
{
    let mut commands: Vec<DrawCommand> = Vec::new();
    if 1 <= col && col <= 5 {
        set_tool_type(tool, ToolType::Pen);
    } else if 10 <= col && col <= 12 {
        set_tool_type(tool, ToolType::Eraser);
    } else if 14 <= col && col <= 16 {
        set_tool_type(tool, ToolType::text_default());
    } else if 18 <= col && col <= 20 {
        commands.push(DrawCommand::ClearAll);
    }
    assert(commands_view(commands@) =~= toolbar_commands(col));
    commands
}

/// Handles a press of the left button on the drawing region.
fn handle_press(
    stream: &mut StreamHandler,
    tool: &mut Tool,
    history: &mut History,
    column: u16,
    row: u16,
) -> (commands: Vec<DrawCommand>)
    requires
        old(tool).wf(),
        old(history).wf(),
    ensures
        final(tool).wf(),
        final(history).wf(),
        editor_of(*final(stream), *final(tool), *final(history)) == pressed(
            editor_of(*old(stream), *old(tool), *old(history)),
            column,
            row,
        ),
        commands_view(commands@) == press_commands(
            editor_of(*old(stream), *old(tool), *old(history)),
            column,
            row,
        ),
{
    match &tool.tool_type {
        ToolType::Pen => {
            let glyph = size_glyph(tool.size_index);
            paint(stream, tool, history, column, row, glyph)
        },
        ToolType::Eraser => paint(stream, tool, history, column, row, BLANK),
        ToolType::Text { text, cursor_index, is_in_text_input, .. } => {
            let mut commands: Vec<DrawCommand> = Vec::new();
            if !*is_in_text_input {
                let started = ToolType::Text {
                    start_pos: (column, row),
                    text: text.clone(),
                    cursor_index: *cursor_index,
                    is_in_text_input: true,
                };
                tool.tool_type = started;
                tool.stroke = Some(Vec::new());
                commands.push(
                    DrawCommand::PrintAt { col: column, row, text: String::from_str(TEXT_LABEL) },
                );
            }
            assert(commands_view(commands@) =~= press_commands(
                editor_of(*old(stream), *old(tool), *old(history)),
                column,
                row,
            ));
            commands
        },
    }
}

/// Handles one pointer event: see [`pointer_applied`] for what becomes of
/// canvas, tool and history, and [`pointer_commands`] for what the terminal
/// is asked to do.
pub fn handle_mouse_event(
    stream: &mut StreamHandler,
    tool: &mut Tool,
    history: &mut History,
    event: MouseEvent,
) -> (commands: Vec<DrawCommand>)
    requires
        old(tool).wf(),
        old(history).wf(),
    ensures
        final(tool).wf(),
        final(history).wf(),
        editor_of(*final(stream), *final(tool), *final(history)) == pointer_applied(
            editor_of(*old(stream), *old(tool), *old(history)),
            event,
        ),
        commands_view(commands@) == pointer_commands(
            editor_of(*old(stream), *old(tool), *old(history)),
            event,
        ),
{
    match event.kind {
        MouseEventKind::Down(MouseButton::Left) => {
            if event.column < UI_LENGTH && event.row < UI_HEIGHT {
                handle_ui_click(tool, event.column)
            } else {
                handle_press(stream, tool, history, event.column, event.row)
            }
        },
        MouseEventKind::Drag(MouseButton::Left) => {
            let on_toolbar = event.column < UI_LENGTH && event.row < UI_HEIGHT;
            let is_text = match &tool.tool_type {
                ToolType::Text { .. } => true,
                _ => false,
            };
            if on_toolbar || is_text {
                Vec::new()
            } else {
                handle_press(stream, tool, history, event.column, event.row)
            }
        },
        MouseEventKind::ScrollUp => {
            let size_index = tool.size_index;
            set_size_index(tool, size_index + 1);
            Vec::new()
        },
        MouseEventKind::ScrollDown => {
            let size_index = tool.size_index;
            set_size_index(tool, if size_index > 0 {
                size_index - 1
            } else {
                0
            });
            Vec::new()
        },
        _ => Vec::new(),
    }
}

/// Whether keystrokes currently go to the text field of the text tool.
pub fn is_in_text_field(tool: &Tool) -> (active: bool)
    ensures
        active == tool@.tool_type.in_text_input(),
{
    match &tool.tool_type {
        ToolType::Text { is_in_text_input, .. } => *is_in_text_input,
        _ => false,
    }
}

/// Why a key was refused.
#[derive(Clone, Copy, Debug, PartialEq, Eq)]
pub enum InputError {
    /// The active tool is not a text field that takes keys.
    NotInTextInput,
}

/// The editor after Escape in a text field anchored at `start_pos`: the
/// text stands on the drawing layer from the anchor rightwards, as far as it
/// fits, the records of these changes, behind whatever the tool had
/// accumulated, are committed as one stroke unless the text is empty, and
/// the tool is a fresh text tool.
pub open spec fn text_committed(
    editor: EditorView,
    start_pos: (u16, u16),
    text: Seq<char>,
) -> EditorView {
    let layer = DRAW_LAYER as int;
    let col = start_pos.0 as int;
    let row = start_pos.1 as int;
    EditorView {
        cells: run_written(editor.cells, layer, col, row, text),
        tool: ToolView { tool_type: ToolTypeView::text_default(), stroke: None, ..editor.tool },
        history: if text.len() > 0 {
            editor.history.committed(
                editor.tool.pending() + run_edits(editor.cells, layer, col, row, text),
            )
        } else {
            editor.history
        },
    }
}

/// The editor after a key event, where `upper` is what a shifted character
/// key inserts.
///
/// Only a text field that takes keys reacts. Escape ends the text entry: see
/// [`text_committed`]. Every other key edits text and cursor as
/// [`key_applied`] says and leaves canvas, history and the stroke in
/// progress alone.
pub open spec fn text_input_applied(
    editor: EditorView,
    event: KeyEvent,
    upper: Seq<char>,
) -> EditorView {
    match editor.tool.tool_type {
        ToolTypeView::Text { start_pos, text, cursor_index, is_in_text_input } => {
            if !is_in_text_input {
                editor
            } else if event.code == KeyCode::Esc {
                text_committed(editor, start_pos, text)
            } else {
                let edited = key_applied(text, cursor_index as int, event, upper);
                EditorView {
                    tool: ToolView {
                        tool_type: ToolTypeView::Text {
                            start_pos,
                            text: edited.0,
                            cursor_index: edited.1 as usize,
                            is_in_text_input: true,
                        },
                        ..editor.tool
                    },
                    ..editor
                }
            }
        },
        _ => editor,
    }
}

/// The commands that show a line of a text field: the print of the line at
/// the anchor of the field, then hiding the terminal's cursor.
pub open spec fn line_commands_view(
    start_pos: (u16, u16),
    line: Seq<char>,
) -> Seq<DrawCommandView> {
    seq![
        DrawCommandView::PrintAt { col: start_pos.0, row: start_pos.1, text: line },
        DrawCommandView::HideCursor,
    ]
}

/// The commands of a key event in a text field that takes keys, where
/// `shown` is the styled line with the cursor marked. After Escape the text
/// itself is shown, after any other key `shown`.
pub open spec fn text_input_commands(
    tool_type: ToolTypeView,
    event: KeyEvent,
    shown: Seq<char>,
) -> Seq<DrawCommandView> {
    match tool_type {
        ToolTypeView::Text { start_pos, text, .. } => line_commands_view(
            start_pos,
            if event.code == KeyCode::Esc {
                text
            } else {
                shown
            },
        ),
        _ => Seq::empty(),
    }
}

/// The commands that show `line` at the anchor of a text field.
pub fn line_commands(start_pos: (u16, u16), line: String) -> (commands: Vec<DrawCommand>)
    ensures
        commands_view(commands@) == line_commands_view(start_pos, line@),
{
    let mut commands: Vec<DrawCommand> = Vec::new();
    commands.push(DrawCommand::PrintAt { col: start_pos.0, row: start_pos.1, text: line });
    commands.push(DrawCommand::HideCursor);
    assert(commands_view(commands@) =~= line_commands_view(start_pos, line@));
    commands
}

/// Ends the text entry: writes the text to the canvas, commits the stroke
/// and resets the tool.
fn commit_text(
    stream: &mut StreamHandler,
    tool: &mut Tool,
    history: &mut History,
    start_pos: (u16, u16),
    text: String,
)
    requires
        old(tool).wf(),
        old(history).wf(),
    ensures
        final(tool).wf(),
        final(history).wf(),
        editor_of(*final(stream), *final(tool), *final(history)) == text_committed(
            editor_of(*old(stream), *old(tool), *old(history)),
            start_pos,
            text@,
        ),
{
    let empty = text.as_str().is_empty();
    let mut edits = stream.print_at(text, DRAW_LAYER, start_pos.0, start_pos.1);
    let mut stroke = finish_stroke(tool);
    stroke.append(&mut edits);
    if !empty {
        push_to_undolist(history, stroke);
    }
    set_tool_type(tool, ToolType::text_default());
}

/// Handles one key event for the text field. The key is refused, and nothing
/// changes, unless the active tool is a text field that takes keys. See
/// [`text_input_applied`] for what becomes of canvas, tool and history, and
/// [`text_input_commands`] for what the terminal is asked to do.
pub fn handle_text_input(
    stream: &mut StreamHandler,
    tool: &mut Tool,
    history: &mut History,
    event: KeyEvent,
) -> (result: Result<Vec<DrawCommand>, InputError>)
    requires
        old(tool).wf(),
        old(history).wf(),
    ensures
        final(tool).wf(),
        final(history).wf(),
        editor_of(*final(stream), *final(tool), *final(history)) == text_input_applied(
            editor_of(*old(stream), *old(tool), *old(history)),
            event,
            shifted_form(event),
        ),
        match result {
            Ok(commands) => old(tool)@.tool_type.in_text_input() && exists|shown: Seq<char>|
                commands_view(commands@) == text_input_commands(old(tool)@.tool_type, event, shown),
            Err(error) => !old(tool)@.tool_type.in_text_input() && error
                == InputError::NotInTextInput,
        },
{
    let (start_pos, text, cursor_index) = match &tool.tool_type {
        ToolType::Text { start_pos, text, cursor_index, is_in_text_input } => {
            if !*is_in_text_input {
                return Err(InputError::NotInTextInput);
            }
            (*start_pos, text.clone(), *cursor_index)
        },
        _ => {
            return Err(InputError::NotInTextInput);
        },
    };
    let commands = match event.code {
        KeyCode::Esc => {
            let line = text.clone();
            commit_text(stream, tool, history, start_pos, text);
            let ghost plain = line@;
            let commands = line_commands(start_pos, line);
            assert(commands_view(commands@) == text_input_commands(
                old(tool)@.tool_type,
                event,
                plain,
            ));
            commands
        },
        _ => {
            let (edited, cursor) = edit_text(text.as_str(), cursor_index, &event);
            let pad = pads_line(text.as_str(), cursor_index, &event);
            let mark = style::underlined_blue(cursor_char(edited.as_str(), cursor));
            let line = compose_line(edited.as_str(), cursor, pad, mark.as_str());
            let shown = style::blue(line.as_str());
            tool.tool_type = ToolType::Text {
                start_pos,
                text: edited,
                cursor_index: cursor,
                is_in_text_input: true,
            };
            let ghost styled = shown@;
            let commands = line_commands(start_pos, shown);
            assert(commands_view(commands@) == text_input_commands(
                old(tool)@.tool_type,
                event,
                styled,
            ));
            commands
        },
    };
    Ok(commands)
}

} // verus!
