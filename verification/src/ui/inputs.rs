//! Sequences of input events, and what holds of every state they reach.

use vstd::prelude::*;

use crate::streamhandler::BLANK;
use crate::streamhandler::cell_at;
use crate::streamhandler::DRAW_LAYER;
use crate::streamhandler::Edit;
use crate::streamhandler::lemma_put_keeps_shape;
use crate::streamhandler::lemma_run_is_replay;
use crate::streamhandler::lemma_run_keeps_shape;
use crate::streamhandler::put;
use crate::streamhandler::rectangular;
use crate::streamhandler::replayed;
use crate::streamhandler::run_edits;
use crate::ui::EditorView;
use crate::ui::event::KeyEvent;
use crate::ui::event::MouseEvent;
use crate::ui::event::MouseEventKind;
use crate::ui::pointer_applied;
use crate::ui::scrolled;
use crate::ui::text::key_applied;
use crate::ui::text_input_applied;
use crate::ui::tool::palette;
use crate::ui::tool::SIZE_COUNT;
use crate::ui::tool::ToolTypeView;
use crate::ui::undo::lemma_commit_keeps_showing;
use crate::ui::undo::lemma_undo_redo_restores_shown;
use crate::ui::undo::redo_steps;
use crate::ui::undo::shows;
use crate::ui::undo::undo_steps;

verus! {

/// One input event as the dispatcher sees it. A key event comes with the
/// uppercase form that a shifted character key inserts.
pub enum Input {
    Pointer(MouseEvent),
    Key(KeyEvent, Seq<char>),
}

/// The editor after one input event.
pub open spec fn input_applied(editor: EditorView, input: Input) -> EditorView {
    match input {
        Input::Pointer(event) => pointer_applied(editor, event),
        Input::Key(event, upper) => text_input_applied(editor, event, upper),
    }
}

/// The editor after a sequence of input events, first to last.
pub open spec fn inputs_applied(editor: EditorView, inputs: Seq<Input>) -> EditorView
    decreases inputs.len(),
{
    if inputs.len() == 0 {
        editor
    } else {
        input_applied(inputs_applied(editor, inputs.drop_last()), inputs.last())
    }
}

/// A key leaves the cursor within the text, whatever the key is, as long as
/// the uppercase form of a character is not empty.
pub proof fn lemma_key_keeps_cursor(text: Seq<char>, cursor: int, event: KeyEvent, upper: Seq<char>)
    requires
        0 <= cursor <= text.len(),
        upper.len() >= 1,
    ensures
        0 <= key_applied(text, cursor, event, upper).1 <= key_applied(
            text,
            cursor,
            event,
            upper,
        ).0.len(),
{
}

/// Scrolling moves the brush weight by one step and never leaves the
/// palette: it stops at either end and does not wrap around.
pub proof fn lemma_scroll_clamps(size_index: usize, kind: MouseEventKind)
    requires
        size_index < SIZE_COUNT,
    ensures
        scrolled(size_index, kind) < SIZE_COUNT,
        kind == MouseEventKind::ScrollUp ==> scrolled(size_index, kind) == vstd::math::min(
            size_index + 1,
            SIZE_COUNT - 1,
        ),
        kind == MouseEventKind::ScrollDown ==> scrolled(size_index, kind) == vstd::math::max(
            size_index - 1,
            0,
        ),
        kind != MouseEventKind::ScrollUp && kind != MouseEventKind::ScrollDown ==> scrolled(
            size_index,
            kind,
        ) == size_index,
{
}

/// An input event takes a well-formed editor to a well-formed editor.
pub proof fn lemma_input_keeps_wf(editor: EditorView, input: Input)
    requires
        editor.wf(),
        input matches Input::Key(_, upper) ==> upper.len() >= 1,
    ensures
        input_applied(editor, input).wf(),
{
    if let Input::Key(event, upper) = input {
        if let ToolTypeView::Text { text, cursor_index, .. } = editor.tool.tool_type {
            lemma_key_keeps_cursor(text, cursor_index as int, event, upper);
        }
    }
}

/// Every state that input events reach from a well-formed editor is well
/// formed: the brush weight names a glyph of the palette, however often the
/// wheel was scrolled, the cursor of a text field lies within its text
/// after every key, and the history holds no more strokes than its bound.
pub proof fn lemma_inputs_keep_wf(editor: EditorView, inputs: Seq<Input>)
    requires
        editor.wf(),
        forall|i: int|
            0 <= i < inputs.len() ==> (#[trigger] inputs[i] matches Input::Key(_, upper)
                ==> upper.len() >= 1),
    ensures
        inputs_applied(editor, inputs).wf(),
        inputs_applied(editor, inputs).tool.size_index < SIZE_COUNT,
        inputs_applied(editor, inputs).tool.tool_type matches ToolTypeView::Text {
            text,
            cursor_index,
            ..
        } ==> cursor_index <= text.len(),
        inputs_applied(editor, inputs).history.entries.len() <= crate::ui::data::UNDO_LIST_MAX_SIZE,
    decreases inputs.len(),
{
    if inputs.len() > 0 {
        lemma_inputs_keep_wf(editor, inputs.drop_last());
        lemma_input_keeps_wf(inputs_applied(editor, inputs.drop_last()), inputs.last());
    }
}

/// Every state that input events reach has a canvas of the dimensions it
/// started with.
pub proof fn lemma_inputs_keep_shape(
    editor: EditorView,
    inputs: Seq<Input>,
    width: nat,
    height: nat,
)
    requires
        rectangular(editor.cells, width, height),
    ensures
        inputs_applied(editor, inputs).cells.len() == editor.cells.len(),
        rectangular(inputs_applied(editor, inputs).cells, width, height),
    decreases inputs.len(),
{
    if inputs.len() > 0 {
        lemma_inputs_keep_shape(editor, inputs.drop_last(), width, height);
        let before = inputs_applied(editor, inputs.drop_last());
        let layer = DRAW_LAYER as int;
        match inputs.last() {
            Input::Pointer(event) => {
                let col = event.column as int;
                let row = event.row as int;
                lemma_put_keeps_shape(
                    before.cells,
                    layer,
                    col,
                    row,
                    palette()[before.tool.size_index as int],
                    width,
                    height,
                );
                lemma_put_keeps_shape(before.cells, layer, col, row, BLANK, width, height);
            },
            Input::Key(event, upper) => {
                if let ToolTypeView::Text { start_pos, text, .. } = before.tool.tool_type {
                    lemma_run_keeps_shape(
                        before.cells,
                        layer,
                        start_pos.0 as int,
                        start_pos.1 as int,
                        text,
                        width,
                        height,
                    );
                }
            },
        }
    }
}

/// Canvas and history are in step: nothing is undone, the tool holds no
/// edit that is not committed, and the canvas shows the strokes of the
/// history. Such is an editor with a blank canvas and an empty history.
pub open spec fn in_step(editor: EditorView) -> bool {
    &&& editor.history.wf()
    &&& editor.history.cursor == 0
    &&& editor.tool.pending().len() == 0
    &&& shows(editor.cells, editor.history.entries)
}

/// An input event leaves canvas and history in step.
pub proof fn lemma_input_keeps_in_step(editor: EditorView, input: Input)
    requires
        in_step(editor),
    ensures
        in_step(input_applied(editor, input)),
{
    let layer = DRAW_LAYER as int;
    let after = input_applied(editor, input);
    assert(editor.history.entries.skip(0) =~= editor.history.entries);
    match input {
        Input::Pointer(event) => {
            if after.cells != editor.cells || after.history != editor.history {
                let col = event.column as int;
                let row = event.row as int;
                let previous = cell_at(editor.cells, layer, col, row)->0;
                let ch = if editor.tool.tool_type is Pen {
                    palette()[editor.tool.size_index as int]
                } else {
                    BLANK
                };
                let edit = (event.column, event.row, previous, ch);
                let stroke = editor.tool.pending().push(edit);
                assert(stroke =~= seq![edit]);
                assert(stroke.drop_last() =~= Seq::<Edit>::empty());
                assert(replayed(editor.cells, stroke.drop_last()) == editor.cells);
                assert(replayed(editor.cells, stroke) == put(editor.cells, layer, col, row, ch));
                lemma_commit_keeps_showing(editor.cells, editor.history, stroke);
            }
        },
        Input::Key(event, upper) => {
            if let ToolTypeView::Text { start_pos, text, .. } = editor.tool.tool_type {
                if after.cells != editor.cells || after.history != editor.history {
                    let col = start_pos.0 as int;
                    let row = start_pos.1 as int;
                    let edits = run_edits(editor.cells, layer, col, row, text);
                    assert(editor.tool.pending() + edits =~= edits);
                    lemma_run_is_replay(editor.cells, col, row, text);
                    if text.len() > 0 {
                        lemma_commit_keeps_showing(editor.cells, editor.history, edits);
                    }
                }
            }
        },
    }
}

/// Every state that input events reach from an editor whose canvas and
/// history are in step can be undone and redone exactly: undoing any number
/// of times and then redoing the same number of times restores the canvas,
/// character for character, and the history.
pub proof fn lemma_reached_state_undoes_and_redoes(editor: EditorView, inputs: Seq<Input>, n: nat)
    requires
        in_step(editor),
    ensures
        in_step(inputs_applied(editor, inputs)),
        ({
            let reached = inputs_applied(editor, inputs);
            let undone = undo_steps(reached.cells, reached.history, n);
            redo_steps(undone.0, undone.1, n) == (reached.cells, reached.history)
        }),
    decreases inputs.len(),
{
    if inputs.len() > 0 {
        lemma_reached_state_undoes_and_redoes(editor, inputs.drop_last(), n);
        lemma_input_keeps_in_step(inputs_applied(editor, inputs.drop_last()), inputs.last());
    }
    let reached = inputs_applied(editor, inputs);
    lemma_undo_redo_restores_shown(reached.cells, reached.history, n);
}

} // verus!
