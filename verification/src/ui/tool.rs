//! The active tool and the stroke it is accumulating.

use vstd::prelude::*;

use crate::streamhandler::copy_stroke;
use crate::streamhandler::Edit;

verus! {

/// The text colour type of `crossterm`, `crossterm::style::Color`. A tool
/// carries one and never looks inside it.
#[verifier::external_type_specification]
#[verifier::external_body]
pub struct ExColor(crossterm::style::Color);

/// How many brush weights the pen has.
pub const SIZE_COUNT: usize = 8;

/// The brush weight a new pen starts with.
pub const DEFAULT_SIZE_INDEX: usize = 4;

/// The pen's glyphs, from the sparsest to the densest.
pub open spec fn palette() -> Seq<char> {
    seq!['.', '-', '+', '*', 'x', 'X', '#', '\u{2588}']
}

/// The glyph of a brush weight.
pub fn size_glyph(size_index: usize) -> (glyph: char)
    requires
        size_index < SIZE_COUNT,
    ensures
        glyph == palette()[size_index as int],
{
    match size_index {
        0 => '.',
        1 => '-',
        2 => '+',
        3 => '*',
        4 => 'x',
        5 => 'X',
        6 => '#',
        _ => '\u{2588}',
    }
}

/// The kind of the active tool, with the state of the text field for the
/// text tool.
#[derive(Debug, PartialEq, Eq, Default)]
pub enum ToolType {
    #[default]
    Pen,
    Eraser,
    Text {
        /// Where the text starts, as (column, row).
        start_pos: (u16, u16),
        /// The text typed so far.
        text: String,
        /// The insertion point, counted in characters from the start of the text.
        cursor_index: usize,
        /// Whether keystrokes currently go to this text field.
        is_in_text_input: bool,
    },
}

/// A [`ToolType`] as a value, its text a sequence of characters.
pub enum ToolTypeView {
    Pen,
    Eraser,
    Text { start_pos: (u16, u16), text: Seq<char>, cursor_index: usize, is_in_text_input: bool },
}

impl ToolTypeView {
    /// The insertion point of a text field lies within its text.
    pub open spec fn wf(self) -> bool {
        self matches ToolTypeView::Text { text, cursor_index, .. } ==> cursor_index <= text.len()
    }

    /// The text tool as it is right after it was selected: no text, the
    /// insertion point at the start, anchored at the origin, not taking keys.
    pub open spec fn text_default() -> ToolTypeView {
        ToolTypeView::Text {
            start_pos: (0, 0),
            text: Seq::empty(),
            cursor_index: 0,
            is_in_text_input: false,
        }
    }

    /// Whether this is the text tool with its field taking keys.
    pub open spec fn in_text_input(self) -> bool {
        self matches ToolTypeView::Text { is_in_text_input, .. } && is_in_text_input
    }
}

impl View for ToolType {
    type V = ToolTypeView;

    open spec fn view(&self) -> ToolTypeView {
        match *self {
            ToolType::Pen => ToolTypeView::Pen,
            ToolType::Eraser => ToolTypeView::Eraser,
            ToolType::Text { start_pos, text, cursor_index, is_in_text_input } => {
                ToolTypeView::Text { start_pos, text: text@, cursor_index, is_in_text_input }
            },
        }
    }
}

impl ToolType {
    /// The text tool as it is right after it was selected.
    pub fn text_default() -> (tool_type: Self)
        ensures
            tool_type@ == ToolTypeView::text_default(),
            tool_type@.wf(),
    {
        Self::Text {
            start_pos: (0, 0),
            text: String::new(),
            cursor_index: 0,
            is_in_text_input: false,
        }
    }
}

impl Clone for ToolType {
    fn clone(&self) -> (copy: Self)
        ensures
            copy@ == self@,
    {
        match self {
            ToolType::Pen => ToolType::Pen,
            ToolType::Eraser => ToolType::Eraser,
            ToolType::Text { start_pos, text, cursor_index, is_in_text_input } => ToolType::Text {
                start_pos: *start_pos,
                text: text.clone(),
                cursor_index: *cursor_index,
                is_in_text_input: *is_in_text_input,
            },
        }
    }
}

/// The one active tool: its kind, colour and brush weight, and the stroke
/// that is being accumulated, if any.
#[derive(Debug)]
pub struct Tool {
    pub tool_type: ToolType,
    pub color: crossterm::style::Color,
    pub size_index: usize,
    pub stroke: Option<Vec<Edit>>,
}

/// A [`Tool`] as a value.
pub struct ToolView {
    pub tool_type: ToolTypeView,
    pub color: crossterm::style::Color,
    pub size_index: usize,
    pub stroke: Option<Seq<Edit>>,
}

impl ToolView {
    /// The brush weight names a glyph of the palette and the tool type is
    /// well formed.
    pub open spec fn wf(self) -> bool {
        self.size_index < SIZE_COUNT && self.tool_type.wf()
    }

    /// The edits accumulated so far; none where no stroke is in progress.
    pub open spec fn pending(self) -> Seq<Edit> {
        match self.stroke {
            Some(edits) => edits,
            None => Seq::empty(),
        }
    }
}

impl View for Tool {
    type V = ToolView;

    open spec fn view(&self) -> ToolView {
        ToolView {
            tool_type: self.tool_type@,
            color: self.color,
            size_index: self.size_index,
            stroke: match self.stroke {
                Some(edits) => Some(edits@),
                None => None,
            },
        }
    }
}

impl Tool {
    /// The invariant every tool keeps: see [`ToolView::wf`].
    pub open spec fn wf(&self) -> bool {
        self@.wf()
    }

    /// A tool with no stroke in progress.
    pub fn new(
        tool_type: ToolType,
        color: crossterm::style::Color,
        size_index: usize,
    ) -> (tool: Self)
        requires
            tool_type@.wf(),
            size_index < SIZE_COUNT,
        ensures
            tool.wf(),
            tool@ == (ToolView { tool_type: tool_type@, color, size_index, stroke: None }),
    {
        Self { tool_type, color, size_index, stroke: None }
    }
}

impl Clone for Tool {
    fn clone(&self) -> (copy: Self)
        ensures
            copy@ == self@,
    {
        Tool {
            tool_type: self.tool_type.clone(),
            color: self.color,
            size_index: self.size_index,
            stroke: match &self.stroke {
                Some(edits) => Some(copy_stroke(edits)),
                None => None,
            },
        }
    }
}

/// A snapshot of the tool.
pub fn get_tool(tool: &Tool) -> (snapshot: Tool)
    ensures
        snapshot@ == tool@,
{
    tool.clone()
}

/// The tool itself, for edits in place.
pub fn get_tool_mut(tool: &mut Tool) -> (handle: &mut Tool)
    ensures
        *handle == *old(tool),
        *final(tool) == *final(handle),
{
    tool
}

/// Replaces the tool wholesale.
pub fn set_tool(tool: &mut Tool, replacement: Tool)
    ensures
        *final(tool) == replacement,
{
    *tool = replacement;
}

/// Activates a tool type. The stroke in progress, if any, is discarded;
/// colour and brush weight stay.
pub fn set_tool_type(tool: &mut Tool, tool_type: ToolType)
    ensures
        final(tool)@ == (ToolView { tool_type: tool_type@, stroke: None, ..old(tool)@ }),
{
    tool.tool_type = tool_type;
    tool.stroke = None;
}

/// Sets the brush weight, clamped to the last glyph of the palette.
pub fn set_size_index(tool: &mut Tool, size_index: usize)
    ensures
        final(tool)@ == (ToolView {
            size_index: if size_index < SIZE_COUNT {
                size_index
            } else {
                (SIZE_COUNT - 1) as usize
            },
            ..old(tool)@
        }),
{
    tool.size_index = if size_index < SIZE_COUNT {
        size_index
    } else {
        SIZE_COUNT - 1
    };
}

/// Appends an edit to the stroke in progress, starting one if there is none.
pub fn add_to_stroke(tool: &mut Tool, col: u16, row: u16, from: char, to: char)
    ensures
        final(tool)@ == (ToolView {
            stroke: Some(old(tool)@.pending().push((col, row, from, to))),
            ..old(tool)@
        }),
{
    let mut edits = finish_stroke(tool);
    edits.push((col, row, from, to));
    tool.stroke = Some(edits);
}

/// Detaches the stroke in progress and returns it; an empty stroke where
/// none was in progress. The tool is left with no stroke.
pub fn finish_stroke(tool: &mut Tool) -> (stroke: Vec<Edit>)
    ensures
        stroke@ == old(tool)@.pending(),
        final(tool)@ == (ToolView { stroke: None, ..old(tool)@ }),
{
    match tool.stroke.take() {
        Some(edits) => edits,
        None => Vec::new(),
    }
}

} // verus!
