//! The canvas: an ordered stack of character layers behind bounds-checked
//! reads and writes.

use vstd::prelude::*;
use vstd::string::StrSliceExecFns;

verus! {

/// One reversible cell change: column, row, the character that was there and
/// the character that replaced it.
pub type Edit = (u16, u16, char, char);

/// What a canvas holds: layers, each a list of rows, each a list of characters.
pub type Cells = Seq<Seq<Seq<char>>>;

/// The layer that drawing operations write to.
pub const DRAW_LAYER: usize = 0;

/// The character of an untouched cell.
pub const BLANK: char = ' ';

/// Which side of an edit record to write back.
#[derive(Clone, Copy, Debug, PartialEq, Eq)]
pub enum Direction {
    /// Write the character the edit introduced.
    Forward,
    /// Write the character the edit replaced.
    Reverse,
}

/// Whether `(col, row)` names a cell of layer `layer`.
pub open spec fn in_range(cells: Cells, layer: int, col: int, row: int) -> bool {
    &&& 0 <= layer < cells.len()
    &&& 0 <= row < cells[layer].len()
    &&& 0 <= col < cells[layer][row].len()
}

/// The character at a cell, or `None` outside the grid.
pub open spec fn cell_at(cells: Cells, layer: int, col: int, row: int) -> Option<char> {
    if in_range(cells, layer, col, row) {
        Some(cells[layer][row][col])
    } else {
        None
    }
}

/// The grid with one cell overwritten; unchanged when the cell is outside it.
pub open spec fn put(cells: Cells, layer: int, col: int, row: int, ch: char) -> Cells {
    if in_range(cells, layer, col, row) {
        cells.update(layer, cells[layer].update(row, cells[layer][row].update(col, ch)))
    } else {
        cells
    }
}

/// A single layer of `height` rows by `width` columns, every cell blank.
pub open spec fn blank_cells(width: nat, height: nat) -> Cells {
    seq![Seq::new(height, |r: int| Seq::new(width, |c: int| BLANK))]
}

/// Every layer has the same number of rows and every row the same number of
/// columns, and both numbers fit a cell coordinate.
pub open spec fn rectangular(cells: Cells, width: nat, height: nat) -> bool {
    &&& width <= u16::MAX
    &&& height <= u16::MAX
    &&& forall|l: int| 0 <= l < cells.len() ==> (#[trigger] cells[l]).len() == height
    &&& forall|l: int, r: int|
        0 <= l < cells.len() && 0 <= r < cells[l].len() ==> (#[trigger] cells[l][r]).len() == width
}

/// The character an edit writes in the given direction.
pub open spec fn edit_char(edit: Edit, direction: Direction) -> char {
    match direction {
        Direction::Forward => edit.3,
        Direction::Reverse => edit.2,
    }
}

/// The grid after one edit has been written back to the drawing layer.
pub open spec fn edit_applied(cells: Cells, edit: Edit, direction: Direction) -> Cells {
    put(cells, DRAW_LAYER as int, edit.0 as int, edit.1 as int, edit_char(edit, direction))
}

/// The grid after the edits of a stroke have been reapplied, first to last.
pub open spec fn replayed(cells: Cells, stroke: Seq<Edit>) -> Cells
    decreases stroke.len(),
{
    if stroke.len() == 0 {
        cells
    } else {
        edit_applied(replayed(cells, stroke.drop_last()), stroke.last(), Direction::Forward)
    }
}

/// The grid after the edits of a stroke have been taken back, last to first.
pub open spec fn reverted(cells: Cells, stroke: Seq<Edit>) -> Cells
    decreases stroke.len(),
{
    if stroke.len() == 0 {
        cells
    } else {
        reverted(edit_applied(cells, stroke.last(), Direction::Reverse), stroke.drop_last())
    }
}

/// The grid after a whole stroke has been applied in the given direction.
pub open spec fn stroke_applied(cells: Cells, stroke: Seq<Edit>, direction: Direction) -> Cells {
    match direction {
        Direction::Forward => replayed(cells, stroke),
        Direction::Reverse => reverted(cells, stroke),
    }
}

/// How many leading characters of a run of `len` characters starting at
/// `(col, row)` land on cells of the layer.
pub open spec fn run_fit(cells: Cells, layer: int, col: int, row: int, len: nat) -> nat {
    if 0 <= layer < cells.len() && 0 <= row < cells[layer].len() && 0 <= col
        < cells[layer][row].len() && col <= u16::MAX {
        let room = vstd::math::min(cells[layer][row].len() - col, u16::MAX + 1 - col);
        vstd::math::min(len as int, room) as nat
    } else {
        0
    }
}

/// The grid after a run of characters has been written left to right from
/// `(col, row)`; characters that fall outside the layer are dropped.
pub open spec fn run_written(
    cells: Cells,
    layer: int,
    col: int,
    row: int,
    text: Seq<char>,
) -> Cells {
    let n = run_fit(cells, layer, col, row, text.len());
    if n == 0 {
        cells
    } else {
        let old_row = cells[layer][row];
        let new_row = Seq::new(
            old_row.len(),
            |j: int| if col <= j < col + n { text[j - col] } else { old_row[j] },
        );
        cells.update(layer, cells[layer].update(row, new_row))
    }
}

/// The edit records of [`run_written`]: one per character that landed, in order.
pub open spec fn run_edits(
    cells: Cells,
    layer: int,
    col: int,
    row: int,
    text: Seq<char>,
) -> Seq<Edit> {
    Seq::new(
        run_fit(cells, layer, col, row, text.len()),
        |i: int| ((col + i) as u16, row as u16, cells[layer][row][col + i], text[i]),
    )
}

/// A copy of a stroke.
pub(crate) fn copy_stroke(stroke: &Vec<Edit>) -> (copy: Vec<Edit>)
    ensures
        copy@ == stroke@,
{
    let mut copy: Vec<Edit> = Vec::new();
    let mut i: usize = 0;
    while i < stroke.len()
        invariant
            i <= stroke@.len(),
            copy@ == stroke@.take(i as int),
        decreases stroke@.len() - i,
    {
        copy.push(stroke[i]);
        i += 1;
        assert(copy@ =~= stroke@.take(i as int));
    }
    assert(stroke@.take(stroke@.len() as int) =~= stroke@);
    copy
}

/// A stack of equally sized character layers.
pub struct StreamHandler {
    layers: Vec<Vec<Vec<char>>>,
}

impl View for StreamHandler {
    type V = Cells;

    closed spec fn view(&self) -> Cells {
        Seq::new(
            self.layers@.len(),
            |l: int| Seq::new(self.layers@[l]@.len(), |r: int| self.layers@[l]@[r]@),
        )
    }
}

impl StreamHandler {
    /// A canvas of one blank layer, `width` columns by `height` rows.
    pub fn new(width: u16, height: u16) -> (stream: Self)
        ensures
            stream@ == blank_cells(width as nat, height as nat),
            rectangular(stream@, width as nat, height as nat),
    {
        let mut rows: Vec<Vec<char>> = Vec::new();
        let mut r: u16 = 0;
        while r < height
            invariant
                r <= height,
                rows@.len() == r,
                forall|i: int|
                    0 <= i < r ==> (#[trigger] rows@[i])@ == Seq::new(width as nat, |c: int| BLANK),
            decreases height - r,
        {
            let mut row: Vec<char> = Vec::new();
            let mut c: u16 = 0;
            while c < width
                invariant
                    c <= width,
                    row@ == Seq::new(c as nat, |k: int| BLANK),
                decreases width - c,
            {
                row.push(BLANK);
                c += 1;
                assert(row@ =~= Seq::new(c as nat, |k: int| BLANK));
            }
            rows.push(row);
            r += 1;
        }
        let mut layers: Vec<Vec<Vec<char>>> = Vec::new();
        layers.push(rows);
        let stream = StreamHandler { layers };
        assert(stream@ =~~= blank_cells(width as nat, height as nat));
        stream
    }

    /// Reads one cell; `None` when the layer, row or column does not exist.
    pub fn get_char(&self, layer: usize, col: u16, row: u16) -> (found: Option<char>)
        ensures
            found == cell_at(self@, layer as int, col as int, row as int),
    {
        if layer < self.layers.len() && (row as usize) < self.layers[layer].len() && (col as usize)
            < self.layers[layer][row as usize].len() {
            Some(self.layers[layer][row as usize][col as usize])
        } else {
            None
        }
    }

    /// Overwrites one cell and returns the record of the change. A cell
    /// outside the grid is refused: nothing is written and `None` comes back.
    pub fn write_cell(&mut self, layer: usize, col: u16, row: u16, ch: char) -> (edit: Option<Edit>)
        ensures
            final(self)@ == put(old(self)@, layer as int, col as int, row as int, ch),
            edit == match cell_at(old(self)@, layer as int, col as int, row as int) {
                Some(previous) => Some((col, row, previous, ch)),
                None => None::<Edit>,
            },
    {
        if layer < self.layers.len() && (row as usize) < self.layers[layer].len() && (col as usize)
            < self.layers[layer][row as usize].len() {
            let previous = self.layers[layer][row as usize][col as usize];
            self.layers[layer][row as usize][col as usize] = ch;
            assert(self@ =~~= put(old(self)@, layer as int, col as int, row as int, ch));
            Some((col, row, previous, ch))
        } else {
            None
        }
    }

    /// Writes one side of an edit record back to the drawing layer: the new
    /// character going forward, the previous one in reverse.
    pub fn apply_edit(&mut self, edit: Edit, direction: Direction)
        ensures
            final(self)@ == edit_applied(old(self)@, edit, direction),
    {
        let ch = match direction {
            Direction::Forward => edit.3,
            Direction::Reverse => edit.2,
        };
        let _ = self.write_cell(DRAW_LAYER, edit.0, edit.1, ch);
    }

    /// Applies a whole stroke: its edits first to last going forward, last to
    /// first in reverse.
    pub fn apply_stroke(&mut self, stroke: &Vec<Edit>, direction: Direction)
        ensures
            final(self)@ == stroke_applied(old(self)@, stroke@, direction),
    {
        let n = stroke.len();
        match direction {
            Direction::Forward => {
                let mut i: usize = 0;
                while i < n
                    invariant
                        i <= n,
                        n == stroke@.len(),
                        self@ == replayed(old(self)@, stroke@.take(i as int)),
                    decreases n - i,
                {
                    self.apply_edit(stroke[i], Direction::Forward);
                    assert(stroke@.take(i + 1).drop_last() =~= stroke@.take(i as int));
                    i += 1;
                }
                assert(stroke@.take(n as int) =~= stroke@);
            },
            Direction::Reverse => {
                let mut i: usize = n;
                assert(stroke@.take(n as int) =~= stroke@);
                while i > 0
                    invariant
                        i <= n,
                        n == stroke@.len(),
                        reverted(self@, stroke@.take(i as int)) == reverted(old(self)@, stroke@),
                    decreases i,
                {
                    i -= 1;
                    assert(stroke@.take(i + 1).drop_last() =~= stroke@.take(i as int));
                    self.apply_edit(stroke[i], Direction::Reverse);
                }
            },
        }
    }

    /// Writes the characters of `string` into consecutive cells of a row,
    /// starting at `(col, row)`, and returns one edit record per cell written.
    /// Characters that would fall outside the layer are dropped.
    pub fn print_at(
        &mut self,
        string: String,
        layer: usize,
        col: u16,
        row: u16,
    ) -> (edits: Vec<Edit>)
        ensures
            final(self)@ == run_written(old(self)@, layer as int, col as int, row as int, string@),
            edits@ == run_edits(old(self)@, layer as int, col as int, row as int, string@),
    {
        let text = string.as_str();
        let len = text.unicode_len();
        let mut edits: Vec<Edit> = Vec::new();
        if !(layer < self.layers.len() && (row as usize) < self.layers[layer].len()) {
            assert(edits@ =~= run_edits(old(self)@, layer as int, col as int, row as int, string@));
            return edits;
        }
        let width = self.layers[layer][row as usize].len();
        let ghost fit = run_fit(old(self)@, layer as int, col as int, row as int, string@.len());
        let mut i: usize = 0;
        while i < len && i <= (u16::MAX - col) as usize && (col as usize) + i < width
            invariant
                i <= len,
                len == string@.len(),
                text@ == string@,
                i <= fit,
                width == old(self)@[layer as int][row as int].len(),
                fit == run_fit(old(self)@, layer as int, col as int, row as int, string@.len()),
                0 <= layer < old(self)@.len(),
                0 <= row < old(self)@[layer as int].len(),
                self@ == run_written(
                    old(self)@,
                    layer as int,
                    col as int,
                    row as int,
                    string@.take(i as int),
                ),
                edits@ == run_edits(
                    old(self)@,
                    layer as int,
                    col as int,
                    row as int,
                    string@.take(i as int),
                ),
            decreases len - i,
        {
            let ch = text.get_char(i);
            let at = col + i as u16;
            if let Some(edit) = self.write_cell(layer, at, row, ch) {
                edits.push(edit);
            }
            i += 1;
            assert(self@ =~~= run_written(
                old(self)@,
                layer as int,
                col as int,
                row as int,
                string@.take(i as int),
            ));
            assert(edits@ =~= run_edits(
                old(self)@,
                layer as int,
                col as int,
                row as int,
                string@.take(i as int),
            ));
        }
        assert(self@ =~~= run_written(old(self)@, layer as int, col as int, row as int, string@));
        assert(edits@ =~= run_edits(old(self)@, layer as int, col as int, row as int, string@));
        edits
    }
}

/// Writing a cell leaves the dimensions of the canvas as they are.
pub proof fn lemma_put_keeps_shape(
    cells: Cells,
    layer: int,
    col: int,
    row: int,
    ch: char,
    width: nat,
    height: nat,
)
    requires
        rectangular(cells, width, height),
    ensures
        put(cells, layer, col, row, ch).len() == cells.len(),
        rectangular(put(cells, layer, col, row, ch), width, height),
{
}

/// Writing a run of characters leaves the dimensions of the canvas as they are.
pub proof fn lemma_run_keeps_shape(
    cells: Cells,
    layer: int,
    col: int,
    row: int,
    text: Seq<char>,
    width: nat,
    height: nat,
)
    requires
        rectangular(cells, width, height),
    ensures
        run_written(cells, layer, col, row, text).len() == cells.len(),
        rectangular(run_written(cells, layer, col, row, text), width, height),
{
}

/// Applying a stroke, in either direction, leaves the dimensions of the
/// canvas as they are.
pub proof fn lemma_stroke_keeps_shape(
    cells: Cells,
    stroke: Seq<Edit>,
    direction: Direction,
    width: nat,
    height: nat,
)
    requires
        rectangular(cells, width, height),
    ensures
        stroke_applied(cells, stroke, direction).len() == cells.len(),
        rectangular(stroke_applied(cells, stroke, direction), width, height),
    decreases stroke.len(),
{
    if stroke.len() > 0 {
        let layer = DRAW_LAYER as int;
        let edit = stroke.last();
        match direction {
            Direction::Forward => {
                lemma_stroke_keeps_shape(cells, stroke.drop_last(), direction, width, height);
                lemma_put_keeps_shape(
                    replayed(cells, stroke.drop_last()),
                    layer,
                    edit.0 as int,
                    edit.1 as int,
                    edit.3,
                    width,
                    height,
                );
            },
            Direction::Reverse => {
                lemma_put_keeps_shape(
                    cells,
                    layer,
                    edit.0 as int,
                    edit.1 as int,
                    edit.2,
                    width,
                    height,
                );
                lemma_stroke_keeps_shape(
                    edit_applied(cells, edit, direction),
                    stroke.drop_last(),
                    direction,
                    width,
                    height,
                );
            },
        }
    }
}

/// Writing a run of characters to the drawing layer is replaying its edit
/// records.
pub proof fn lemma_run_is_replay(cells: Cells, col: int, row: int, text: Seq<char>)
    requires
        0 <= row <= u16::MAX,
    ensures
        replayed(cells, run_edits(cells, DRAW_LAYER as int, col, row, text)) == run_written(
            cells,
            DRAW_LAYER as int,
            col,
            row,
            text,
        ),
    decreases text.len(),
{
    let layer = DRAW_LAYER as int;
    let edits = run_edits(cells, layer, col, row, text);
    if text.len() > 0 {
        let shorter = text.drop_last();
        let before = run_edits(cells, layer, col, row, shorter);
        lemma_run_is_replay(cells, col, row, shorter);
        if edits.len() == before.len() {
            assert(edits =~= before);
            assert(run_written(cells, layer, col, row, text) =~~= run_written(
                cells,
                layer,
                col,
                row,
                shorter,
            ));
        } else {
            assert(edits.drop_last() =~= before);
            assert(edit_applied(
                run_written(cells, layer, col, row, shorter),
                edits.last(),
                Direction::Forward,
            ) =~~= run_written(cells, layer, col, row, text));
        }
    }
}

} // verus!
