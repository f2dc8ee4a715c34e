//! The undo history: a bounded list of committed strokes, newest first, and a
//! cursor that separates the strokes that are undone from those still applied.

use std::collections::VecDeque;
use vstd::prelude::*;

use crate::streamhandler::copy_stroke;
use crate::streamhandler::Edit;

verus! {

/// The most strokes the history keeps.
pub const UNDO_LIST_MAX_SIZE: usize = 1024;

/// The history as a value: the strokes, newest first, and the cursor. The
/// strokes before the cursor are undone, those from the cursor on are applied.
pub struct HistoryView {
    pub entries: Seq<Seq<Edit>>,
    pub cursor: nat,
}

impl HistoryView {
    /// The cursor lies within the list and the list within its bound.
    pub open spec fn wf(self) -> bool {
        self.cursor <= self.entries.len() <= UNDO_LIST_MAX_SIZE
    }

    /// The history with no strokes.
    pub open spec fn empty() -> HistoryView {
        HistoryView { entries: Seq::empty(), cursor: 0 }
    }

    /// The history after a commit: the undone strokes are gone, the new
    /// stroke is the newest, the oldest is dropped if the list would
    /// outgrow its bound, and the cursor is back at the newest.
    pub open spec fn committed(self, stroke: Seq<Edit>) -> HistoryView {
        let kept = self.entries.skip(self.cursor as int);
        let grown = seq![stroke] + kept;
        HistoryView {
            entries: if grown.len() > UNDO_LIST_MAX_SIZE {
                grown.take(UNDO_LIST_MAX_SIZE as int)
            } else {
                grown
            },
            cursor: 0,
        }
    }

    /// The stroke that an undo hands out: the newest one still applied.
    pub open spec fn undo_stroke(self) -> Option<Seq<Edit>> {
        if self.cursor < self.entries.len() {
            Some(self.entries[self.cursor as int])
        } else {
            None
        }
    }

    /// The history after an undo: the cursor moves one stroke into the past,
    /// or stays where nothing is left to undo.
    pub open spec fn undone(self) -> HistoryView {
        if self.cursor < self.entries.len() {
            HistoryView { entries: self.entries, cursor: self.cursor + 1 }
        } else {
            self
        }
    }

    /// The stroke that a redo hands out: the one undone last.
    pub open spec fn redo_stroke(self) -> Option<Seq<Edit>> {
        if self.cursor > 0 {
            Some(self.entries[self.cursor - 1])
        } else {
            None
        }
    }

    /// The history after a redo: the cursor moves one stroke towards the
    /// newest, or stays where nothing is undone.
    pub open spec fn redone(self) -> HistoryView {
        if self.cursor > 0 {
            HistoryView { entries: self.entries, cursor: (self.cursor - 1) as nat }
        } else {
            self
        }
    }
}

/// The committed strokes and the undo cursor.
pub struct History {
    list: VecDeque<Vec<Edit>>,
    ptr: usize,
}

impl View for History {
    type V = HistoryView;

    closed spec fn view(&self) -> HistoryView {
        HistoryView {
            entries: Seq::new(self.list@.len(), |i: int| self.list@[i]@),
            cursor: self.ptr as nat,
        }
    }
}

impl History {
    /// The invariant every history keeps: see [`HistoryView::wf`].
    pub open spec fn wf(&self) -> bool {
        self@.wf()
    }

    /// A history without strokes.
    pub fn new() -> (history: Self)
        ensures
            history.wf(),
            history@ == HistoryView::empty(),
    {
        let history = History { list: VecDeque::new(), ptr: 0 };
        assert(history@.entries =~= Seq::empty());
        history
    }

    /// How many strokes the history holds.
    pub fn len(&self) -> (n: usize)
        ensures
            n == self@.entries.len(),
    {
        self.list.len()
    }

    /// How many of the strokes are undone.
    pub fn position(&self) -> (p: usize)
        ensures
            p == self@.cursor,
    {
        self.ptr
    }
}

/// Commits a stroke. Strokes that were undone are discarded for good, the
/// stroke becomes the newest entry, the cursor returns to it, and the oldest
/// entry is evicted once the list would hold more than
/// [`UNDO_LIST_MAX_SIZE`] strokes.
pub fn push_to_undolist(history: &mut History, stroke: Vec<Edit>)
    requires
        old(history).wf(),
    ensures
        final(history).wf(),
        final(history)@ == old(history)@.committed(stroke@),
{
    let undone = history.ptr;
    history.ptr = 0;
    let mut dropped: usize = 0;
    while dropped < undone
        invariant
            dropped <= undone,
            undone == old(history)@.cursor,
            undone <= old(history)@.entries.len(),
            history.ptr == 0,
            history@.entries == old(history)@.entries.skip(dropped as int),
        decreases undone - dropped,
    {
        let ghost before = history@.entries;
        assert(before.len() == old(history)@.entries.len() - dropped);
        let _ = history.list.pop_front();
        dropped += 1;
        assert(history@.entries =~= before.skip(1));
        assert(before.skip(1) =~= old(history)@.entries.skip(dropped as int));
    }
    let ghost kept = history@.entries;
    history.list.push_front(stroke);
    assert(history@.entries =~= seq![stroke@] + kept);
    if history.list.len() > UNDO_LIST_MAX_SIZE {
        let _ = history.list.pop_back();
        assert(history@.entries =~= (seq![stroke@] + kept).take(UNDO_LIST_MAX_SIZE as int));
    }
}

/// Undoes one stroke: moves the cursor one stroke into the past and hands
/// out the stroke it passed, for the caller to take back edit by edit, last
/// to first. `None`, and no move, when no applied stroke is left.
pub fn get_prev_undo(history: &mut History) -> (stroke: Option<Vec<Edit>>)
    requires
        old(history).wf(),
    ensures
        final(history).wf(),
        final(history)@ == old(history)@.undone(),
        match stroke {
            Some(edits) => old(history)@.undo_stroke() == Some(edits@),
            None => old(history)@.undo_stroke() is None,
        },
{
    if history.ptr >= history.list.len() {
        return None;
    }
    let stroke = copy_stroke(&history.list[history.ptr]);
    history.ptr += 1;
    Some(stroke)
}

/// Redoes one stroke: moves the cursor one stroke towards the newest and
/// hands out the stroke it passed, for the caller to reapply edit by edit,
/// first to last. `None`, and no move, when nothing is undone.
pub fn get_next_undo(history: &mut History) -> (stroke: Option<Vec<Edit>>)
    requires
        old(history).wf(),
    ensures
        final(history).wf(),
        final(history)@ == old(history)@.redone(),
        match stroke {
            Some(edits) => old(history)@.redo_stroke() == Some(edits@),
            None => old(history)@.redo_stroke() is None,
        },
{
    if history.ptr == 0 {
        return None;
    }
    history.ptr -= 1;
    let stroke = copy_stroke(&history.list[history.ptr]);
    Some(stroke)
}

/// A commit while strokes are undone discards every one of them: behind the
/// new stroke the history holds the strokes from the cursor on and no
/// other. The cursor is at the new stroke, so that a redo finds nothing and
/// moves nothing until an undo has happened.
pub proof fn lemma_commit_discards_undone(history: HistoryView, stroke: Seq<Edit>)
    requires
        history.wf(),
    ensures
        ({
            let after = history.committed(stroke);
            &&& after.wf()
            &&& after.cursor == 0
            &&& 1 <= after.entries.len() <= history.entries.len() - history.cursor + 1
            &&& after.entries[0] == stroke
            &&& forall|i: int|
                1 <= i < after.entries.len() ==> after.entries[i] == history.entries[history.cursor
                    + i - 1]
            &&& after.redo_stroke() is None
            &&& after.redone() == after
        }),
{
}

/// The history never holds more than [`UNDO_LIST_MAX_SIZE`] strokes. A commit
/// to a full history with nothing undone evicts exactly the oldest stroke:
/// the new stroke and all the others stay, in their order.
pub proof fn lemma_commit_evicts_oldest(history: HistoryView, stroke: Seq<Edit>)
    requires
        history.wf(),
    ensures
        history.committed(stroke).entries.len() <= UNDO_LIST_MAX_SIZE,
        history.cursor == 0 && history.entries.len() == UNDO_LIST_MAX_SIZE ==> history.committed(
            stroke,
        ).entries == seq![stroke] + history.entries.drop_last(),
        history.entries.len() - history.cursor < UNDO_LIST_MAX_SIZE ==> history.committed(
            stroke,
        ).entries == seq![stroke] + history.entries.skip(history.cursor as int),
{
    let after = history.committed(stroke);
    if history.cursor == 0 && history.entries.len() == UNDO_LIST_MAX_SIZE {
        assert(history.entries.skip(0) =~= history.entries);
        assert(after.entries =~= seq![stroke] + history.entries.drop_last());
    }
}

} // verus!
