//! Undo and redo on canvas and history together, and what holds of them
//! whatever the strokes are.

use vstd::prelude::*;

use crate::streamhandler::edit_applied;
use crate::streamhandler::put;
use crate::streamhandler::replayed;
use crate::streamhandler::reverted;
use crate::streamhandler::Cells;
use crate::streamhandler::Direction;
use crate::streamhandler::Edit;
use crate::streamhandler::StreamHandler;
use crate::streamhandler::DRAW_LAYER;
use crate::ui::data::get_next_undo;
use crate::ui::data::get_prev_undo;
use crate::ui::data::History;
use crate::ui::data::HistoryView;
use crate::ui::data::UNDO_LIST_MAX_SIZE;

verus! {

/// Canvas and history after one undo: the newest applied stroke is taken
/// back from the canvas and the cursor moves past it. Nothing changes where
/// no applied stroke is left.
pub open spec fn undo_step(cells: Cells, history: HistoryView) -> (Cells, HistoryView) {
    match history.undo_stroke() {
        Some(stroke) => (reverted(cells, stroke), history.undone()),
        None => (cells, history),
    }
}

/// Canvas and history after one redo: the stroke undone last is reapplied to
/// the canvas and the cursor moves back past it. Nothing changes where no
/// stroke is undone.
pub open spec fn redo_step(cells: Cells, history: HistoryView) -> (Cells, HistoryView) {
    match history.redo_stroke() {
        Some(stroke) => (replayed(cells, stroke), history.redone()),
        None => (cells, history),
    }
}

/// Canvas and history after `n` undos in a row.
pub open spec fn undo_steps(cells: Cells, history: HistoryView, n: nat) -> (Cells, HistoryView)
    decreases n,
{
    if n == 0 {
        (cells, history)
    } else {
        let next = undo_step(cells, history);
        undo_steps(next.0, next.1, (n - 1) as nat)
    }
}

/// Canvas and history after `n` redos in a row.
pub open spec fn redo_steps(cells: Cells, history: HistoryView, n: nat) -> (Cells, HistoryView)
    decreases n,
{
    if n == 0 {
        (cells, history)
    } else {
        let next = redo_step(cells, history);
        redo_steps(next.0, next.1, (n - 1) as nat)
    }
}

/// The history after the strokes have been committed one after the other.
pub open spec fn committed_all(history: HistoryView, strokes: Seq<Seq<Edit>>) -> HistoryView
    decreases strokes.len(),
{
    if strokes.len() == 0 {
        history
    } else {
        committed_all(history, strokes.drop_last()).committed(strokes.last())
    }
}

/// The canvas after the strokes have been painted one after the other.
pub open spec fn replayed_all(cells: Cells, strokes: Seq<Seq<Edit>>) -> Cells
    decreases strokes.len(),
{
    if strokes.len() == 0 {
        cells
    } else {
        replayed(replayed_all(cells, strokes.drop_last()), strokes.last())
    }
}

/// The edits of a list of strokes as one run, oldest edit first, where the
/// list has the newest stroke first.
pub open spec fn chronological(entries: Seq<Seq<Edit>>) -> Seq<Edit>
    decreases entries.len(),
{
    if entries.len() == 0 {
        Seq::empty()
    } else {
        chronological(entries.skip(1)) + entries[0]
    }
}

/// The strokes that `n` undos take back: those from the cursor on, as many
/// as there are, `n` at most.
pub open spec fn undo_reach(history: HistoryView, n: nat) -> Seq<Seq<Edit>> {
    let from = history.cursor as int;
    let count = vstd::math::min(n as int, history.entries.len() - from);
    history.entries.subrange(from, from + count)
}

/// The strokes that `n` redos reapply: those before the cursor, as many as
/// there are, `n` at most.
pub open spec fn redo_reach(history: HistoryView, n: nat) -> Seq<Seq<Edit>> {
    let to = history.cursor as int;
    let count = vstd::math::min(n as int, to);
    history.entries.subrange(to - count, to)
}

/// The last `count` of the strokes, newest first.
pub open spec fn newest_first(strokes: Seq<Seq<Edit>>, count: nat) -> Seq<Seq<Edit>> {
    Seq::new(count, |i: int| strokes[strokes.len() - 1 - i])
}

/// The canvas shows the strokes, given newest first: replaying them from the
/// oldest to the newest changes nothing.
pub open spec fn shows(cells: Cells, entries: Seq<Seq<Edit>>) -> bool {
    replayed(cells, chronological(entries)) == cells
}

/// Undoes one stroke on the canvas: see [`undo_step`]. Returns whether there
/// was a stroke to undo.
pub fn undo(stream: &mut StreamHandler, history: &mut History) -> (changed: bool)
    requires
        old(history).wf(),
    ensures
        final(history).wf(),
        (final(stream)@, final(history)@) == undo_step(old(stream)@, old(history)@),
        changed == old(history)@.undo_stroke() is Some,
{
    match get_prev_undo(history) {
        Some(stroke) => {
            stream.apply_stroke(&stroke, Direction::Reverse);
            true
        },
        None => false,
    }
}

/// Redoes one stroke on the canvas: see [`redo_step`]. Returns whether there
/// was a stroke to redo.
pub fn redo(stream: &mut StreamHandler, history: &mut History) -> (changed: bool)
    requires
        old(history).wf(),
    ensures
        final(history).wf(),
        (final(stream)@, final(history)@) == redo_step(old(stream)@, old(history)@),
        changed == old(history)@.redo_stroke() is Some,
{
    match get_next_undo(history) {
        Some(stroke) => {
            stream.apply_stroke(&stroke, Direction::Forward);
            true
        },
        None => false,
    }
}

/// Writing a cell twice leaves what the second write put there.
proof fn lemma_put_twice(cells: Cells, layer: int, col: int, row: int, a: char, b: char)
    ensures
        put(put(cells, layer, col, row, a), layer, col, row, b) == put(cells, layer, col, row, b),
{
    assert(put(put(cells, layer, col, row, a), layer, col, row, b) =~~= put(
        cells,
        layer,
        col,
        row,
        b,
    ));
}

/// Writes to two different cells can be made in either order.
proof fn lemma_put_swap(
    cells: Cells,
    layer: int,
    col1: int,
    row1: int,
    a: char,
    col2: int,
    row2: int,
    b: char,
)
    requires
        col1 != col2 || row1 != row2,
    ensures
        put(put(cells, layer, col1, row1, a), layer, col2, row2, b) == put(
            put(cells, layer, col2, row2, b),
            layer,
            col1,
            row1,
            a,
        ),
{
    assert(put(put(cells, layer, col1, row1, a), layer, col2, row2, b) =~~= put(
        put(cells, layer, col2, row2, b),
        layer,
        col1,
        row1,
        a,
    ));
}

/// A write that a later write to the same cell covers makes no difference,
/// whatever stroke is replayed in between.
proof fn lemma_replay_covers(cells: Cells, stroke: Seq<Edit>, col: int, row: int, a: char, b: char)
    ensures
        put(
            replayed(put(cells, DRAW_LAYER as int, col, row, a), stroke),
            DRAW_LAYER as int,
            col,
            row,
            b,
        ) == put(replayed(cells, stroke), DRAW_LAYER as int, col, row, b),
    decreases stroke.len(),
{
    let layer = DRAW_LAYER as int;
    if stroke.len() == 0 {
        lemma_put_twice(cells, layer, col, row, a, b);
    } else {
        let rest = stroke.drop_last();
        let edit = stroke.last();
        let with = replayed(put(cells, layer, col, row, a), rest);
        let without = replayed(cells, rest);
        lemma_replay_covers(cells, rest, col, row, a, b);
        if edit.0 as int == col && edit.1 as int == row {
            lemma_put_twice(with, layer, col, row, edit.3, b);
            lemma_put_twice(without, layer, col, row, edit.3, b);
        } else {
            lemma_put_swap(with, layer, edit.0 as int, edit.1 as int, edit.3, col, row, b);
            lemma_put_swap(without, layer, edit.0 as int, edit.1 as int, edit.3, col, row, b);
        }
    }
}

/// Replaying a stroke on a canvas from which it was just taken back gives
/// what replaying it on the canvas itself gives.
proof fn lemma_replay_after_revert(cells: Cells, stroke: Seq<Edit>)
    ensures
        replayed(reverted(cells, stroke), stroke) == replayed(cells, stroke),
    decreases stroke.len(),
{
    if stroke.len() > 0 {
        let rest = stroke.drop_last();
        let edit = stroke.last();
        let back = edit_applied(cells, edit, Direction::Reverse);
        lemma_replay_after_revert(back, rest);
        lemma_replay_covers(cells, rest, edit.0 as int, edit.1 as int, edit.2, edit.3);
    }
}

/// Replaying a stroke a second time changes nothing.
proof fn lemma_replay_twice(cells: Cells, stroke: Seq<Edit>)
    ensures
        replayed(replayed(cells, stroke), stroke) == replayed(cells, stroke),
    decreases stroke.len(),
{
    if stroke.len() > 0 {
        let rest = stroke.drop_last();
        let edit = stroke.last();
        lemma_replay_covers(
            replayed(cells, rest),
            rest,
            edit.0 as int,
            edit.1 as int,
            edit.3,
            edit.3,
        );
        lemma_replay_twice(cells, rest);
    }
}

/// Replaying two runs of edits one after the other is replaying their
/// concatenation.
proof fn lemma_replay_concat(cells: Cells, first: Seq<Edit>, second: Seq<Edit>)
    ensures
        replayed(cells, first + second) == replayed(replayed(cells, first), second),
    decreases second.len(),
{
    if second.len() == 0 {
        assert(first + second =~= first);
    } else {
        assert((first + second).drop_last() =~= first + second.drop_last());
        lemma_replay_concat(cells, first, second.drop_last());
    }
}

/// Taking back the concatenation of two runs of edits is taking back the
/// second and then the first.
proof fn lemma_revert_concat(cells: Cells, first: Seq<Edit>, second: Seq<Edit>)
    ensures
        reverted(cells, first + second) == reverted(reverted(cells, second), first),
    decreases second.len(),
{
    if second.len() == 0 {
        assert(first + second =~= first);
    } else {
        assert((first + second).drop_last() =~= first + second.drop_last());
        lemma_revert_concat(
            edit_applied(cells, second.last(), Direction::Reverse),
            first,
            second.drop_last(),
        );
    }
}

/// The run of a list of strokes starts with the edits of its oldest stroke.
proof fn lemma_chronological_oldest(entries: Seq<Seq<Edit>>)
    requires
        entries.len() > 0,
    ensures
        chronological(entries) == entries.last() + chronological(entries.drop_last()),
    decreases entries.len(),
{
    let rest = entries.skip(1);
    if rest.len() == 0 {
        assert(entries.drop_last() =~= Seq::<Seq<Edit>>::empty());
        assert(chronological(rest) =~= Seq::<Edit>::empty());
        assert(chronological(entries.drop_last()) =~= Seq::<Edit>::empty());
        assert(chronological(entries) =~= entries.last() + chronological(entries.drop_last()));
    } else {
        lemma_chronological_oldest(rest);
        assert(entries.drop_last().skip(1) =~= rest.drop_last());
        assert(chronological(entries) =~= entries.last() + chronological(entries.drop_last()));
    }
}

/// What `n` undos come to: the strokes within their reach are taken back
/// from the canvas, newest first, and the cursor has moved past them.
proof fn lemma_undo_steps(cells: Cells, history: HistoryView, n: nat)
    requires
        history.cursor <= history.entries.len(),
    ensures
        undo_steps(cells, history, n) == (
            reverted(cells, chronological(undo_reach(history, n))),
            HistoryView { cursor: history.cursor + undo_reach(history, n).len(), ..history },
        ),
    decreases n,
{
    let reach = undo_reach(history, n);
    if n == 0 || history.cursor == history.entries.len() {
        assert(reach =~= Seq::<Seq<Edit>>::empty());
        if n > 0 {
            lemma_undo_steps(cells, history, (n - 1) as nat);
            assert(undo_reach(history, (n - 1) as nat) =~= Seq::<Seq<Edit>>::empty());
        }
    } else {
        let stroke = history.entries[history.cursor as int];
        let next = undo_step(cells, history);
        lemma_undo_steps(next.0, next.1, (n - 1) as nat);
        let rest = undo_reach(next.1, (n - 1) as nat);
        assert(reach.skip(1) =~= rest);
        assert(reach[0] == stroke);
        lemma_revert_concat(cells, chronological(rest), stroke);
    }
}

/// What `n` redos come to: the strokes within their reach are replayed on
/// the canvas, oldest first, and the cursor has moved back past them.
proof fn lemma_redo_steps(cells: Cells, history: HistoryView, n: nat)
    requires
        history.cursor <= history.entries.len(),
    ensures
        redo_steps(cells, history, n) == (
            replayed(cells, chronological(redo_reach(history, n))),
            HistoryView {
                cursor: (history.cursor - redo_reach(history, n).len()) as nat,
                ..history
            },
        ),
    decreases n,
{
    let reach = redo_reach(history, n);
    if n == 0 || history.cursor == 0 {
        assert(reach =~= Seq::<Seq<Edit>>::empty());
        if n > 0 {
            lemma_redo_steps(cells, history, (n - 1) as nat);
            assert(redo_reach(history, (n - 1) as nat) =~= Seq::<Seq<Edit>>::empty());
        }
    } else {
        let stroke = history.entries[history.cursor - 1];
        let next = redo_step(cells, history);
        lemma_redo_steps(next.0, next.1, (n - 1) as nat);
        let rest = redo_reach(next.1, (n - 1) as nat);
        assert(reach.drop_last() =~= rest);
        assert(reach.last() == stroke);
        lemma_chronological_oldest(reach);
        lemma_replay_concat(cells, stroke, chronological(rest));
    }
}

/// Undoing any number of strokes and redoing as many restores canvas and
/// history exactly, provided that the canvas shows the strokes that the
/// undos reach (replaying them changes nothing) and that the redos reach
/// no further than the undos did: either the undos all find a stroke, or
/// nothing was undone to begin with.
pub proof fn lemma_undo_redo_restores(cells: Cells, history: HistoryView, n: nat)
    requires
        history.wf(),
        history.cursor == 0 || history.cursor + n <= history.entries.len(),
        shows(cells, undo_reach(history, n)),
    ensures
        ({
            let undone = undo_steps(cells, history, n);
            redo_steps(undone.0, undone.1, n) == (cells, history)
        }),
{
    let reach = undo_reach(history, n);
    let undone = undo_steps(cells, history, n);
    lemma_undo_steps(cells, history, n);
    lemma_redo_steps(undone.0, undone.1, n);
    assert(redo_reach(undone.1, n) =~= reach);
    lemma_replay_after_revert(cells, chronological(reach));
}

/// A history that has seen nothing but commits holds the newest strokes,
/// newest first, up to its bound, and its cursor is at the newest.
pub proof fn lemma_committed_all(strokes: Seq<Seq<Edit>>)
    ensures
        committed_all(HistoryView::empty(), strokes).wf(),
        committed_all(HistoryView::empty(), strokes) == (HistoryView {
            entries: newest_first(
                strokes,
                vstd::math::min(strokes.len() as int, UNDO_LIST_MAX_SIZE as int) as nat,
            ),
            cursor: 0,
        }),
    decreases strokes.len(),
{
    let history = committed_all(HistoryView::empty(), strokes);
    let count = vstd::math::min(strokes.len() as int, UNDO_LIST_MAX_SIZE as int) as nat;
    if strokes.len() == 0 {
        assert(history.entries =~= newest_first(strokes, count));
    } else {
        lemma_committed_all(strokes.drop_last());
        let before = committed_all(HistoryView::empty(), strokes.drop_last());
        assert(before.entries.skip(0) =~= before.entries);
        assert(history.entries =~= newest_first(strokes, count));
    }
}

/// A canvas on which strokes were painted is the canvas before the last
/// `count` of them with the run of these replayed on it.
proof fn lemma_replayed_all_split(cells: Cells, strokes: Seq<Seq<Edit>>, count: nat)
    requires
        count <= strokes.len(),
    ensures
        replayed_all(cells, strokes) == replayed(
            replayed_all(cells, strokes.take(strokes.len() - count)),
            chronological(newest_first(strokes, count)),
        ),
    decreases count,
{
    if count == 0 {
        assert(strokes.take(strokes.len() - count) =~= strokes);
        assert(newest_first(strokes, count) =~= Seq::<Seq<Edit>>::empty());
    } else {
        let older = strokes.drop_last();
        lemma_replayed_all_split(cells, older, (count - 1) as nat);
        assert(newest_first(strokes, count).skip(1) =~= newest_first(older, (count - 1) as nat));
        assert(older.take(older.len() - (count - 1)) =~= strokes.take(strokes.len() - count));
        lemma_replay_concat(
            replayed_all(cells, strokes.take(strokes.len() - count)),
            chronological(newest_first(older, (count - 1) as nat)),
            strokes.last(),
        );
    }
}

/// For every canvas and every sequence of strokes painted on it and
/// committed, undoing any number of times and then redoing the same number
/// of times restores the canvas, character for character, and the history.
pub proof fn lemma_undo_redo_restores_commits(base: Cells, strokes: Seq<Seq<Edit>>, n: nat)
    ensures
        ({
            let cells = replayed_all(base, strokes);
            let history = committed_all(HistoryView::empty(), strokes);
            let undone = undo_steps(cells, history, n);
            redo_steps(undone.0, undone.1, n) == (cells, history)
        }),
{
    let cells = replayed_all(base, strokes);
    let history = committed_all(HistoryView::empty(), strokes);
    lemma_committed_all(strokes);
    let reach = undo_reach(history, n);
    let count = reach.len();
    assert(reach =~= newest_first(strokes, count));
    lemma_replayed_all_split(base, strokes, count);
    lemma_replay_twice(
        replayed_all(base, strokes.take(strokes.len() - count)),
        chronological(reach),
    );
    lemma_undo_redo_restores(cells, history, n);
}

/// The run of a list of strokes is the run of its older strokes followed by
/// the run of its `count` newest.
proof fn lemma_chronological_split(entries: Seq<Seq<Edit>>, count: int)
    requires
        0 <= count <= entries.len(),
    ensures
        chronological(entries) == chronological(entries.skip(count)) + chronological(
            entries.take(count),
        ),
    decreases count,
{
    if count == 0 {
        assert(entries.skip(0) =~= entries);
        assert(chronological(entries.take(0)) =~= Seq::<Edit>::empty());
        assert(chronological(entries) =~= chronological(entries) + Seq::<Edit>::empty());
    } else {
        let rest = entries.skip(1);
        lemma_chronological_split(rest, count - 1);
        assert(rest.skip(count - 1) =~= entries.skip(count));
        assert(entries.take(count).skip(1) =~= rest.take(count - 1));
        assert(chronological(entries) =~= chronological(entries.skip(count)) + chronological(
            entries.take(count),
        ));
    }
}

/// A canvas that shows a list of strokes shows the newest of them, however
/// many are taken.
pub proof fn lemma_shows_newest(cells: Cells, entries: Seq<Seq<Edit>>, count: int)
    requires
        shows(cells, entries),
        0 <= count <= entries.len(),
    ensures
        shows(cells, entries.take(count)),
{
    let older = chronological(entries.skip(count));
    let newer = chronological(entries.take(count));
    lemma_chronological_split(entries, count);
    lemma_replay_concat(cells, older, newer);
    lemma_replay_twice(replayed(cells, older), newer);
}

/// What a stroke wrote before other edits were replayed makes no difference
/// once the stroke is replayed behind them.
proof fn lemma_replay_covers_stroke(cells: Cells, stroke: Seq<Edit>, between: Seq<Edit>)
    ensures
        replayed(replayed(replayed(cells, stroke), between), stroke) == replayed(
            replayed(cells, between),
            stroke,
        ),
    decreases stroke.len(),
{
    if stroke.len() > 0 {
        let rest = stroke.drop_last();
        let edit = stroke.last();
        let first = replayed(cells, rest);
        lemma_replay_covers_stroke(cells, rest, between);
        lemma_replay_covers(first, between + rest, edit.0 as int, edit.1 as int, edit.3, edit.3);
        lemma_replay_concat(edit_applied(first, edit, Direction::Forward), between, rest);
        lemma_replay_concat(first, between, rest);
    }
}

/// Where the canvas shows the strokes of the history that are applied, a
/// stroke painted on the canvas and committed leaves a canvas that shows the
/// strokes of the new history.
pub proof fn lemma_commit_keeps_showing(cells: Cells, history: HistoryView, stroke: Seq<Edit>)
    requires
        history.wf(),
        shows(cells, history.entries.skip(history.cursor as int)),
    ensures
        shows(replayed(cells, stroke), history.committed(stroke).entries),
{
    let kept = history.entries.skip(history.cursor as int);
    let grown = seq![stroke] + kept;
    let painted = replayed(cells, stroke);
    assert(grown.skip(1) =~= kept);
    lemma_replay_concat(painted, chronological(kept), stroke);
    lemma_replay_covers_stroke(cells, stroke, chronological(kept));
    assert(shows(painted, grown));
    if grown.len() > UNDO_LIST_MAX_SIZE {
        lemma_shows_newest(painted, grown, UNDO_LIST_MAX_SIZE as int);
    }
}

/// Where the canvas shows the strokes of a history with nothing undone,
/// undoing any number of times and then redoing the same number of times
/// restores canvas and history exactly.
pub proof fn lemma_undo_redo_restores_shown(cells: Cells, history: HistoryView, n: nat)
    requires
        history.wf(),
        history.cursor == 0,
        shows(cells, history.entries),
    ensures
        ({
            let undone = undo_steps(cells, history, n);
            redo_steps(undone.0, undone.1, n) == (cells, history)
        }),
{
    let reach = undo_reach(history, n);
    assert(reach =~= history.entries.take(reach.len() as int));
    lemma_shows_newest(cells, history.entries, reach.len() as int);
    lemma_undo_redo_restores(cells, history, n);
}

} // verus!
