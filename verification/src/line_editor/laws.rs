//! What undo and redo promise, proved of the editor's steps.

use vstd::prelude::*;
use crate::completion::CommandCompletion;
use crate::line_editor::command::CommandView;
use crate::line_editor::editor::{at_rest, cur, cur_index, line_edit, step, EditorView};
use crate::line_editor::line::{fixed_cursor, LineView};

verus! {

/// Whether a command changes nothing but the current line: the cursor
/// motions, the insertions and deletions, and the two pastes.
pub open spec fn is_buffer_mutation(c: CommandView) -> bool {
    line_edit(LineView { text: seq![], cursor: 0 }, c) is Some || c is RegisterPastePrev
        || c is RegisterPasteNext
}

/// The state after a sequence of commands.
pub open spec fn run(v: EditorView, cs: Seq<CommandView>, completion: &CommandCompletion) -> EditorView
    decreases cs.len(),
{
    if cs.len() == 0 {
        v
    } else {
        step(run(v, cs.drop_last(), completion), cs.last(), completion).0
    }
}

/// A line as it is after the cursor was settled in the given state's mode.
pub open spec fn settled_line(v: EditorView, l: LineView) -> LineView {
    if v.mode is Insert || v.mode is Search {
        l
    } else {
        LineView { text: l.text, cursor: fixed_cursor(l.text.len() as int, l.cursor) }
    }
}

/// The state has a current line.
pub open spec fn has_current(v: EditorView) -> bool {
    0 <= v.back < v.temporal.len()
}

/// What a buffer mutation leaves alone: everything but the current line,
/// which it leaves settled.
pub open spec fn same_but_current(v: EditorView, w: EditorView) -> bool {
    &&& w.mode == v.mode
    &&& w.undo == v.undo
    &&& w.redo == v.redo
    &&& w.back == v.back
    &&& w.history == v.history
    &&& w.temporal.len() == v.temporal.len()
    &&& forall|i: int| 0 <= i < v.temporal.len() && i != cur_index(v) ==> w.temporal[i] == v.temporal[i]
}

/// A buffer mutation changes the current line and nothing else, and leaves
/// the cursor settled.
pub proof fn lemma_mutation_keeps_stacks(
    v: EditorView,
    c: CommandView,
    completion: &CommandCompletion,
)
    requires
        has_current(v),
        is_buffer_mutation(c),
    ensures
        same_but_current(v, step(v, c, completion).0),
        has_current(step(v, c, completion).0),
        settled_line(v, cur(step(v, c, completion).0)) == cur(step(v, c, completion).0),
{
}

/// A sequence of buffer mutations changes the current line and nothing else;
/// after at least one the cursor is settled.
pub proof fn lemma_mutations_keep_stacks(
    v: EditorView,
    cs: Seq<CommandView>,
    completion: &CommandCompletion,
)
    requires
        has_current(v),
        forall|i: int| 0 <= i < cs.len() ==> is_buffer_mutation(#[trigger] cs[i]),
    ensures
        same_but_current(v, run(v, cs, completion)),
        has_current(run(v, cs, completion)),
        cs.len() > 0 ==> settled_line(v, cur(run(v, cs, completion))) == cur(
            run(v, cs, completion),
        ),
    decreases cs.len(),
{
    if cs.len() > 0 {
        let w = run(v, cs.drop_last(), completion);
        assert forall|i: int| 0 <= i < cs.drop_last().len() implies is_buffer_mutation(
            #[trigger] cs.drop_last()[i],
        ) by {
            assert(cs.drop_last()[i] == cs[i]);
        }
        lemma_mutations_keep_stacks(v, cs.drop_last(), completion);
        lemma_mutation_keeps_stacks(w, cs.last(), completion);
    }
}

/// Undo after a checkpoint and any buffer mutations: the current line is the
/// snapshot that the checkpoint took, text and cursor, the undo stack is as it
/// was before the checkpoint, and the line as it was just before the undo is
/// alone on the redo stack.
pub proof fn lemma_undo_restores_checkpoint(
    v: EditorView,
    cs: Seq<CommandView>,
    completion: &CommandCompletion,
)
    requires
        has_current(v),
        at_rest(v),
        forall|i: int| 0 <= i < cs.len() ==> is_buffer_mutation(#[trigger] cs[i]),
    ensures
        ({
            let marked = step(v, CommandView::MakeCheckPoint, completion).0;
            let edited = run(marked, cs, completion);
            let undone = step(edited, CommandView::Undo, completion).0;
            &&& cur(undone) == cur(v)
            &&& undone.undo == v.undo
            &&& undone.redo == seq![cur(edited)]
            &&& undone.mode == v.mode
        }),
{
    let marked = step(v, CommandView::MakeCheckPoint, completion).0;
    let edited = run(marked, cs, completion);
    lemma_mutations_keep_stacks(marked, cs, completion);
    assert(marked.undo == v.undo.push(cur(v)));
    assert(edited.undo.drop_last() =~= v.undo);
    let undone = step(edited, CommandView::Undo, completion).0;
    assert(undone.redo =~= seq![cur(edited)]);
}

/// Undo with nothing on the undo stack changes neither the lines nor the
/// stacks.
pub proof fn lemma_undo_without_checkpoint(v: EditorView, completion: &CommandCompletion)
    requires
        has_current(v),
        at_rest(v),
        v.undo.len() == 0,
    ensures
        step(v, CommandView::Undo, completion).0 == (EditorView { last_was_completion: false, ..v }),
{
    let undone = step(v, CommandView::Undo, completion).0;
    assert(undone.temporal =~= v.temporal);
}

/// Redo after that undo: the current line is as it was before the undo, text
/// and cursor, the lines being edited and the redo stack too, and the
/// snapshot is back on top of the undo stack.
pub proof fn lemma_redo_undoes_undo(
    v: EditorView,
    cs: Seq<CommandView>,
    completion: &CommandCompletion,
)
    requires
        has_current(v),
        at_rest(v),
        forall|i: int| 0 <= i < cs.len() ==> is_buffer_mutation(#[trigger] cs[i]),
    ensures
        ({
            let marked = step(v, CommandView::MakeCheckPoint, completion).0;
            let edited = run(marked, cs, completion);
            let undone = step(edited, CommandView::Undo, completion).0;
            let redone = step(undone, CommandView::Redo, completion).0;
            &&& cur(redone) == cur(edited)
            &&& redone.temporal == edited.temporal
            &&& redone.redo == edited.redo
            &&& redone.undo == v.undo.push(cur(v))
            &&& redone.mode == edited.mode
        }),
{
    let marked = step(v, CommandView::MakeCheckPoint, completion).0;
    let edited = run(marked, cs, completion);
    lemma_mutations_keep_stacks(marked, cs, completion);
    lemma_undo_restores_checkpoint(v, cs, completion);
    let undone = step(edited, CommandView::Undo, completion).0;
    let redone = step(undone, CommandView::Redo, completion).0;
    assert(settled_line(marked, cur(edited)) == cur(edited));
    assert(undone.redo.last() == cur(edited));
    assert(undone.redo.drop_last() =~= seq![]);
    assert(redone.redo =~= edited.redo);
    assert(redone.temporal =~= edited.temporal);
}

/// A checkpoint empties the redo stack, and redo with nothing on it changes
/// neither the lines nor the stacks.
pub proof fn lemma_checkpoint_forgets_redo(v: EditorView, completion: &CommandCompletion)
    requires
        has_current(v),
        at_rest(v),
    ensures
        ({
            let marked = step(v, CommandView::MakeCheckPoint, completion).0;
            let redone = step(marked, CommandView::Redo, completion).0;
            &&& marked.redo == Seq::<LineView>::empty()
            &&& cur(marked) == cur(v)
            &&& redone == marked
        }),
{
    let marked = step(v, CommandView::MakeCheckPoint, completion).0;
    let redone = step(marked, CommandView::Redo, completion).0;
    assert(marked.temporal =~= v.temporal);
    assert(redone.temporal =~= marked.temporal);
}

} // verus!
